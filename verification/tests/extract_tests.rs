use std::io::Write;

use grd::download::Payload;
use grd::extract::{extract_executable, extract_tar_gz, extract_zip};
use grd::Error;

fn zip_bytes(entry_path: &str, contents: &[u8]) -> Vec<u8> {
    let mut cur = std::io::Cursor::new(Vec::new());
    {
        let mut w = zip::ZipWriter::new(&mut cur);
        w.start_file(entry_path, zip::write::SimpleFileOptions::default()).unwrap();
        w.write_all(contents).unwrap();
        w.finish().unwrap();
    }
    cur.into_inner()
}

fn tar_gz_bytes(entry_path: &str, contents: &[u8]) -> Vec<u8> {
    let mut tarbuf: Vec<u8> = Vec::new();
    {
        let mut b = tar::Builder::new(&mut tarbuf);
        let mut h = tar::Header::new_gnu();
        h.set_size(contents.len() as u64);
        h.set_mode(0o755);
        h.set_cksum();
        b.append_data(&mut h, entry_path, contents).unwrap();
        b.finish().unwrap();
    }
    let mut enc = flate2::write::GzEncoder::new(Vec::new(), flate2::Compression::default());
    enc.write_all(&tarbuf).unwrap();
    enc.finish().unwrap()
}

fn memory_payload(bytes: &[u8]) -> Payload {
    let mut p = Payload::for_size(0, u64::MAX).unwrap();
    assert!(p.is_memory_backed());
    p.append(bytes).unwrap();
    p
}

fn disk_payload(bytes: &[u8]) -> Payload {
    let mut p = Payload::for_size(1, 0).unwrap();
    assert!(!p.is_memory_backed());
    p.append(bytes).unwrap();
    p
}

#[test]
fn zip_round_trip_returns_the_packaged_executable() {
    let exe = b"\x7fELF fake executable bytes \x00\x01\x02";
    let archive = zip_bytes("dist/bin/tool", exe);
    let out = extract_zip(memory_payload(&archive), "tool").unwrap();
    assert_eq!(out, exe.to_vec());
}

#[test]
fn tar_gz_round_trip_returns_the_packaged_executable() {
    let exe = b"#!/bin/sh\necho tool\n";
    let archive = tar_gz_bytes("tool-v1.0/tool", exe);
    let out = extract_tar_gz(memory_payload(&archive), "tool").unwrap();
    assert_eq!(out, exe.to_vec());
}

#[test]
fn disk_backed_payloads_extract_the_same_bytes() {
    let exe = b"\x7fELF disk-backed executable";
    let zipped = zip_bytes("tool", exe);
    let out = extract_zip(disk_payload(&zipped), "tool").unwrap();
    assert_eq!(out, exe.to_vec());

    let tarred = tar_gz_bytes("pkg/tool", exe);
    let out2 = extract_tar_gz(disk_payload(&tarred), "tool").unwrap();
    assert_eq!(out2, exe.to_vec());
}

#[test]
fn the_first_matching_entry_wins() {
    let mut cur = std::io::Cursor::new(Vec::new());
    {
        let mut w = zip::ZipWriter::new(&mut cur);
        w.start_file("a/tool", zip::write::SimpleFileOptions::default()).unwrap();
        w.write_all(b"first").unwrap();
        w.start_file("b/tool", zip::write::SimpleFileOptions::default()).unwrap();
        w.write_all(b"second").unwrap();
        w.finish().unwrap();
    }
    let out = extract_zip(memory_payload(&cur.into_inner()), "tool").unwrap();
    assert_eq!(out, b"first".to_vec());
}

#[test]
fn a_missing_entry_is_executable_not_found() {
    let archive = zip_bytes("docs/readme.txt", b"no binary here");
    match extract_zip(memory_payload(&archive), "tool") {
        Err(Error::ExecutableNotFound) => {}
        _ => panic!("an archive without the target must fail"),
    }
    let targz = tar_gz_bytes("docs/readme.txt", b"no binary here");
    match extract_tar_gz(memory_payload(&targz), "tool") {
        Err(Error::ExecutableNotFound) => {}
        _ => panic!("an archive without the target must fail"),
    }
}

#[test]
fn malformed_archives_are_archive_read_errors() {
    match extract_zip(memory_payload(b"this is not a zip"), "tool") {
        Err(Error::ArchiveReadError) => {}
        _ => panic!("garbage bytes must be an archive error"),
    }
    match extract_tar_gz(memory_payload(b"this is not gzip"), "tool") {
        Err(Error::ArchiveReadError) => {}
        _ => panic!("garbage bytes must be an archive error"),
    }
}

#[test]
fn raw_save_keeps_the_asset_name_and_every_byte() {
    let body = b"raw asset bytes \x00\xff\x10";
    let f = extract_executable(memory_payload(body), "tool-1.2.3.bin", "tool", false, true)
        .unwrap();
    assert_eq!(f.file_name, "tool-1.2.3.bin");
    assert_eq!(f.data, body.to_vec());
}

#[test]
fn an_unknown_suffix_is_the_raw_executable_under_the_target_name() {
    let body = b"\x7fELF raw executable";
    let f = extract_executable(
        memory_payload(body),
        "tool-x86_64-unknown-linux-gnu",
        "tool",
        false,
        false,
    )
    .unwrap();
    assert_eq!(f.file_name, "tool");
    assert_eq!(f.data, body.to_vec());
}

#[test]
fn the_windows_target_name_carries_an_exe_suffix() {
    let exe = b"MZ windows executable";
    let archive = zip_bytes("tool.exe", exe);
    let f = extract_executable(memory_payload(&archive), "tool-win64.zip", "tool", true, false)
        .unwrap();
    assert_eq!(f.file_name, "tool.exe");
    assert_eq!(f.data, exe.to_vec());
}

#[test]
fn suffix_dispatch_reads_tgz_like_tar_gz() {
    let exe = b"payload";
    let archive = tar_gz_bytes("tool", exe);
    let f = extract_executable(memory_payload(&archive), "tool-linux.tgz", "tool", false, false)
        .unwrap();
    assert_eq!(f.file_name, "tool");
    assert_eq!(f.data, exe.to_vec());
}
