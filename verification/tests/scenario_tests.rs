use std::io::Write;

use grd::download::Payload;
use grd::extract::extract_executable;
use grd::platform::{Arch, Os, PlatformSpec};
use grd::release::{Asset, Release};
use grd::selector::{select_asset, Selection};

fn tar_gz_bytes(entry_path: &str, contents: &[u8]) -> Vec<u8> {
    let mut tarbuf: Vec<u8> = Vec::new();
    {
        let mut b = tar::Builder::new(&mut tarbuf);
        let mut h = tar::Header::new_gnu();
        h.set_size(contents.len() as u64);
        h.set_mode(0o755);
        h.set_cksum();
        b.append_data(&mut h, entry_path, contents).unwrap();
        b.finish().unwrap();
    }
    let mut enc = flate2::write::GzEncoder::new(Vec::new(), flate2::Compression::default());
    enc.write_all(&tarbuf).unwrap();
    enc.finish().unwrap()
}

#[test]
fn a_linux_release_resolves_downloads_and_extracts_end_to_end() {
    let release = Release {
        tag_name: "v2.0.0".to_string(),
        assets: vec![
            Asset {
                name: "tool-v2.0.0-x86_64-unknown-linux-gnu.tar.gz".to_string(),
                browser_download_url: "https://example.invalid/gnu".to_string(),
                size: 500,
            },
            Asset {
                name: "tool-v2.0.0-x86_64-pc-windows-msvc.zip".to_string(),
                browser_download_url: "https://example.invalid/msvc".to_string(),
                size: 500,
            },
        ],
    };
    assert_eq!(release.tag_name, "v2.0.0");

    let p = PlatformSpec { os: Os::Linux, arch: Arch::X86_64 };
    let chosen = match select_asset(&release.assets, &p, false, &Vec::new()).unwrap() {
        Selection::Chosen(a) => a,
        Selection::NeedsChoice(_) => panic!("exactly one candidate must decide itself"),
    };
    assert_eq!(chosen.name, "tool-v2.0.0-x86_64-unknown-linux-gnu.tar.gz");

    let mut payload = Payload::for_size(chosen.size, 1000).unwrap();
    assert!(payload.is_memory_backed());

    let exe = b"\x7fELF the tool binary";
    let body = tar_gz_bytes("tool-v2.0.0/tool", exe);
    // stream in fixed-size chunks, as the transfer loop does
    for chunk in body.chunks(8) {
        payload.append(chunk).unwrap();
    }

    let f = extract_executable(payload, &chosen.name, "tool", false, false).unwrap();
    assert_eq!(f.file_name, "tool");
    assert_eq!(f.data, exe.to_vec());
}
