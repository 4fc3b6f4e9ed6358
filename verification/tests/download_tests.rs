use grd::download::Payload;

#[test]
fn sizes_within_the_limit_stay_in_memory() {
    let p = Payload::for_size(500, 1000).unwrap();
    assert!(p.is_memory_backed());
    let q = Payload::for_size(1000, 1000).unwrap();
    assert!(q.is_memory_backed());
}

#[test]
fn sizes_over_the_limit_go_to_disk() {
    let p = Payload::for_size(1001, 1000).unwrap();
    assert!(!p.is_memory_backed());
    let big = Payload::for_size(200_000_000, 104_857_600).unwrap();
    assert!(!big.is_memory_backed());
}

#[test]
fn appended_chunks_accumulate_in_order() {
    let mut p = Payload::for_size(10, 100).unwrap();
    p.append(b"abc").unwrap();
    p.append(b"").unwrap();
    p.append(b"defg").unwrap();
    assert_eq!(p.into_bytes().unwrap(), b"abcdefg".to_vec());
}

#[test]
fn memory_and_disk_paths_hold_identical_bytes() {
    let chunks: Vec<Vec<u8>> = vec![vec![1, 2, 3], vec![], vec![4, 5], vec![6; 9000]];
    let mut mem = Payload::for_size(50, 100).unwrap();
    let mut disk = Payload::for_size(150, 100).unwrap();
    assert!(mem.is_memory_backed());
    assert!(!disk.is_memory_backed());
    mem.store_chunks(&chunks).unwrap();
    disk.store_chunks(&chunks).unwrap();
    let a = mem.into_bytes().unwrap();
    let b = disk.into_bytes().unwrap();
    assert_eq!(a, b);
    let mut expected: Vec<u8> = vec![1, 2, 3, 4, 5];
    expected.extend(std::iter::repeat(6).take(9000));
    assert_eq!(a, expected);
}
