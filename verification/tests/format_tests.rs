use grd::release::{default_bin_name, release_url, releases_list_url};
use grd::text::{format_size, u64_to_dec};

#[test]
fn decimal_rendering_is_exact() {
    assert_eq!(u64_to_dec(0), "0");
    assert_eq!(u64_to_dec(7), "7");
    assert_eq!(u64_to_dec(10), "10");
    assert_eq!(u64_to_dec(12345), "12345");
    assert_eq!(u64_to_dec(u64::MAX), "18446744073709551615");
}

#[test]
fn sizes_below_one_kilobyte_are_plain_bytes() {
    assert_eq!(format_size(0), "0 B");
    assert_eq!(format_size(512), "512 B");
    assert_eq!(format_size(1023), "1023 B");
}

#[test]
fn kilobyte_sizes_carry_one_rounded_decimal_place() {
    assert_eq!(format_size(1024), "1.0 KB");
    assert_eq!(format_size(1536), "1.5 KB");
    assert_eq!(format_size(10240), "10.0 KB");
    assert_eq!(format_size(1126), "1.1 KB");
    assert_eq!(format_size(2038), "2.0 KB");
    assert_eq!(format_size(1048575), "1024.0 KB");
}

#[test]
fn exact_half_tenths_round_to_the_even_digit() {
    // 1.25 KB and 1.75 KB are exact halves between tenths
    assert_eq!(format_size(1280), "1.2 KB");
    assert_eq!(format_size(1792), "1.8 KB");
    // 1.25 MB likewise
    assert_eq!(format_size(1310720), "1.2 MB");
}

#[test]
fn megabyte_sizes_carry_one_rounded_decimal_place() {
    assert_eq!(format_size(1048576), "1.0 MB");
    assert_eq!(format_size(157286400), "150.0 MB");
    assert_eq!(format_size(104857600), "100.0 MB");
    assert_eq!(format_size(1572864), "1.5 MB");
    assert_eq!(format_size(1153433), "1.1 MB");
}

#[test]
fn kilobyte_rendering_agrees_with_the_one_place_float_formatting() {
    for b in 1024u64..8192 {
        let expected = format!("{:.1} KB", b as f64 / 1024.0);
        assert_eq!(format_size(b), expected, "bytes = {}", b);
    }
}

#[test]
fn megabyte_rendering_agrees_with_the_one_place_float_formatting() {
    let samples: Vec<u64> = vec![
        1048576,
        1153433,
        1310720,
        1572864,
        104857600,
        104857600 + 52428,
        157286400,
        200_000_000,
        // the largest byte counts a float can hold exactly; above 2^53 the
        // float path rounds the count itself before dividing
        (1u64 << 53) - 1,
        (1u64 << 53) - 512,
    ];
    for b in samples {
        let expected = format!("{:.1} MB", b as f64 / 1048576.0);
        assert_eq!(format_size(b), expected, "bytes = {}", b);
    }
}

#[test]
fn the_default_binary_name_is_the_repository_tail() {
    assert_eq!(default_bin_name("acme/tool"), "tool");
    assert_eq!(default_bin_name("tool"), "tool");
    assert_eq!(default_bin_name("a/b/tool"), "tool");
    assert_eq!(default_bin_name("acme/"), "");
}

#[test]
fn release_urls_name_the_expected_endpoints() {
    assert_eq!(
        releases_list_url("acme/tool"),
        "https://api.github.com/repos/acme/tool/releases"
    );
    assert_eq!(
        release_url("acme/tool", Some("v2.0.0")),
        "https://api.github.com/repos/acme/tool/releases/tags/v2.0.0"
    );
    assert_eq!(
        release_url("acme/tool", None),
        "https://api.github.com/repos/acme/tool/releases/latest"
    );
}
