use grd::platform::{Arch, Os, PlatformSpec};
use grd::release::Asset;
use grd::selector::{candidates, parse_choice, parse_exclude_words, select_asset, Selection};
use grd::Error;

fn asset(name: &str, size: u64) -> Asset {
    Asset {
        name: name.to_string(),
        browser_download_url: format!("https://example.invalid/{}", name),
        size,
    }
}

fn linux_x64() -> PlatformSpec {
    PlatformSpec { os: Os::Linux, arch: Arch::X86_64 }
}

#[test]
fn single_candidate_is_chosen_without_any_prompt() {
    let assets = vec![
        asset("tool-v2.0.0-x86_64-unknown-linux-gnu.tar.gz", 500),
        asset("tool-v2.0.0-x86_64-pc-windows-msvc.zip", 500),
    ];
    let r = select_asset(&assets, &linux_x64(), false, &Vec::new()).unwrap();
    match r {
        Selection::Chosen(a) => {
            assert_eq!(a.name, "tool-v2.0.0-x86_64-unknown-linux-gnu.tar.gz");
            assert_eq!(a.size, 500);
        }
        Selection::NeedsChoice(_) => panic!("a single candidate must not prompt"),
    }
}

#[test]
fn auto_first_picks_the_first_candidate_in_release_order() {
    let assets = vec![
        asset("other-windows-x64.zip", 1),
        asset("tool-linux-amd64-gnu.tar.gz", 2),
        asset("tool-linux-amd64-musl.tar.gz", 3),
    ];
    for _ in 0..3 {
        let r = select_asset(&assets, &linux_x64(), true, &Vec::new()).unwrap();
        match r {
            Selection::Chosen(a) => assert_eq!(a.name, "tool-linux-amd64-gnu.tar.gz"),
            Selection::NeedsChoice(_) => panic!("auto-first must not prompt"),
        }
    }
}

#[test]
fn without_auto_first_several_candidates_come_back_in_order() {
    let assets = vec![
        asset("tool-linux-amd64-gnu.tar.gz", 2),
        asset("tool-linux-amd64-musl.tar.gz", 3),
    ];
    let r = select_asset(&assets, &linux_x64(), false, &Vec::new()).unwrap();
    match r {
        Selection::Chosen(_) => panic!("two candidates need a choice"),
        Selection::NeedsChoice(v) => {
            assert_eq!(v.len(), 2);
            assert_eq!(v[0].name, "tool-linux-amd64-gnu.tar.gz");
            assert_eq!(v[1].name, "tool-linux-amd64-musl.tar.gz");
        }
    }
}

#[test]
fn no_candidate_fails_with_no_matching_asset() {
    let assets = vec![asset("tool-windows-arm64.zip", 1)];
    match select_asset(&assets, &linux_x64(), true, &Vec::new()) {
        Err(Error::NoMatchingAsset(Os::Linux, Arch::X86_64)) => {}
        _ => panic!("an empty candidate set must fail, naming the platform"),
    }
}

#[test]
fn musl_exclusion_selects_the_gnu_candidate() {
    let assets = vec![
        asset("tool-linux-amd64-musl.tar.gz", 3),
        asset("tool-linux-amd64-gnu.tar.gz", 2),
    ];
    let words = parse_exclude_words(Some("musl"));
    let r = select_asset(&assets, &linux_x64(), false, &words).unwrap();
    match r {
        Selection::Chosen(a) => assert_eq!(a.name, "tool-linux-amd64-gnu.tar.gz"),
        Selection::NeedsChoice(_) => panic!("exclusion must leave one candidate"),
    }
}

#[test]
fn no_candidate_name_contains_an_excluded_word() {
    let assets = vec![
        asset("tool-linux-amd64-MUSL.tar.gz", 1),
        asset("tool-linux-amd64-gnu.tar.gz", 2),
        asset("tool-linux-amd64.deb", 3),
        asset("tool-linux-amd64.tar.gz", 4),
    ];
    let words = parse_exclude_words(Some(" musl , deb "));
    let cands = candidates(&assets, &linux_x64(), &words);
    assert_eq!(cands.len(), 2);
    for c in &cands {
        let lower = c.name.to_lowercase();
        assert!(!lower.contains("musl"));
        assert!(!lower.contains("deb"));
    }
}

#[test]
fn exclusion_matches_case_insensitively_on_both_sides() {
    let assets = vec![
        asset("tool-linux-amd64-MUSL.tar.gz", 1),
        asset("tool-linux-amd64-gnu.tar.gz", 2),
    ];
    let words = parse_exclude_words(Some("Musl"));
    let cands = candidates(&assets, &linux_x64(), &words);
    assert_eq!(cands.len(), 1);
    assert_eq!(cands[0].name, "tool-linux-amd64-gnu.tar.gz");
}

#[test]
fn exclusion_words_are_split_on_commas_and_trimmed() {
    let words = parse_exclude_words(Some("musl, sha256 ,\tsig"));
    assert_eq!(words, vec!["musl".to_string(), "sha256".to_string(), "sig".to_string()]);
    let none = parse_exclude_words(None);
    assert!(none.is_empty());
}

#[test]
fn prompt_answers_parse_one_based_within_the_count() {
    assert_eq!(parse_choice("1", 3), Some(0));
    assert_eq!(parse_choice(" 2 ", 3), Some(1));
    assert_eq!(parse_choice("3", 3), Some(2));
    assert_eq!(parse_choice("003", 3), Some(2));
}

#[test]
fn out_of_range_or_non_numeric_answers_are_rejected() {
    assert_eq!(parse_choice("0", 3), None);
    assert_eq!(parse_choice("4", 3), None);
    assert_eq!(parse_choice("", 3), None);
    assert_eq!(parse_choice("  ", 3), None);
    assert_eq!(parse_choice("two", 3), None);
    assert_eq!(parse_choice("1a", 3), None);
    assert_eq!(parse_choice("-1", 3), None);
    assert_eq!(parse_choice("99999999999999999999999999999999", 3), None);
}
