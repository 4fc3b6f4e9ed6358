//! Asset selection: filtering a release's assets through the platform
//! predicate and an exclusion list, and resolving ties.

use vstd::prelude::*;
use vstd::string::StrSliceExecFns;

use crate::errors::Error;
use crate::platform::{asset_matches_platform, platform_matches, PlatformSpec};
use crate::release::Asset;
use crate::text::{
    contains_ci, digit_val, digits_val, is_digit, seq_contains, seq_lower, trim_range,
    trim_spec,
};

verus! {

/// The views of a list of owned words.
pub open spec fn word_views(ws: Seq<String>) -> Seq<Seq<char>> {
    ws.map_values(|w: String| w@)
}

/// The lowercased name contains at least one of the lowercased exclusion
/// words.
pub open spec fn excluded_by(name: Seq<char>, words: Seq<Seq<char>>) -> bool {
    exists|k: int|
        0 <= k < words.len() && seq_contains(seq_lower(name), seq_lower(#[trigger] words[k]))
}

/// An asset survives the filters: its name matches the platform and carries
/// none of the exclusion words.
pub open spec fn is_candidate(p: PlatformSpec, words: Seq<Seq<char>>, a: Asset) -> bool {
    platform_matches(p, a.name@) && !excluded_by(a.name@, words)
}

/// The assets that survive the filters, in their original order.
pub open spec fn candidate_seq(assets: Seq<Asset>, p: PlatformSpec, words: Seq<Seq<char>>) -> Seq<
    Asset,
> {
    assets.filter(|a: Asset| is_candidate(p, words, a))
}

/// Every candidate the filter returns matches the platform, and its
/// lowercased name contains none of the lowercased exclusion words —
/// whatever the assets, the platform, and the exclusion list.
pub proof fn lemma_candidates_respect_filters(
    assets: Seq<Asset>,
    p: PlatformSpec,
    words: Seq<Seq<char>>,
)
    ensures
        forall|i: int|
            0 <= i < candidate_seq(assets, p, words).len() ==> platform_matches(
                p,
                (#[trigger] candidate_seq(assets, p, words)[i]).name@,
            ) && !excluded_by(candidate_seq(assets, p, words)[i].name@, words),
{
    let pred = |a: Asset| is_candidate(p, words, a);
    assert forall|i: int| 0 <= i < candidate_seq(assets, p, words).len() implies platform_matches(
        p,
        (#[trigger] candidate_seq(assets, p, words)[i]).name@,
    ) && !excluded_by(candidate_seq(assets, p, words)[i].name@, words) by {
        assets.lemma_filter_pred(pred, i);
        assert(is_candidate(p, words, assets.filter(pred)[i]));
    }
}

/// Decide whether one of the exclusion words occurs in the name.
fn name_excluded(name: &str, words: &Vec<String>) -> (r: bool)
    ensures
        r == excluded_by(name@, word_views(words@)),
{
    let mut k: usize = 0;
    while k < words.len()
        invariant
            k <= words@.len(),
            forall|m: int|
                0 <= m < k ==> !seq_contains(seq_lower(name@), seq_lower(
                    #[trigger] word_views(words@)[m],
                )),
        decreases words@.len() - k,
    {
        if contains_ci(name, words[k].as_str()) {
            assert(seq_contains(seq_lower(name@), seq_lower(word_views(words@)[k as int])));
            return true;
        }
        k = k + 1;
    }
    false
}

/// The assets whose names match the platform and carry none of the exclusion
/// words, kept in release-list order.
pub fn candidates(assets: &Vec<Asset>, p: &PlatformSpec, words: &Vec<String>) -> (r: Vec<Asset>)
    ensures
        r@ == candidate_seq(assets@, *p, word_views(words@)),
{
    let ghost pred = |a: Asset| is_candidate(*p, word_views(words@), a);
    let mut r: Vec<Asset> = Vec::new();
    let mut i: usize = 0;
    proof {
        reveal(Seq::filter);
        assert(assets@.take(0) =~= Seq::<Asset>::empty());
    }
    while i < assets.len()
        invariant
            i <= assets@.len(),
            pred == (|a: Asset| is_candidate(*p, word_views(words@), a)),
            r@ == assets@.take(i as int).filter(pred),
        decreases assets@.len() - i,
    {
        let a = &assets[i];
        let keep = asset_matches_platform(p, a.name.as_str()) && !name_excluded(
            a.name.as_str(),
            words,
        );
        assert(keep == pred(assets@[i as int]));
        if keep {
            r.push(a.duplicate());
        }
        proof {
            reveal(Seq::filter);
            assert(assets@.take(i + 1).drop_last() =~= assets@.take(i as int));
            assert(assets@.take(i + 1).last() == assets@[i as int]);
        }
        i = i + 1;
    }
    proof {
        assert(assets@.take(assets@.len() as int) =~= assets@);
    }
    r
}

/// How a selection round ends when it does not fail: either one asset is
/// decided, or the caller must put the listed candidates to the user.
pub enum Selection {
    Chosen(Asset),
    NeedsChoice(Vec<Asset>),
}

/// Filter the release's assets and resolve the choice.
///
/// With no surviving candidate the selection fails. A single candidate, or
/// several with `auto_first` set, decides the first candidate in the
/// original asset order without any interaction. Otherwise the full
/// candidate list is handed back for an interactive choice.
pub fn select_asset(
    assets: &Vec<Asset>,
    p: &PlatformSpec,
    auto_first: bool,
    exclude_words: &Vec<String>,
) -> (r: Result<Selection, Error>)
    ensures
        ({
            let cands = candidate_seq(assets@, *p, word_views(exclude_words@));
            &&& (cands.len() == 0 <==> r == Err::<Selection, Error>(
                Error::NoMatchingAsset(p.os, p.arch),
            ))
            &&& cands.len() == 1 ==> r == Ok::<Selection, Error>(Selection::Chosen(cands[0]))
            &&& cands.len() > 1 && auto_first ==> r == Ok::<Selection, Error>(
                Selection::Chosen(cands[0]),
            )
            &&& cands.len() > 1 && !auto_first ==> (r matches Ok(Selection::NeedsChoice(v))
                && v@ == cands)
        }),
{
    let cands = candidates(assets, p, exclude_words);
    if cands.len() == 0 {
        Err(Error::NoMatchingAsset(p.os, p.arch))
    } else if cands.len() == 1 || auto_first {
        Ok(Selection::Chosen(cands[0].duplicate()))
    } else {
        Ok(Selection::NeedsChoice(cands))
    }
}

/// Splitting a list on commas, with the segment read so far carried along.
pub open spec fn split_commas(s: Seq<char>, cur: Seq<char>) -> Seq<Seq<char>>
    decreases s.len(),
{
    if s.len() == 0 {
        seq![cur]
    } else if s[0] == ',' {
        seq![cur] + split_commas(s.skip(1), Seq::empty())
    } else {
        split_commas(s.skip(1), cur.push(s[0]))
    }
}

/// The exclusion words of a comma-separated list: each comma-delimited
/// segment, trimmed of surrounding whitespace.
pub open spec fn exclusion_words(s: Seq<char>) -> Seq<Seq<char>> {
    split_commas(s, Seq::empty()).map_values(|w: Seq<char>| trim_spec(w))
}

/// Scanning a comma-free stretch of `k` characters extends the current
/// segment by that stretch and then continues after the comma, or closes the
/// final segment at the end of the list.
proof fn lemma_split_commas_scan(s: Seq<char>, cur: Seq<char>, k: int)
    requires
        0 <= k <= s.len(),
        forall|m: int| 0 <= m < k ==> s[m] != ',',
        k == s.len() || s[k] == ',',
    ensures
        k == s.len() ==> split_commas(s, cur) == seq![cur + s],
        k < s.len() ==> split_commas(s, cur) == seq![cur + s.take(k)] + split_commas(
            s.skip(k + 1),
            Seq::<char>::empty(),
        ),
    decreases k,
{
    if k == 0 {
        if s.len() == 0 {
            assert(cur + s =~= cur);
        } else {
            assert(s[0] == ',');
            assert(cur + s.take(0) =~= cur);
            assert(seq![cur] + split_commas(s.skip(1), Seq::<char>::empty()) == seq![cur
                + s.take(0)] + split_commas(s.skip(1), Seq::<char>::empty()));
        }
    } else {
        assert(s[0] != ',');
        let s1 = s.skip(1);
        let cur1 = cur.push(s[0]);
        assert(forall|m: int| 0 <= m < k - 1 ==> s1[m] != ',');
        lemma_split_commas_scan(s1, cur1, k - 1);
        if k == s.len() {
            assert(cur1 + s1 =~= cur + s);
        } else {
            assert(cur1 + s1.take(k - 1) =~= cur + s.take(k));
            assert(s1.skip(k) =~= s.skip(k + 1));
        }
    }
}

/// Parse the comma-separated exclusion list into its trimmed words; no list
/// at all means no words.
pub fn parse_exclude_words(exclude: Option<&str>) -> (r: Vec<String>)
    ensures
        match exclude {
            Some(s) => word_views(r@) == exclusion_words(s@),
            None => r@.len() == 0,
        },
{
    let s: &str = match exclude {
        Some(s) => s,
        None => {
            let r: Vec<String> = Vec::new();
            assert(word_views(r@) =~= Seq::<Seq<char>>::empty());
            return r;
        },
    };
    let len: usize = s.unicode_len();
    let mut out: Vec<String> = Vec::new();
    let mut seg_start: usize = 0;
    let mut i: usize = 0;
    proof {
        assert(s@.skip(0) =~= s@);
        assert(word_views(out@) + split_commas(s@, Seq::<char>::empty()).map_values(
            |w: Seq<char>| trim_spec(w),
        ) =~= exclusion_words(s@));
    }
    while i < len
        invariant
            seg_start <= i <= len,
            len == s@.len(),
            forall|m: int| seg_start <= m < i ==> s@[m] != ',',
            word_views(out@) + split_commas(s@.skip(seg_start as int), Seq::<char>::empty()).map_values(
                |w: Seq<char>| trim_spec(w),
            ) == exclusion_words(s@),
        decreases len - i,
    {
        let c = s.get_char(i);
        if c == ',' {
            let word = trim_range(s, seg_start, i).to_owned();
            proof {
                let tail = s@.skip(seg_start as int);
                let k: int = i - seg_start;
                assert(forall|m: int| 0 <= m < k ==> tail[m] != ',');
                assert(tail[k] == ',');
                lemma_split_commas_scan(tail, Seq::<char>::empty(), k);
                assert(Seq::<char>::empty() + tail.take(k) =~= s@.subrange(
                    seg_start as int,
                    i as int,
                ));
                assert(tail.skip(k + 1) =~= s@.skip(i + 1));
                assert(word_views(out@.push(word)) =~= word_views(out@) + seq![trim_spec(
                    s@.subrange(seg_start as int, i as int),
                )]);
                assert((seq![s@.subrange(seg_start as int, i as int)] + split_commas(
                    s@.skip(i + 1),
                    Seq::<char>::empty(),
                )).map_values(|w: Seq<char>| trim_spec(w)) =~= seq![trim_spec(
                    s@.subrange(seg_start as int, i as int),
                )] + split_commas(s@.skip(i + 1), Seq::<char>::empty()).map_values(
                    |w: Seq<char>| trim_spec(w),
                ));
            }
            out.push(word);
            seg_start = i + 1;
        }
        i = i + 1;
    }
    // close the final segment, which runs to the end of the list
    let word = trim_range(s, seg_start, len).to_owned();
    proof {
        let tail = s@.skip(seg_start as int);
        let k: int = len - seg_start;
        assert(forall|m: int| 0 <= m < k ==> tail[m] != ',');
        lemma_split_commas_scan(tail, Seq::<char>::empty(), k);
        assert(Seq::<char>::empty() + tail =~= s@.subrange(seg_start as int, len as int));
        assert(word_views(out@.push(word)) =~= word_views(out@) + seq![trim_spec(
            s@.subrange(seg_start as int, len as int),
        )]);
        assert(seq![tail].map_values(|w: Seq<char>| trim_spec(w)) =~= seq![trim_spec(
            s@.subrange(seg_start as int, len as int),
        )]);
    }
    out.push(word);
    out
}

/// A prompt answer is valid when, after trimming, it is all decimal digits
/// and names a 1-based position within the candidate count.
pub open spec fn valid_choice(input: Seq<char>, count: nat) -> bool {
    let t = trim_spec(input);
    &&& t.len() > 0
    &&& forall|i: int| 0 <= i < t.len() ==> is_digit(#[trigger] t[i])
    &&& 1 <= digits_val(t) <= count
}

/// Extending a digit string cannot shrink its value.
proof fn lemma_digits_val_step(t: Seq<char>, j: int)
    requires
        0 <= j < t.len(),
    ensures
        digits_val(t.take(j + 1)) == digits_val(t.take(j)) * 10 + digit_val(t[j]),
    decreases t.len(),
{
    assert(t.take(j + 1).drop_last() =~= t.take(j));
    assert(t.take(j + 1).last() == t[j]);
}

/// Parse an interactive prompt answer against the number of candidates.
/// The result is the zero-based candidate index; every out-of-range or
/// non-numeric answer is rejected, never an error.
pub fn parse_choice(input: &str, count: usize) -> (r: Option<usize>)
    ensures
        r matches Some(k) ==> valid_choice(input@, count as nat) && k < count && k + 1
            == digits_val(trim_spec(input@)),
        r is None ==> !valid_choice(input@, count as nat),
{
    let len: usize = input.unicode_len();
    let t: &str = trim_range(input, 0, len);
    proof {
        assert(input@.subrange(0, len as int) =~= input@);
    }
    let ghost tv = trim_spec(input@);
    let tl: usize = t.unicode_len();
    if tl == 0 {
        return None;
    }
    let mut val: u128 = 0;
    let mut too_big: bool = false;
    let mut j: usize = 0;
    while j < tl
        invariant
            tv == trim_spec(input@),
            tl == tv.len(),
            t@ == tv,
            j <= tl,
            count <= u128::MAX,
            forall|m: int| 0 <= m < j ==> is_digit(#[trigger] tv[m]),
            !too_big ==> val == digits_val(tv.take(j as int)) && val <= count as u128,
            too_big ==> digits_val(tv.take(j as int)) > count as nat,
        decreases tl - j,
    {
        let c = t.get_char(j);
        let u: u32 = c as u32;
        if !(48 <= u && u <= 57) {
            proof {
                assert(!is_digit(trim_spec(input@)[j as int]));
            }
            return None;
        }
        let d: u128 = (u - 48) as u128;
        proof {
            lemma_digits_val_step(tv, j as int);
        }
        if too_big {
            assert(digits_val(tv.take(j + 1)) > count as nat) by {
                assert(digits_val(tv.take(j + 1)) == digits_val(tv.take(j as int)) * 10
                    + digit_val(tv[j as int]));
                assert(digits_val(tv.take(j as int)) * 10 >= digits_val(tv.take(j as int)));
            }
        } else {
            // count < 2^64, so val <= count keeps this multiplication far
            // below the u128 bound
            assert(val <= u64::MAX as u128);
            let next: u128 = val * 10 + d;
            if next > count as u128 {
                too_big = true;
            }
            val = next;
        }
        j = j + 1;
    }
    proof {
        assert(tv.take(tl as int) =~= tv);
    }
    if too_big {
        return None;
    }
    if val == 0 {
        return None;
    }
    let k: usize = (val - 1) as usize;
    Some(k)
}

} // verus!
