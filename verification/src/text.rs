//! Character-level text utilities: ASCII case folding, substring and suffix
//! tests, whitespace trimming, and decimal digits. All matching in this
//! library is defined over these spec functions.
//!
//! Case-insensitivity here means ASCII case folding: only the letters
//! `A`..`Z` fold, never multi-character or locale mappings. For the fixed
//! platform markers and tokens this decides exactly as full Unicode
//! lower-casing would; exclusion words containing non-ASCII letters fold
//! only their ASCII part.

use vstd::prelude::*;
use vstd::string::StrSliceExecFns;

verus! {

/// ASCII lower-casing of one character; everything outside 'A'..='Z' is kept.
pub open spec fn lower_char(c: char) -> char {
    if 65 <= c as u32 && c as u32 <= 90 {
        (((c as u32) + 32) as u8) as char
    } else {
        c
    }
}

/// ASCII upper-casing of one character; everything outside 'a'..='z' is kept.
pub open spec fn upper_char(c: char) -> char {
    if 97 <= c as u32 && c as u32 <= 122 {
        (((c as u32) - 32) as u8) as char
    } else {
        c
    }
}

/// ASCII lower-casing of a character sequence, pointwise.
pub open spec fn seq_lower(s: Seq<char>) -> Seq<char> {
    Seq::new(s.len(), |i: int| lower_char(s[i]))
}

/// ASCII upper-casing of a character sequence, pointwise.
pub open spec fn seq_upper(s: Seq<char>) -> Seq<char> {
    Seq::new(s.len(), |i: int| upper_char(s[i]))
}

/// `needle` occurs in `hay` starting at position `i`.
pub open spec fn occurs_at(hay: Seq<char>, needle: Seq<char>, i: int) -> bool {
    &&& 0 <= i
    &&& i + needle.len() <= hay.len()
    &&& forall|j: int| 0 <= j < needle.len() ==> hay[i + j] == needle[j]
}

/// `needle` occurs somewhere in `hay` as a contiguous run.
pub open spec fn seq_contains(hay: Seq<char>, needle: Seq<char>) -> bool {
    exists|i: int| occurs_at(hay, needle, i)
}

/// `s` ends with `suffix`.
pub open spec fn seq_ends_with(s: Seq<char>, suffix: Seq<char>) -> bool {
    suffix.len() <= s.len() && occurs_at(s, suffix, s.len() - suffix.len())
}

/// Lower-casing is idempotent on characters.
pub proof fn lemma_lower_char_idempotent(c: char)
    ensures
        lower_char(lower_char(c)) == lower_char(c),
{
}

/// Lower-casing erases a prior upper-casing of a character.
pub proof fn lemma_lower_of_upper_char(c: char)
    ensures
        lower_char(upper_char(c)) == lower_char(c),
{
}

/// Lower-casing a sequence is idempotent.
pub proof fn lemma_seq_lower_idempotent(s: Seq<char>)
    ensures
        seq_lower(seq_lower(s)) == seq_lower(s),
{
    assert forall|i: int| 0 <= i < s.len() implies seq_lower(seq_lower(s))[i] == seq_lower(s)[i] by {
        lemma_lower_char_idempotent(s[i]);
    }
    assert(seq_lower(seq_lower(s)) =~= seq_lower(s));
}

/// Lower-casing erases a prior upper-casing of a sequence.
pub proof fn lemma_seq_lower_of_upper(s: Seq<char>)
    ensures
        seq_lower(seq_upper(s)) == seq_lower(s),
{
    assert forall|i: int| 0 <= i < s.len() implies seq_lower(seq_upper(s))[i] == seq_lower(s)[i] by {
        lemma_lower_of_upper_char(s[i]);
    }
    assert(seq_lower(seq_upper(s)) =~= seq_lower(s));
}

/// ASCII lower-casing of one character.
pub fn lower_char_x(c: char) -> (r: char)
    ensures
        r == lower_char(c),
{
    let u: u32 = c as u32;
    if 65 <= u && u <= 90 {
        ((u + 32) as u8) as char
    } else {
        c
    }
}

/// Case-insensitive substring test: does the ASCII-lowered needle occur in
/// the ASCII-lowered hay?
pub fn contains_ci(hay: &str, needle: &str) -> (r: bool)
    ensures
        r == seq_contains(seq_lower(hay@), seq_lower(needle@)),
{
    let hl: usize = hay.unicode_len();
    let nl: usize = needle.unicode_len();
    if nl > hl {
        assert(!seq_contains(seq_lower(hay@), seq_lower(needle@)));
        return false;
    }
    let mut i: usize = 0;
    while i <= hl - nl
        invariant
            nl <= hl,
            hl == hay@.len(),
            nl == needle@.len(),
            i <= hl - nl + 1,
            forall|k: int| 0 <= k < i ==> !occurs_at(seq_lower(hay@), seq_lower(needle@), k),
        decreases hl - nl + 1 - i,
    {
        let mut j: usize = 0;
        let mut all_eq: bool = true;
        while j < nl
            invariant
                nl <= hl,
                hl == hay@.len(),
                nl == needle@.len(),
                i + nl <= hl,
                j <= nl,
                all_eq <==> (forall|m: int| 0 <= m < j ==> seq_lower(hay@)[i + m] == seq_lower(
                    needle@,
                )[m]),
            decreases nl - j,
        {
            if !all_eq {
                // the mismatch already found decides this start position
                j = nl;
            } else {
                let hc = lower_char_x(hay.get_char(i + j));
                let nc = lower_char_x(needle.get_char(j));
                if hc != nc {
                    assert(seq_lower(hay@)[i + j] != seq_lower(needle@)[j as int]);
                    all_eq = false;
                }
                j = j + 1;
            }
        }
        if all_eq {
            assert(occurs_at(seq_lower(hay@), seq_lower(needle@), i as int));
            return true;
        }
        i = i + 1;
    }
    assert forall|k: int| occurs_at(seq_lower(hay@), seq_lower(needle@), k) implies false by {
        assert(0 <= k <= hl - nl);
    }
    false
}

/// Case-insensitive whole-string equality under ASCII lower-casing.
pub fn eq_ci(a: &str, b: &str) -> (r: bool)
    ensures
        r == (seq_lower(a@) == seq_lower(b@)),
{
    let al: usize = a.unicode_len();
    let bl: usize = b.unicode_len();
    if al != bl {
        assert(seq_lower(a@).len() != seq_lower(b@).len());
        return false;
    }
    let mut i: usize = 0;
    while i < al
        invariant
            al == a@.len(),
            al == b@.len(),
            i <= al,
            forall|k: int| 0 <= k < i ==> seq_lower(a@)[k] == seq_lower(b@)[k],
        decreases al - i,
    {
        if lower_char_x(a.get_char(i)) != lower_char_x(b.get_char(i)) {
            assert(seq_lower(a@)[i as int] != seq_lower(b@)[i as int]);
            return false;
        }
        i = i + 1;
    }
    assert(seq_lower(a@) =~= seq_lower(b@));
    true
}

/// Case-sensitive suffix test.
pub fn ends_with_x(s: &str, suffix: &str) -> (r: bool)
    ensures
        r == seq_ends_with(s@, suffix@),
{
    let sl: usize = s.unicode_len();
    let fl: usize = suffix.unicode_len();
    if fl > sl {
        return false;
    }
    let start: usize = sl - fl;
    let mut j: usize = 0;
    while j < fl
        invariant
            fl <= sl,
            sl == s@.len(),
            fl == suffix@.len(),
            start == sl - fl,
            j <= fl,
            forall|m: int| 0 <= m < j ==> s@[start + m] == suffix@[m],
        decreases fl - j,
    {
        if s.get_char(start + j) != suffix.get_char(j) {
            return false;
        }
        j = j + 1;
    }
    assert(occurs_at(s@, suffix@, start as int));
    true
}

/// The whitespace characters that trimming removes.
pub open spec fn is_space(c: char) -> bool {
    c == ' ' || c == '\t' || c == '\r' || c == '\n'
}

/// Drop leading whitespace.
pub open spec fn trim_front(s: Seq<char>) -> Seq<char>
    decreases s.len(),
{
    if s.len() > 0 && is_space(s[0]) {
        trim_front(s.skip(1))
    } else {
        s
    }
}

/// Drop trailing whitespace.
pub open spec fn trim_back(s: Seq<char>) -> Seq<char>
    decreases s.len(),
{
    if s.len() > 0 && is_space(s[s.len() - 1]) {
        trim_back(s.take(s.len() - 1))
    } else {
        s
    }
}

/// Drop leading and trailing whitespace.
pub open spec fn trim_spec(s: Seq<char>) -> Seq<char> {
    trim_back(trim_front(s))
}

proof fn lemma_trim_front_skip(s: Seq<char>, k: int)
    requires
        0 <= k <= s.len(),
        forall|m: int| 0 <= m < k ==> is_space(s[m]),
    ensures
        trim_front(s) == trim_front(s.skip(k)),
    decreases k,
{
    if k > 0 {
        assert(is_space(s[0]));
        assert(s.skip(1).skip(k - 1) =~= s.skip(k));
        assert(forall|m: int| 0 <= m < k - 1 ==> is_space(s.skip(1)[m]));
        lemma_trim_front_skip(s.skip(1), k - 1);
    } else {
        assert(s.skip(0) =~= s);
    }
}

proof fn lemma_trim_back_take(s: Seq<char>, k: int)
    requires
        0 <= k <= s.len(),
        forall|m: int| k <= m < s.len() ==> is_space(s[m]),
    ensures
        trim_back(s) == trim_back(s.take(k)),
    decreases s.len() - k,
{
    if k < s.len() {
        assert(is_space(s[s.len() - 1]));
        assert(s.take(s.len() - 1).take(k) =~= s.take(k));
        lemma_trim_back_take(s.take(s.len() - 1), k);
    } else {
        assert(s.take(s.len() as int) =~= s);
    }
}

/// Trim leading and trailing ASCII whitespace from a substring range of `s`
/// given by character positions, returning the trimmed slice.
pub fn trim_range<'a>(s: &'a str, from: usize, to: usize) -> (r: &'a str)
    requires
        from <= to <= s@.len(),
    ensures
        r@ == trim_spec(s@.subrange(from as int, to as int)),
{
    let ghost seg = s@.subrange(from as int, to as int);
    let mut lo: usize = from;
    while lo < to
        invariant
            from <= lo <= to <= s@.len(),
            forall|m: int| from <= m < lo ==> is_space(s@[m]),
        ensures
            from <= lo <= to,
            forall|m: int| from <= m < lo ==> is_space(s@[m]),
            lo < to ==> !is_space(s@[lo as int]),
        decreases to - lo,
    {
        let c = s.get_char(lo);
        if c == ' ' || c == '\t' || c == '\r' || c == '\n' {
            lo = lo + 1;
        } else {
            break;
        }
    }
    proof {
        assert(forall|m: int| 0 <= m < lo - from ==> is_space(seg[m]));
        lemma_trim_front_skip(seg, lo - from);
        assert(seg.skip(lo - from) =~= s@.subrange(lo as int, to as int));
    }
    // now trim_front(seg) == s@.subrange(lo, to), and its first char (if any)
    // is not a space
    let ghost fronted = s@.subrange(lo as int, to as int);
    proof {
        if lo < to {
            assert(!is_space(fronted[0]));
        }
        assert(trim_front(fronted) == fronted);
    }
    let mut hi: usize = to;
    while hi > lo
        invariant
            from <= lo <= hi <= to <= s@.len(),
            forall|m: int| hi <= m < to ==> is_space(s@[m]),
        ensures
            lo <= hi <= to,
            forall|m: int| hi <= m < to ==> is_space(s@[m]),
            hi > lo ==> !is_space(s@[hi - 1]),
        decreases hi,
    {
        let c = s.get_char(hi - 1);
        if c == ' ' || c == '\t' || c == '\r' || c == '\n' {
            hi = hi - 1;
        } else {
            break;
        }
    }
    proof {
        assert(forall|m: int| hi - lo <= m < fronted.len() ==> is_space(fronted[m]));
        lemma_trim_back_take(fronted, hi - lo);
        assert(fronted.take(hi - lo) =~= s@.subrange(lo as int, hi as int));
    }
    s.substring_char(lo, hi)
}

/// Decimal digit characters.
pub open spec fn is_digit(c: char) -> bool {
    48 <= c as u32 && c as u32 <= 57
}

/// The numeric value of one decimal digit character.
pub open spec fn digit_val(c: char) -> nat {
    (c as u32 - 48) as nat
}

/// The digit character for a value below ten.
pub open spec fn digit_char(d: nat) -> char {
    ((48 + d) as u8) as char
}

/// The numeric value of a digit string, most significant digit first.
pub open spec fn digits_val(s: Seq<char>) -> nat
    decreases s.len(),
{
    if s.len() == 0 {
        0
    } else {
        digits_val(s.drop_last()) * 10 + digit_val(s.last())
    }
}

/// The canonical decimal rendering of a natural number (no leading zeros,
/// a single '0' for zero).
pub open spec fn dec_str(n: nat) -> Seq<char>
    decreases n,
{
    if n < 10 {
        seq![digit_char(n)]
    } else {
        dec_str(n / 10) + seq![digit_char(n % 10)]
    }
}

/// One decimal digit as a string slice.
fn digit_str(d: u64) -> (r: &'static str)
    requires
        d < 10,
    ensures
        r@ =~= seq![digit_char(d as nat)],
{
    proof {
        reveal_strlit("0");
        reveal_strlit("1");
        reveal_strlit("2");
        reveal_strlit("3");
        reveal_strlit("4");
        reveal_strlit("5");
        reveal_strlit("6");
        reveal_strlit("7");
        reveal_strlit("8");
        reveal_strlit("9");
    }
    if d == 0 {
        "0"
    } else if d == 1 {
        "1"
    } else if d == 2 {
        "2"
    } else if d == 3 {
        "3"
    } else if d == 4 {
        "4"
    } else if d == 5 {
        "5"
    } else if d == 6 {
        "6"
    } else if d == 7 {
        "7"
    } else if d == 8 {
        "8"
    } else {
        "9"
    }
}

/// The decimal rendering of an unsigned number.
pub fn u64_to_dec(n: u64) -> (r: String)
    ensures
        r@ == dec_str(n as nat),
    decreases n,
{
    if n < 10 {
        let mut s = String::new();
        s.append(digit_str(n));
        assert(s@ =~= dec_str(n as nat));
        s
    } else {
        let mut s = u64_to_dec(n / 10);
        s.append(digit_str(n % 10));
        assert(s@ =~= dec_str(n as nat));
        s
    }
}

/// A byte count in tenths of a unit, rounded to the nearest tenth with ties
/// going to the even tenth — the rounding the standard float formatter
/// applies at one decimal place, where a byte count over a power-of-two
/// unit is exact.
pub open spec fn rounded_tenths(b: nat, unit: nat) -> nat
    recommends
        unit > 0,
{
    let q = (b * 10) / unit;
    let r = (b * 10) % unit;
    if 2 * r > unit {
        q + 1
    } else if 2 * r == unit && q % 2 == 1 {
        q + 1
    } else {
        q
    }
}

/// The human-readable rendering of a byte count: plain bytes below 1 KiB,
/// otherwise KiB or MiB with one decimal place, rounded half to even.
pub open spec fn size_text(b: nat) -> Seq<char> {
    if b < 1024 {
        dec_str(b) + " B"@
    } else if b < 1048576 {
        let t = rounded_tenths(b, 1024);
        dec_str(t / 10) + "."@ + seq![digit_char(t % 10)] + " KB"@
    } else {
        let t = rounded_tenths(b, 1048576);
        dec_str(t / 10) + "."@ + seq![digit_char(t % 10)] + " MB"@
    }
}

/// The byte count in rounded tenths of the unit.
fn tenths_for(b: u64, unit: u64) -> (r: u64)
    requires
        unit == 1024 || unit == 1048576,
    ensures
        r as nat == rounded_tenths(b as nat, unit as nat),
{
    let q: u64 = b / unit;
    let rem: u64 = b % unit;
    let tq: u64 = (rem * 10) / unit;
    let tr: u64 = (rem * 10) % unit;
    proof {
        vstd::arithmetic::div_mod::lemma_fundamental_div_mod(b as int, unit as int);
        vstd::arithmetic::div_mod::lemma_fundamental_div_mod(rem as int * 10, unit as int);
        assert(b as int * 10 == (q as int * 10 + tq as int) * (unit as int) + tr as int)
            by (nonlinear_arith)
            requires
                b as int == unit as int * (q as int) + rem as int,
                rem as int * 10 == unit as int * (tq as int) + tr as int,
        ;
        vstd::arithmetic::div_mod::lemma_fundamental_div_mod_converse(
            b as int * 10,
            unit as int,
            q as int * 10 + tq as int,
            tr as int,
        );
    }
    let total: u64 = q * 10 + tq;
    if 2 * tr > unit {
        total + 1
    } else if 2 * tr == unit && total % 2 == 1 {
        total + 1
    } else {
        total
    }
}

/// Render a byte count for display, as `size_text` states; the decimal
/// place agrees with the standard one-place float rendering of
/// `bytes / unit`.
pub fn format_size(bytes: u64) -> (r: String)
    ensures
        r@ == size_text(bytes as nat),
{
    proof {
        reveal_strlit(" B");
        reveal_strlit(".");
        reveal_strlit(" KB");
        reveal_strlit(" MB");
    }
    if bytes < 1024 {
        let r = u64_to_dec(bytes).concat(" B");
        assert(r@ =~= size_text(bytes as nat));
        r
    } else if bytes < 1048576 {
        let t: u64 = tenths_for(bytes, 1024);
        let r = u64_to_dec(t / 10).concat(".").concat(digit_str(t % 10)).concat(" KB");
        assert(r@ =~= size_text(bytes as nat));
        r
    } else {
        let t: u64 = tenths_for(bytes, 1048576);
        let r = u64_to_dec(t / 10).concat(".").concat(digit_str(t % 10)).concat(" MB");
        assert(r@ =~= size_text(bytes as nat));
        r
    }
}

} // verus!
