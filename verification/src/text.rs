//! Character-level text primitives shared by the rest of the library.
//!
//! Strings are reasoned about through their view, a `Seq<char>`.  The spec
//! functions here define searching, trimming, splitting and number formatting
//! on such sequences; the executable functions compute them and are proved to
//! agree with the specs.
use vstd::prelude::*;

verus! {

// ---------------------------------------------------------------------------
// Specs
// ---------------------------------------------------------------------------

/// `needle` occurs in `hay` starting at position `i`.
pub open spec fn occurs_at(hay: Seq<char>, needle: Seq<char>, i: int) -> bool {
    0 <= i && i + needle.len() <= hay.len() && hay.subrange(i, i + needle.len()) == needle
}

/// `needle` occurs somewhere in `hay` (the empty needle occurs everywhere).
pub open spec fn seq_contains(hay: Seq<char>, needle: Seq<char>) -> bool {
    exists|i: int| occurs_at(hay, needle, i)
}

pub open spec fn seq_starts_with(s: Seq<char>, p: Seq<char>) -> bool {
    p.len() <= s.len() && s.subrange(0, p.len() as int) == p
}

pub open spec fn seq_ends_with(s: Seq<char>, p: Seq<char>) -> bool {
    p.len() <= s.len() && s.subrange(s.len() - p.len(), s.len() as int) == p
}

/// The Unicode `White_Space` characters, as listed in the documentation of
/// `char::is_whitespace`.
pub open spec fn is_ws(c: char) -> bool {
    let u = c as u32;
    (0x09 <= u && u <= 0x0d) || u == 0x20 || u == 0x85 || u == 0xa0 || u == 0x1680 || (0x2000
        <= u && u <= 0x200a) || u == 0x2028 || u == 0x2029 || u == 0x202f || u == 0x205f || u
        == 0x3000
}

/// ASCII lowercase of one character; every other character is unchanged.
pub open spec fn lower_char(c: char) -> char {
    if 'A' <= c && c <= 'Z' {
        ((c as u32) + 32) as char
    } else {
        c
    }
}

/// Lowercase of an ASCII text.
pub open spec fn ascii_lower(s: Seq<char>) -> Seq<char> {
    s.map_values(|c: char| lower_char(c))
}

/// What `str::to_lowercase` returns for a text (Unicode case mapping).
pub uninterp spec fn unicode_lower(s: Seq<char>) -> Seq<char>;

/// Every character is ASCII.
pub open spec fn all_ascii(s: Seq<char>) -> bool {
    forall|i: int| 0 <= i < s.len() ==> (#[trigger] s[i] as u32) < 128
}

/// Number of leading whitespace characters.
pub open spec fn lead_ws(s: Seq<char>) -> nat
    decreases s.len(),
{
    if s.len() == 0 || !is_ws(s[0]) {
        0
    } else {
        1 + lead_ws(s.drop_first())
    }
}

/// Number of trailing whitespace characters.
pub open spec fn trail_ws(s: Seq<char>) -> nat
    decreases s.len(),
{
    if s.len() == 0 || !is_ws(s.last()) {
        0
    } else {
        1 + trail_ws(s.drop_last())
    }
}

pub open spec fn trim_start(s: Seq<char>) -> Seq<char> {
    s.skip(lead_ws(s) as int)
}

pub open spec fn trim_end(s: Seq<char>) -> Seq<char> {
    s.take(s.len() - trail_ws(s))
}

/// `str::trim`: whitespace removed at both ends.
pub open spec fn trim(s: Seq<char>) -> Seq<char> {
    trim_end(trim_start(s))
}

/// Length of the leading run of non-whitespace characters.
pub open spec fn word_len(s: Seq<char>) -> nat
    decreases s.len(),
{
    if s.len() == 0 || is_ws(s[0]) {
        0
    } else {
        1 + word_len(s.drop_first())
    }
}

/// `str::split_whitespace`: the maximal runs of non-whitespace characters.
pub open spec fn words(s: Seq<char>) -> Seq<Seq<char>>
    decreases s.len(),
{
    if s.len() == 0 {
        seq![]
    } else if is_ws(s[0]) {
        words(s.drop_first())
    } else {
        let n = word_len(s);
        proof {
            lemma_word_len_bound(s);
        }
        seq![s.take(n as int)].add(words(s.skip(n as int)))
    }
}

/// Decimal digit character of a value below ten.
pub open spec fn digit_char(d: nat) -> char {
    ((d + 48) as u32) as char
}

/// Decimal rendering of a natural number, without leading zeros.
pub open spec fn decimal(n: nat) -> Seq<char>
    decreases n,
{
    if n < 10 {
        seq![digit_char(n)]
    } else {
        decimal(n / 10).push(digit_char(n % 10))
    }
}

/// `n` rendered in decimal and padded on the left with zeros to `width`.
pub open spec fn zero_pad(n: nat, width: nat) -> Seq<char> {
    let d = decimal(n);
    if d.len() >= width {
        d
    } else {
        Seq::new((width - d.len()) as nat, |_i: int| '0') + d
    }
}

/// The value of a run of decimal digits.
pub open spec fn digits_value(s: Seq<char>) -> nat
    decreases s.len(),
{
    if s.len() == 0 {
        0
    } else {
        digits_value(s.drop_last()) * 10 + ((s.last() as u32) - 48) as nat
    }
}

pub open spec fn is_digit(c: char) -> bool {
    '0' <= c && c <= '9'
}

pub open spec fn all_digits(s: Seq<char>) -> bool {
    forall|i: int| 0 <= i < s.len() ==> is_digit(#[trigger] s[i])
}

/// `s.parse::<u64>()` succeeds: an optional `+` and a non-empty run of digits
/// whose value fits in 64 bits.
pub open spec fn parses_u64(s: Seq<char>) -> bool {
    let body = if s.len() > 0 && s[0] == '+' {
        s.drop_first()
    } else {
        s
    };
    body.len() > 0 && all_digits(body) && digits_value(body) <= u64::MAX
}

/// The value that `s.parse::<u64>()` gives when it succeeds.
pub open spec fn u64_value(s: Seq<char>) -> nat {
    let body = if s.len() > 0 && s[0] == '+' {
        s.drop_first()
    } else {
        s
    };
    digits_value(body)
}

// ---------------------------------------------------------------------------
// Lemmas
// ---------------------------------------------------------------------------

pub proof fn lemma_word_len_bound(s: Seq<char>)
    ensures
        word_len(s) <= s.len(),
        forall|i: int| 0 <= i < word_len(s) ==> !is_ws(#[trigger] s[i]),
        word_len(s) < s.len() ==> is_ws(s[word_len(s) as int]),
    decreases s.len(),
{
    if s.len() > 0 && !is_ws(s[0]) {
        lemma_word_len_bound(s.drop_first());
        assert forall|i: int| 0 <= i < word_len(s) implies !is_ws(#[trigger] s[i]) by {
            if i > 0 {
                assert(s[i] == s.drop_first()[i - 1]);
            }
        }
    }
}

pub proof fn lemma_lead_ws_bound(s: Seq<char>)
    ensures
        lead_ws(s) <= s.len(),
        forall|i: int| 0 <= i < lead_ws(s) ==> is_ws(#[trigger] s[i]),
        lead_ws(s) < s.len() ==> !is_ws(s[lead_ws(s) as int]),
    decreases s.len(),
{
    if s.len() > 0 && is_ws(s[0]) {
        lemma_lead_ws_bound(s.drop_first());
        assert forall|i: int| 0 <= i < lead_ws(s) implies is_ws(#[trigger] s[i]) by {
            if i > 0 {
                assert(s[i] == s.drop_first()[i - 1]);
            }
        }
    }
}

pub proof fn lemma_trail_ws_bound(s: Seq<char>)
    ensures
        trail_ws(s) <= s.len(),
        forall|i: int| s.len() - trail_ws(s) <= i < s.len() ==> is_ws(#[trigger] s[i]),
        trail_ws(s) < s.len() ==> !is_ws(s[s.len() - trail_ws(s) - 1]),
    decreases s.len(),
{
    if s.len() > 0 && is_ws(s.last()) {
        lemma_trail_ws_bound(s.drop_last());
        assert forall|i: int| s.len() - trail_ws(s) <= i < s.len() implies is_ws(
            #[trigger] s[i],
        ) by {
            if i < s.len() - 1 {
                assert(s[i] == s.drop_last()[i]);
            }
        }
    }
}

/// `lead_ws` of a sequence whose first `k` characters are whitespace.
pub proof fn lemma_lead_ws_skip(s: Seq<char>, k: int)
    requires
        0 <= k <= s.len(),
        forall|i: int| 0 <= i < k ==> is_ws(#[trigger] s[i]),
    ensures
        lead_ws(s) == k + lead_ws(s.skip(k)),
    decreases k,
{
    if k > 0 {
        assert(is_ws(s[0]));
        let t = s.drop_first();
        assert forall|i: int| 0 <= i < k - 1 implies is_ws(#[trigger] t[i]) by {
            assert(t[i] == s[i + 1]);
        }
        lemma_lead_ws_skip(t, k - 1);
        assert(t.skip(k - 1) =~= s.skip(k));
    } else {
        assert(s.skip(0) =~= s);
    }
}

/// `trail_ws` of a sequence whose last `k` characters are whitespace.
pub proof fn lemma_trail_ws_take(s: Seq<char>, k: int)
    requires
        0 <= k <= s.len(),
        forall|i: int| s.len() - k <= i < s.len() ==> is_ws(#[trigger] s[i]),
    ensures
        trail_ws(s) == k + trail_ws(s.take(s.len() - k)),
    decreases k,
{
    if k > 0 {
        assert(is_ws(s.last()));
        let t = s.drop_last();
        assert forall|i: int| t.len() - (k - 1) <= i < t.len() implies is_ws(#[trigger] t[i]) by {
            assert(t[i] == s[i]);
        }
        lemma_trail_ws_take(t, k - 1);
        assert(t.take(t.len() - (k - 1)) =~= s.take(s.len() - k));
    } else {
        assert(s.take(s.len() as int) =~= s);
    }
}

proof fn lemma_decimal_len(n: nat)
    ensures
        decimal(n).len() >= 1,
        n < 10 ==> decimal(n).len() == 1,
        n >= 10 ==> decimal(n).len() == decimal(n / 10).len() + 1,
    decreases n,
{
    if n >= 10 {
        lemma_decimal_len(n / 10);
    }
}

// ---------------------------------------------------------------------------
// Wrappers over std
// ---------------------------------------------------------------------------

/// `String::push`: appends one character.
#[verifier::external_body]
pub(crate) fn push_char(s: &mut String, c: char)
    ensures
        final(s)@ == old(s)@.push(c),
{
    s.push(c);
}

/// `String::push_str`: appends a text.
#[verifier::external_body]
pub(crate) fn push_str(s: &mut String, t: &str)
    ensures
        final(s)@ == old(s)@ + t@,
{
    s.push_str(t);
}

/// `str::to_lowercase`.  Its result is named by `unicode_lower`; on ASCII
/// text it maps `A`..=`Z` to `a`..=`z` and leaves every other character as
/// it is.  What it does to other characters (Unicode case mapping) is left
/// unstated.
#[verifier::external_body]
pub(crate) fn to_lower(s: &str) -> (r: String)
    ensures
        r@ == unicode_lower(s@),
        all_ascii(s@) ==> r@ == ascii_lower(s@),
{
    s.to_lowercase()
}

// ---------------------------------------------------------------------------
// Executable helpers
// ---------------------------------------------------------------------------

/// The characters of a text.
pub fn chars_of(s: &str) -> (r: Vec<char>)
    ensures
        r@ == s@,
{
    let mut out: Vec<char> = Vec::new();
    for c in it: s.chars()
        invariant
            out@ == it.seq().take(it.index() as int),
    {
        out.push(c);
    }
    out
}

/// A `String` holding the given characters.
pub fn string_of(v: &[char]) -> (r: String)
    ensures
        r@ == v@,
{
    let mut s = String::new();
    let mut i: usize = 0;
    while i < v.len()
        invariant
            i <= v.len(),
            s@ == v@.take(i as int),
        decreases v.len() - i,
    {
        push_char(&mut s, v[i]);
        i = i + 1;
        assert(s@ =~= v@.take(i as int));
    }
    assert(v@.take(v.len() as int) =~= v@);
    s
}

/// Copy of a text as an owned `String`.
pub fn owned(s: &str) -> (r: String)
    ensures
        r@ == s@,
{
    s.to_owned()
}

/// Concatenation of two texts.
pub fn concat2(a: &str, b: &str) -> (r: String)
    ensures
        r@ == a@ + b@,
{
    let mut s = owned(a);
    push_str(&mut s, b);
    s
}

/// Concatenation of three texts.
pub fn concat3(a: &str, b: &str, c: &str) -> (r: String)
    ensures
        r@ == a@ + b@ + c@,
{
    let mut s = owned(a);
    push_str(&mut s, b);
    push_str(&mut s, c);
    s
}

/// Whether `needle` occurs in `hay` at position `i`.
pub fn occurs_at_exec(hay: &[char], needle: &[char], i: usize) -> (r: bool)
    requires
        i <= hay.len(),
    ensures
        r == occurs_at(hay@, needle@, i as int),
{
    if needle.len() > hay.len() - i {
        return false;
    }
    let mut j: usize = 0;
    while j < needle.len()
        invariant
            j <= needle.len(),
            i + needle.len() <= hay.len(),
            forall|k: int| 0 <= k < j ==> hay@[i + k] == needle@[k],
        decreases needle.len() - j,
    {
        if hay[i + j] != needle[j] {
            assert(hay@.subrange(i as int, i + needle.len())[j as int] != needle@[j as int]);
            return false;
        }
        j = j + 1;
    }
    assert(hay@.subrange(i as int, i + needle.len()) =~= needle@);
    true
}

/// Position of the first occurrence of `needle` in `hay`, if any.
pub fn find_seq(hay: &[char], needle: &[char]) -> (r: Option<usize>)
    ensures
        match r {
            Some(i) => occurs_at(hay@, needle@, i as int) && forall|k: int|
                0 <= k < i ==> !occurs_at(hay@, needle@, k),
            None => !seq_contains(hay@, needle@),
        },
{
    let mut i: usize = 0;
    loop
        invariant
            i <= hay.len(),
            forall|k: int| 0 <= k < i ==> !occurs_at(hay@, needle@, k),
        ensures
            i == hay.len(),
            forall|k: int| 0 <= k <= i ==> !occurs_at(hay@, needle@, k),
        decreases hay.len() - i,
    {
        if occurs_at_exec(hay, needle, i) {
            return Some(i);
        }
        if i == hay.len() {
            break;
        }
        i = i + 1;
    }
    assert forall|k: int| !occurs_at(hay@, needle@, k) by {
        if 0 <= k && k <= i {
        } else if k > i {
            assert(k + needle@.len() > hay@.len());
        }
    }
    None
}

/// Whether `needle` occurs in `hay`.
pub fn contains_seq(hay: &[char], needle: &[char]) -> (r: bool)
    ensures
        r == seq_contains(hay@, needle@),
{
    match find_seq(hay, needle) {
        Some(_) => true,
        None => false,
    }
}

/// `str::contains` on texts.
pub fn str_contains(hay: &str, needle: &str) -> (r: bool)
    ensures
        r == seq_contains(hay@, needle@),
{
    let h = chars_of(hay);
    let n = chars_of(needle);
    contains_seq(h.as_slice(), n.as_slice())
}

/// `str::starts_with` on character slices.
pub fn starts_with_seq(s: &[char], p: &[char]) -> (r: bool)
    ensures
        r == seq_starts_with(s@, p@),
{
    if p.len() > s.len() {
        return false;
    }
    let r = occurs_at_exec(s, p, 0);
    proof {
        assert(occurs_at(s@, p@, 0) == seq_starts_with(s@, p@));
    }
    r
}

/// `str::starts_with` on texts.
pub fn str_starts_with(s: &str, p: &str) -> (r: bool)
    ensures
        r == seq_starts_with(s@, p@),
{
    let a = chars_of(s);
    let b = chars_of(p);
    starts_with_seq(a.as_slice(), b.as_slice())
}

/// `str::ends_with` on character slices.
pub fn ends_with_seq(s: &[char], p: &[char]) -> (r: bool)
    ensures
        r == seq_ends_with(s@, p@),
{
    if p.len() > s.len() {
        return false;
    }
    let r = occurs_at_exec(s, p, s.len() - p.len());
    r
}

/// Whether a character is whitespace (`char::is_whitespace`).
pub fn is_ws_exec(c: char) -> (r: bool)
    ensures
        r == is_ws(c),
{
    let u = c as u32;
    (0x09 <= u && u <= 0x0d) || u == 0x20 || u == 0x85 || u == 0xa0 || u == 0x1680 || (0x2000
        <= u && u <= 0x200a) || u == 0x2028 || u == 0x2029 || u == 0x202f || u == 0x205f || u
        == 0x3000
}

/// Index of the first non-whitespace character (or the length).
pub fn lead_ws_exec(s: &[char]) -> (r: usize)
    ensures
        r == lead_ws(s@),
{
    let mut i: usize = 0;
    while i < s.len() && is_ws_exec(s[i])
        invariant
            i <= s.len(),
            forall|k: int| 0 <= k < i ==> is_ws(#[trigger] s@[k]),
        decreases s.len() - i,
    {
        i = i + 1;
    }
    proof {
        lemma_lead_ws_skip(s@, i as int);
        if i < s.len() {
            assert(s@.skip(i as int)[0] == s@[i as int]);
        }
    }
    i
}

/// Number of trailing whitespace characters.
pub fn trail_ws_exec(s: &[char]) -> (r: usize)
    ensures
        r == trail_ws(s@),
{
    let mut k: usize = 0;
    while k < s.len() && is_ws_exec(s[s.len() - 1 - k])
        invariant
            k <= s.len(),
            forall|i: int| s.len() - k <= i < s.len() ==> is_ws(#[trigger] s@[i]),
        decreases s.len() - k,
    {
        k = k + 1;
    }
    proof {
        lemma_trail_ws_take(s@, k as int);
        let t = s@.take(s.len() - k);
        if k < s.len() {
            assert(t.last() == s@[s.len() - 1 - k]);
        }
    }
    k
}

/// `str::trim` on a character slice.
pub fn trim_seq(s: &[char]) -> (r: Vec<char>)
    ensures
        r@ == trim(s@),
{
    let a = lead_ws_exec(s);
    proof {
        lemma_lead_ws_bound(s@);
    }
    let mut mid: Vec<char> = Vec::new();
    let mut i = a;
    while i < s.len()
        invariant
            a <= i <= s.len(),
            mid@ == s@.subrange(a as int, i as int),
        decreases s.len() - i,
    {
        mid.push(s[i]);
        i = i + 1;
        assert(mid@ =~= s@.subrange(a as int, i as int));
    }
    assert(mid@ =~= trim_start(s@));
    let b = trail_ws_exec(mid.as_slice());
    proof {
        lemma_trail_ws_bound(mid@);
    }
    let mut out: Vec<char> = Vec::new();
    let mut j: usize = 0;
    let end = mid.len() - b;
    while j < end
        invariant
            j <= end,
            end == mid.len() - b,
            out@ == mid@.take(j as int),
        decreases end - j,
    {
        out.push(mid[j]);
        j = j + 1;
        assert(out@ =~= mid@.take(j as int));
    }
    out
}

/// `str::trim` on texts.
pub fn str_trim(s: &str) -> (r: String)
    ensures
        r@ == trim(s@),
{
    let c = chars_of(s);
    let t = trim_seq(c.as_slice());
    string_of(t.as_slice())
}


/// Views of a list of character vectors.
pub open spec fn views_of(v: Seq<Vec<char>>) -> Seq<Seq<char>> {
    v.map_values(|x: Vec<char>| x@)
}

proof fn lemma_words_skip_ws(s: Seq<char>, k: int)
    requires
        0 <= k <= s.len(),
        forall|i: int| 0 <= i < k ==> is_ws(#[trigger] s[i]),
    ensures
        words(s) == words(s.skip(k)),
    decreases k,
{
    if k > 0 {
        let t = s.drop_first();
        assert forall|i: int| 0 <= i < k - 1 implies is_ws(#[trigger] t[i]) by {
            assert(t[i] == s[i + 1]);
        }
        lemma_words_skip_ws(t, k - 1);
        assert(t.skip(k - 1) =~= s.skip(k));
    } else {
        assert(s.skip(0) =~= s);
    }
}

proof fn lemma_word_len_exact(s: Seq<char>, k: int)
    requires
        0 <= k <= s.len(),
        forall|i: int| 0 <= i < k ==> !is_ws(#[trigger] s[i]),
        k == s.len() || is_ws(s[k]),
    ensures
        word_len(s) == k,
    decreases k,
{
    if k > 0 {
        let t = s.drop_first();
        assert forall|i: int| 0 <= i < k - 1 implies !is_ws(#[trigger] t[i]) by {
            assert(t[i] == s[i + 1]);
        }
        if k < s.len() {
            assert(t[k - 1] == s[k]);
        }
        lemma_word_len_exact(t, k - 1);
    }
}

/// `str::split_whitespace` on a character slice.
pub fn split_words(s: &[char]) -> (r: Vec<Vec<char>>)
    ensures
        views_of(r@) == words(s@),
{
    let mut out: Vec<Vec<char>> = Vec::new();
    let mut i: usize = 0;
    assert(s@.skip(0) =~= s@);
    while i < s.len()
        invariant
            i <= s.len(),
            views_of(out@) + words(s@.skip(i as int)) == words(s@),
        decreases s.len() - i,
    {
        if is_ws_exec(s[i]) {
            proof {
                let t = s@.skip(i as int);
                assert(t[0] == s@[i as int]);
                assert(t.drop_first() =~= s@.skip(i + 1));
            }
            i = i + 1;
        } else {
            let start = i;
            let mut w: Vec<char> = Vec::new();
            while i < s.len() && !is_ws_exec(s[i])
                invariant
                    start <= i <= s.len(),
                    w@ == s@.subrange(start as int, i as int),
                    forall|k: int| start <= k < i ==> !is_ws(#[trigger] s@[k]),
                decreases s.len() - i,
            {
                w.push(s[i]);
                i = i + 1;
                assert(w@ =~= s@.subrange(start as int, i as int));
            }
            proof {
                let t = s@.skip(start as int);
                let n = (i - start) as int;
                assert forall|k: int| 0 <= k < n implies !is_ws(#[trigger] t[k]) by {
                    assert(t[k] == s@[start + k]);
                }
                if n < t.len() {
                    assert(t[n] == s@[i as int]);
                }
                lemma_word_len_exact(t, n);
                assert(t[0] == s@[start as int]);
                assert(t.take(n) =~= w@);
                assert(t.skip(n) =~= s@.skip(i as int));
                assert(words(t) == seq![w@] + words(s@.skip(i as int)));
                assert(views_of(out@.push(w)) =~= views_of(out@).push(w@));
                assert(views_of(out@).push(w@) + words(s@.skip(i as int)) =~= views_of(out@) + (
                seq![w@] + words(s@.skip(i as int))));
            }
            out.push(w);
        }
    }
    proof {
        assert(s@.skip(i as int).len() == 0);
        assert(views_of(out@) + words(s@.skip(i as int)) =~= views_of(out@));
    }
    out
}

/// Decimal rendering of an integer.
pub fn u64_to_string(n: u64) -> (r: String)
    ensures
        r@ == decimal(n as nat),
{
    // digits are collected least significant first
    let mut digits: Vec<char> = Vec::new();
    let mut m = n;
    loop
        invariant_except_break
            decimal(n as nat) == decimal(m as nat) + digits@.reverse(),
        ensures
            decimal(n as nat) == digits@.reverse(),
        decreases m,
    {
        if m < 10 {
            let c = char_of_digit(m);
            proof {
                assert(digits@.push(c).reverse() =~= seq![c] + digits@.reverse());
            }
            digits.push(c);
            break;
        }
        let c = char_of_digit(m % 10);
        proof {
            assert(decimal(m as nat) == decimal((m / 10) as nat).push(c));
            assert(digits@.push(c).reverse() =~= seq![c] + digits@.reverse());
            assert(decimal((m / 10) as nat).push(c) + digits@.reverse() =~= decimal(
                (m / 10) as nat,
            ) + (seq![c] + digits@.reverse()));
        }
        digits.push(c);
        m = m / 10;
    }
    let mut out = String::new();
    let mut k: usize = digits.len();
    while k > 0
        invariant
            k <= digits.len(),
            out@ == digits@.reverse().take(digits.len() - k),
        decreases k,
    {
        k = k - 1;
        push_char(&mut out, digits[k]);
        assert(out@ =~= digits@.reverse().take(digits.len() - k));
    }
    assert(digits@.reverse().take(digits.len() as int) =~= digits@.reverse());
    out
}

/// The digit character of a value below ten.
pub fn char_of_digit(d: u64) -> (c: char)
    requires
        d < 10,
    ensures
        c == digit_char(d as nat),
{
    if d == 0 {
        '0'
    } else if d == 1 {
        '1'
    } else if d == 2 {
        '2'
    } else if d == 3 {
        '3'
    } else if d == 4 {
        '4'
    } else if d == 5 {
        '5'
    } else if d == 6 {
        '6'
    } else if d == 7 {
        '7'
    } else if d == 8 {
        '8'
    } else {
        '9'
    }
}


/// The texts of a list of strings.
pub open spec fn string_views(v: Seq<String>) -> Seq<Seq<char>> {
    v.map_values(|s: String| s@)
}

/// A copy of a list of strings.
pub fn clone_strings(v: &Vec<String>) -> (r: Vec<String>)
    ensures
        string_views(r@) == string_views(v@),
{
    let mut out: Vec<String> = Vec::new();
    let mut i: usize = 0;
    while i < v.len()
        invariant
            i <= v.len(),
            string_views(out@) == string_views(v@).take(i as int),
        decreases v.len() - i,
    {
        let ghost prev = out@;
        out.push(v[i].clone());
        proof {
            assert(string_views(out@) =~= string_views(prev).push(v@[i as int]@));
            assert(string_views(v@).take(i + 1) =~= string_views(v@).take(i as int).push(
                v@[i as int]@,
            ));
        }
        i = i + 1;
    }
    assert(string_views(v@).take(v.len() as int) =~= string_views(v@));
    out
}

/// A copy of an optional string.
pub fn clone_opt_string(o: &Option<String>) -> (r: Option<String>)
    ensures
        match (r, *o) {
            (Some(a), Some(b)) => a@ == b@,
            (None, None) => true,
            _ => false,
        },
{
    match o {
        Some(s) => Some(s.clone()),
        None => None,
    }
}


/// Bytes a character takes in UTF-8.
pub open spec fn char_width(c: char) -> nat {
    if (c as u32) < 0x80 {
        1
    } else if (c as u32) < 0x800 {
        2
    } else if (c as u32) < 0x10000 {
        3
    } else {
        4
    }
}

/// Bytes a text takes in UTF-8.
pub open spec fn utf8_width(s: Seq<char>) -> nat
    decreases s.len(),
{
    if s.len() == 0 {
        0
    } else {
        utf8_width(s.drop_last()) + char_width(s.last())
    }
}

/// Whether the first `k` characters of `s` are exactly its first `n` bytes,
/// or all of `s` when it has `n` bytes or fewer.
pub open spec fn byte_cut(s: Seq<char>, n: nat, k: int) -> bool {
    &&& 0 <= k <= s.len()
    &&& (utf8_width(s.take(k)) == n || (k == s.len() && utf8_width(s) <= n))
}

/// The characters that make up the first `n` bytes of `s` (all of `s` when
/// it is shorter), or `None` when byte `n` falls inside a character.
pub fn byte_prefix(s: &str, n: usize) -> (r: Option<String>)
    ensures
        match r {
            Some(t) => exists|k: int| byte_cut(s@, n as nat, k) && t@ == s@.take(k),
            None => forall|k: int| !byte_cut(s@, n as nat, k),
        },
{
    let cs = chars_of(s);
    let mut w: usize = 0;
    let mut k: usize = 0;
    while k < cs.len() && w < n
        invariant
            k <= cs.len(),
            cs@ == s@,
            w == utf8_width(s@.take(k as int)),
            w <= n,
            forall|j: int| 0 <= j < k ==> utf8_width(#[trigger] s@.take(j)) < n,
        decreases cs.len() - k,
    {
        let v: u32 = cs[k] as u32;
        let cw: usize = if v < 0x80 {
            1
        } else if v < 0x800 {
            2
        } else if v < 0x10000 {
            3
        } else {
            4
        };
        proof {
            assert(s@.take(k + 1).drop_last() =~= s@.take(k as int));
            assert(s@.take(k + 1).last() == s@[k as int]);
        }
        if cw > n - w {
            // The character starting at byte `w` runs past byte `n`.
            proof {
                lemma_width_grows(s@, k as int);
                assert(s@.take(s@.len() as int) =~= s@);
                assert forall|j: int| !byte_cut(s@, n as nat, j) by {
                    if 0 <= j <= s@.len() {
                        if j <= k {
                        } else {
                            lemma_width_monotone(s@, k + 1, j);
                        }
                    }
                }
            }
            return None;
        }
        w = w + cw;
        k = k + 1;
    }
    proof {
        if k == cs.len() {
            assert(s@.take(k as int) =~= s@);
        }
    }
    let t = string_of(&cs.as_slice()[0..k]);
    assert(byte_cut(s@, n as nat, k as int));
    Some(t)
}

proof fn lemma_width_grows(s: Seq<char>, k: int)
    requires
        0 <= k < s.len(),
    ensures
        utf8_width(s.take(k + 1)) == utf8_width(s.take(k)) + char_width(s[k]),
{
    assert(s.take(k + 1).drop_last() =~= s.take(k));
}

proof fn lemma_width_monotone(s: Seq<char>, a: int, b: int)
    requires
        0 <= a <= b <= s.len(),
    ensures
        utf8_width(s.take(a)) <= utf8_width(s.take(b)),
    decreases b - a,
{
    if a < b {
        lemma_width_monotone(s, a, b - 1);
        lemma_width_grows(s, b - 1);
    }
}


/// Prefixes of a run of digits never exceed the value of the whole run.
proof fn lemma_digits_value_monotone(s: Seq<char>, j: int)
    requires
        0 <= j <= s.len(),
        all_digits(s),
    ensures
        digits_value(s.take(j)) <= digits_value(s),
    decreases s.len() - j,
{
    if j < s.len() {
        lemma_digits_value_monotone(s, j + 1);
        assert(s.take(j + 1).drop_last() =~= s.take(j));
        assert(s.take(j + 1).last() == s[j]);
        assert(is_digit(s[j]));
    } else {
        assert(s.take(j) =~= s);
    }
}

/// `s.parse::<u64>()`: an optional `+` and a run of digits that fits.
pub fn parse_u64(s: &str) -> (r: Option<u64>)
    ensures
        r is Some <==> parses_u64(s@),
        r matches Some(v) ==> v as nat == u64_value(s@),
{
    let cs = chars_of(s);
    let start: usize = if cs.len() > 0 && cs[0] == '+' {
        1
    } else {
        0
    };
    let ghost body = if s@.len() > 0 && s@[0] == '+' {
        s@.drop_first()
    } else {
        s@
    };
    assert(body =~= s@.skip(start as int));
    if start >= cs.len() {
        return None;
    }
    let mut v: u64 = 0;
    let mut i: usize = start;
    while i < cs.len()
        invariant
            start <= i <= cs.len(),
            cs@ == s@,
            body == s@.skip(start as int),
            body == (if s@.len() > 0 && s@[0] == '+' {
                s@.drop_first()
            } else {
                s@
            }),
            forall|j: int| 0 <= j < i - start ==> is_digit(#[trigger] body[j]),
            v as nat == digits_value(body.take(i - start)),
        decreases cs.len() - i,
    {
        let c = cs[i];
        proof {
            assert(body[i - start] == c);
            assert(body.take(i - start + 1).drop_last() =~= body.take(i - start));
            assert(body.take(i - start + 1).last() == c);
        }
        if !('0' <= c && c <= '9') {
            assert(!is_digit(body[i - start]));
            assert(!all_digits(body));
            return None;
        }
        let d: u64 = (c as u32 - 48) as u64;
        if v > (u64::MAX - d) / 10 {
            proof {
                assert(v * 10 + d > u64::MAX) by (nonlinear_arith)
                    requires
                        v > (u64::MAX - d) / 10,
                        d <= 9,
                ;
            }
            proof {
                assert(digits_value(body.take(i - start + 1)) == v * 10 + d);
                if all_digits(body) {
                    lemma_digits_value_monotone(body, i - start + 1);
                }
            }
            return None;
        }
        v = v * 10 + d;
        i = i + 1;
    }
    assert(body.take(body.len() as int) =~= body);
    Some(v)
}


/// The parts with `sep` between each two.
pub open spec fn join(parts: Seq<Seq<char>>, sep: Seq<char>) -> Seq<char>
    decreases parts.len(),
{
    if parts.len() == 0 {
        Seq::empty()
    } else if parts.len() == 1 {
        parts[0]
    } else {
        join(parts.drop_last(), sep) + sep + parts.last()
    }
}

/// `parts.join(sep)`.
pub fn join_strings(parts: &Vec<String>, sep: &str) -> (r: String)
    ensures
        r@ == join(string_views(parts@), sep@),
{
    let mut out = String::new();
    let mut i: usize = 0;
    while i < parts.len()
        invariant
            i <= parts.len(),
            out@ == join(string_views(parts@).take(i as int), sep@),
        decreases parts.len() - i,
    {
        let ghost v = string_views(parts@);
        proof {
            assert(v.take(i + 1).drop_last() =~= v.take(i as int));
            assert(v.take(i + 1).last() == parts@[i as int]@);
        }
        if i > 0 {
            push_str(&mut out, sep);
        } else {
            proof {
                assert(v.take(1).len() == 1);
                assert(v.take(0) =~= Seq::<Seq<char>>::empty());
                assert(out@ =~= Seq::<char>::empty());
            }
        }
        push_str(&mut out, parts[i].as_str());
        proof {
            if i == 0 {
                assert(out@ =~= v.take(1)[0]);
            }
        }
        i = i + 1;
    }
    assert(string_views(parts@).take(parts.len() as int) =~= string_views(parts@));
    out
}


/// `str::lines` from a position: `cur` is the part of the current line read
/// so far.  A line ended by `\n` loses a trailing `\r`; a last line without
/// `\n` is kept as it is, and nothing follows a final `\n`.
pub open spec fn lines_from(s: Seq<char>, cur: Seq<char>) -> Seq<Seq<char>>
    decreases s.len(),
{
    if s.len() == 0 {
        if cur.len() == 0 {
            Seq::empty()
        } else {
            seq![cur]
        }
    } else if s[0] == '\n' {
        seq![strip_cr(cur)] + lines_from(s.drop_first(), Seq::empty())
    } else {
        lines_from(s.drop_first(), cur.push(s[0]))
    }
}

/// A trailing carriage return removed.
pub open spec fn strip_cr(l: Seq<char>) -> Seq<char> {
    if l.len() > 0 && l.last() == '\r' {
        l.drop_last()
    } else {
        l
    }
}

/// `str::lines`.
pub open spec fn lines_of(s: Seq<char>) -> Seq<Seq<char>> {
    lines_from(s, Seq::empty())
}

/// The lines of a text, as `str::lines` splits them.
pub fn split_lines(s: &str) -> (r: Vec<String>)
    ensures
        string_views(r@) == lines_of(s@),
{
    let cs = chars_of(s);
    let mut out: Vec<String> = Vec::new();
    let mut cur: Vec<char> = Vec::new();
    let mut i: usize = 0;
    proof {
        assert(s@.skip(0) =~= s@);
        assert(string_views(out@) =~= Seq::<Seq<char>>::empty());
    }
    while i < cs.len()
        invariant
            i <= cs.len(),
            cs@ == s@,
            lines_of(s@) == string_views(out@) + lines_from(s@.skip(i as int), cur@),
        decreases cs.len() - i,
    {
        let c = cs[i];
        proof {
            assert(s@.skip(i as int).drop_first() =~= s@.skip(i + 1));
            assert(s@.skip(i as int)[0] == c);
        }
        if c == '\n' {
            let line: Vec<char> = if cur.len() > 0 && cur[cur.len() - 1] == '\r' {
                let mut l = cur.clone();
                let _ = l.pop();
                proof {
                    assert(l@ =~= cur@.drop_last());
                }
                l
            } else {
                cur.clone()
            };
            proof {
                assert(line@ == strip_cr(cur@));
            }
            let ghost prev = string_views(out@);
            out.push(string_of(line.as_slice()));
            proof {
                assert(string_views(out@) =~= prev.push(strip_cr(cur@)));
                assert(prev.push(strip_cr(cur@)) + lines_from(s@.skip(i + 1), Seq::<char>::empty())
                    =~= prev + (seq![strip_cr(cur@)] + lines_from(s@.skip(i + 1), Seq::<char>::empty())));
            }
            cur = Vec::new();
            proof {
                assert(cur@ =~= Seq::<char>::empty());
            }
        } else {
            cur.push(c);
        }
        i = i + 1;
    }
    proof {
        assert(s@.skip(cs.len() as int) =~= Seq::<char>::empty());
    }
    if cur.len() > 0 {
        let ghost prev = string_views(out@);
        out.push(string_of(cur.as_slice()));
        proof {
            assert(string_views(out@) =~= prev.push(cur@));
            assert(prev + seq![cur@] =~= prev.push(cur@));
        }
    } else {
        proof {
            assert(string_views(out@) + Seq::<Seq<char>>::empty() =~= string_views(out@));
        }
    }
    out
}

/// Bytes taken by the leading whitespace of a line
/// (`line.len() - line.trim_start().len()`).
pub open spec fn lead_ws_bytes(s: Seq<char>) -> nat {
    utf8_width(s.take(lead_ws(s) as int))
}

/// Whether the leading whitespace of a line takes exactly `target` bytes.
pub fn lead_ws_bytes_is(s: &[char], target: usize) -> (r: bool)
    ensures
        r == (lead_ws_bytes(s@) == target),
{
    let n = lead_ws_exec(s);
    proof {
        lemma_lead_ws_bound(s@);
    }
    let mut w: usize = 0;
    let mut i: usize = 0;
    while i < n
        invariant
            i <= n,
            n <= s.len(),
            n == lead_ws(s@),
            w as nat == utf8_width(s@.take(i as int)),
            w <= target,
        decreases n - i,
    {
        proof {
            assert(s@.take(i + 1).drop_last() =~= s@.take(i as int));
            assert(s@.take(i + 1).last() == s@[i as int]);
        }
        let v: u32 = s[i] as u32;
        let cw: usize = if v < 0x80 {
            1
        } else if v < 0x800 {
            2
        } else if v < 0x10000 {
            3
        } else {
            4
        };
        if cw > target - w {
            proof {
                lemma_width_monotone(s@, i + 1, n as int);
            }
            return false;
        }
        w = w + cw;
        i = i + 1;
    }
    w == target
}

/// All copies of `c` removed from the end (`trim_end_matches`).
pub open spec fn strip_trailing(s: Seq<char>, c: char) -> Seq<char>
    decreases s.len(),
{
    if s.len() > 0 && s.last() == c {
        strip_trailing(s.drop_last(), c)
    } else {
        s
    }
}

pub fn strip_trailing_exec(s: &[char], c: char) -> (r: Vec<char>)
    ensures
        r@ == strip_trailing(s@, c),
{
    let mut n = s.len();
    assert(s@.take(n as int) =~= s@);
    while n > 0 && s[n - 1] == c
        invariant
            n <= s.len(),
            strip_trailing(s@, c) == strip_trailing(s@.take(n as int), c),
        decreases n,
    {
        proof {
            assert(s@.take(n as int).drop_last() =~= s@.take(n - 1));
        }
        n = n - 1;
    }
    let mut out: Vec<char> = Vec::new();
    let mut i: usize = 0;
    while i < n
        invariant
            i <= n,
            n <= s.len(),
            out@ == s@.take(i as int),
        decreases n - i,
    {
        out.push(s[i]);
        proof {
            assert(out@ =~= s@.take(i + 1));
        }
        i = i + 1;
    }
    out
}


/// `str::trim_start`.
pub fn trim_start_str(s: &str) -> (r: String)
    ensures
        r@ == trim_start(s@),
{
    let cs = chars_of(s);
    let n = lead_ws_exec(cs.as_slice());
    proof {
        lemma_lead_ws_bound(s@);
    }
    let tail = &cs.as_slice()[n..cs.len()];
    proof {
        assert(tail@ =~= s@.skip(n as int));
    }
    string_of(tail)
}

/// `Path::join` on Unix paths: an absolute `name` replaces `root`;
/// otherwise `name` follows `root` after a `/` unless `root` is empty or
/// already ends with one.
pub open spec fn path_join(root: Seq<char>, name: Seq<char>) -> Seq<char> {
    if name.len() > 0 && name[0] == '/' {
        name
    } else if root.len() == 0 {
        name
    } else if root.last() == '/' {
        root + name
    } else {
        root + "/"@ + name
    }
}

/// Joins a path as `path_join` says.
pub fn join_path(root: &str, name: &str) -> (r: String)
    ensures
        r@ == path_join(root@, name@),
{
    let n = chars_of(name);
    if n.len() > 0 && n[0] == '/' {
        return owned(name);
    }
    let rc = chars_of(root);
    if rc.len() == 0 {
        return owned(name);
    }
    let mut s = owned(root);
    if rc[rc.len() - 1] != '/' {
        push_str(&mut s, "/");
    }
    push_str(&mut s, name);
    s
}

} // verus!
