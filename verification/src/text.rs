//! Character-level text helpers shared by the report parsers.
//!
//! Strings are modelled by their view, a `Seq<char>`. Searching and slicing
//! work on characters rather than UTF-8 byte offsets; every marker the
//! parsers look for is ASCII, so a match found here is the same text that a
//! byte-level search finds.

use vstd::prelude::*;

verus! {

/// What `str::to_lowercase` returns for a string (Unicode full lowercase
/// mapping, which takes the Unicode tables to state).
pub uninterp spec fn str_lowercase(s: Seq<char>) -> Seq<char>;

/// An ASCII character.
pub open spec fn is_ascii_char(c: char) -> bool {
    (c as u32) < 128
}

pub open spec fn all_ascii(s: Seq<char>) -> bool {
    forall|i: int| 0 <= i < s.len() ==> is_ascii_char(#[trigger] s[i])
}

/// `A`..`Z` to `a`..`z`; every other character unchanged.
pub open spec fn ascii_lower_char(c: char) -> char {
    if 'A' <= c <= 'Z' {
        ((c as u32) + 32) as char
    } else {
        c
    }
}

/// A string with its ASCII letters lowercased.
pub open spec fn ascii_lowercase(s: Seq<char>) -> Seq<char> {
    s.map_values(|c: char| ascii_lower_char(c))
}

/// `str::to_lowercase` from std.
///
/// Claims that the result is the Unicode lowercase mapping of the input, a
/// function of the input alone (named `str_lowercase`), and that on ASCII
/// text this mapping lowercases `A`..`Z` and keeps every other character.
/// The mapping of non-ASCII text is not stated.
#[verifier::external_body]
pub fn to_lowercase(s: &str) -> (r: String)
    ensures
        r@ == str_lowercase(s@),
        all_ascii(s@) ==> r@ == ascii_lowercase(s@),
{
    s.to_lowercase()
}

/// `String::push` from std: appends one character.
#[verifier::external_body]
pub fn push_char(s: &mut String, c: char)
    ensures
        final(s)@ == old(s)@.push(c),
{
    s.push(c)
}

/// Unicode `White_Space`, the set that `char::is_whitespace` tests.
pub open spec fn is_ws(c: char) -> bool {
    ||| '\t' <= c <= '\r'
    ||| c == ' '
    ||| c == '\u{85}'
    ||| c == '\u{a0}'
    ||| c == '\u{1680}'
    ||| '\u{2000}' <= c <= '\u{200a}'
    ||| c == '\u{2028}'
    ||| c == '\u{2029}'
    ||| c == '\u{202f}'
    ||| c == '\u{205f}'
    ||| c == '\u{3000}'
}

/// `char::is_whitespace`.
pub fn is_whitespace(c: char) -> (b: bool)
    ensures
        b == is_ws(c),
{
    ('\t' <= c && c <= '\r') || c == ' ' || c == '\u{85}' || c == '\u{a0}' || c == '\u{1680}'
        || ('\u{2000}' <= c && c <= '\u{200a}') || c == '\u{2028}' || c == '\u{2029}'
        || c == '\u{202f}' || c == '\u{205f}' || c == '\u{3000}'
}

/// `s` with leading and trailing whitespace removed (`str::trim`).
pub open spec fn trim_seq(s: Seq<char>) -> Seq<char>
    decreases s.len(),
{
    if s.len() > 0 && is_ws(s[0]) {
        trim_seq(s.drop_first())
    } else if s.len() > 0 && is_ws(s.last()) {
        trim_seq(s.drop_last())
    } else {
        s
    }
}

/// A string that is empty once trimmed.
pub open spec fn is_blank(s: Seq<char>) -> bool {
    trim_seq(s).len() == 0
}

/// `needle` occurs in `hay` at position `i`.
pub open spec fn occurs_at(hay: Seq<char>, needle: Seq<char>, i: int) -> bool {
    &&& 0 <= i
    &&& i + needle.len() <= hay.len()
    &&& hay.subrange(i, i + needle.len()) == needle
}

/// First position at or after `from` where `needle` occurs in `hay`.
pub open spec fn find_from(hay: Seq<char>, needle: Seq<char>, from: nat) -> Option<nat>
    decreases hay.len() + 1 - from,
{
    if from + needle.len() > hay.len() {
        None
    } else if occurs_at(hay, needle, from as int) {
        Some(from)
    } else {
        find_from(hay, needle, from + 1)
    }
}

/// `needle` occurs somewhere in `hay` (`str::contains`).
pub open spec fn contains_seq(hay: Seq<char>, needle: Seq<char>) -> bool {
    find_from(hay, needle, 0) is Some
}

/// The decimal digit character for `d < 10`.
pub open spec fn digit_char(d: nat) -> char {
    (48 + d) as char
}

/// Decimal representation of a natural number, as `{}` formats it.
pub open spec fn decimal(n: nat) -> Seq<char>
    decreases n,
{
    if n < 10 {
        seq![digit_char(n)]
    } else {
        decimal(n / 10).push(digit_char(n % 10))
    }
}

/// Decimal representation of a signed integer, as `{}` formats it.
pub open spec fn signed_decimal(n: int) -> Seq<char> {
    if n < 0 {
        seq!['-'] + decimal((-n) as nat)
    } else {
        decimal(n as nat)
    }
}

pub open spec fn is_digit(c: char) -> bool {
    '0' <= c <= '9'
}

pub open spec fn all_digits(s: Seq<char>) -> bool {
    forall|i: int| 0 <= i < s.len() ==> is_digit(#[trigger] s[i])
}

/// Value of a string of decimal digits.
pub open spec fn digits_value(s: Seq<char>) -> nat
    decreases s.len(),
{
    if s.len() == 0 {
        0
    } else {
        digits_value(s.drop_last()) * 10 + ((s.last() as int - 48) as nat)
    }
}

/// What `str::parse::<u64>` accepts: an optional `+`, then one or more
/// decimal digits whose value fits in a `u64`.
pub open spec fn parse_u64_seq(s: Seq<char>) -> Option<u64> {
    let d = if s.len() > 0 && s[0] == '+' {
        s.drop_first()
    } else {
        s
    };
    if d.len() == 0 || !all_digits(d) || digits_value(d) > u64::MAX {
        None
    } else {
        Some(digits_value(d) as u64)
    }
}

/// An optional string by its characters.
pub open spec fn opt_string_view(s: Option<String>) -> Option<Seq<char>> {
    match s {
        Some(x) => Some(x@),
        None => None,
    }
}

/// A trimmed, non-blank text, if there is one.
pub open spec fn nonblank_trimmed(t: Option<Seq<char>>) -> Option<Seq<char>> {
    match t {
        Some(x) => if trim_seq(x).len() > 0 {
            Some(trim_seq(x))
        } else {
            None
        },
        None => None,
    }
}

/// A line without the carriage return of a `\r\n` ending.
pub open spec fn strip_cr(l: Seq<char>) -> Seq<char> {
    if l.len() > 0 && l.last() == '\r' {
        l.drop_last()
    } else {
        l
    }
}

/// The lines of `s` from position `start` on, as `str::lines` splits them:
/// at each `\n`, dropping a `\r` just before it; a last line without `\n`
/// is kept as it is.
pub open spec fn lines_from(s: Seq<char>, start: nat) -> Seq<Seq<char>>
    decreases s.len() - start,
{
    if start >= s.len() {
        Seq::empty()
    } else {
        match find_from(s, seq!['\n'], start) {
            None => seq![s.subrange(start as int, s.len() as int)],
            Some(i) => {
                proof {
                    lemma_find_from_props(s, seq!['\n'], start);
                }
                seq![strip_cr(s.subrange(start as int, i as int))] + lines_from(s, i + 1)
            },
        }
    }
}

/// The lines of `s` (`str::lines`).
pub open spec fn lines_of(s: Seq<char>) -> Seq<Seq<char>> {
    lines_from(s, 0)
}

/// An optional string by its characters.
pub fn chars_of(s: &str) -> (v: Vec<char>)
    ensures
        v@ == s@,
{
    broadcast use vstd::string::group_string_axioms;

    let mut v: Vec<char> = Vec::new();
    for c in it: s.chars()
        invariant
            it.seq() == s@,
            v@ == it.seq().take(it.index() as int),
    {
        v.push(c);
    }
    v
}

/// A `String` holding `cs[lo..hi]`.
pub fn string_from_range(cs: &Vec<char>, lo: usize, hi: usize) -> (r: String)
    requires
        lo <= hi <= cs@.len(),
    ensures
        r@ == cs@.subrange(lo as int, hi as int),
{
    let mut r = String::new();
    let mut i = lo;
    while i < hi
        invariant
            lo <= i <= hi <= cs@.len(),
            r@ == cs@.subrange(lo as int, i as int),
        decreases hi - i,
    {
        push_char(&mut r, cs[i]);
        i = i + 1;
        assert(r@ =~= cs@.subrange(lo as int, i as int));
    }
    r
}

proof fn lemma_trim_bounds(s: Seq<char>, lo: int, hi: int)
    requires
        0 <= lo <= hi <= s.len(),
        forall|i: int| 0 <= i < lo ==> is_ws(#[trigger] s[i]),
        forall|i: int| hi <= i < s.len() ==> is_ws(#[trigger] s[i]),
        lo < hi ==> !is_ws(s[lo]) && !is_ws(s[hi - 1]),
        lo == hi ==> forall|i: int| 0 <= i < s.len() ==> is_ws(#[trigger] s[i]),
    ensures
        trim_seq(s) == s.subrange(lo, hi),
    decreases s.len(),
{
    if s.len() == 0 {
        assert(s.subrange(lo, hi) =~= s);
    } else if is_ws(s[0]) {
        let t = s.drop_first();
        if lo == 0 {
            assert(lo == hi);
            lemma_trim_bounds(t, 0, 0);
            assert(t.subrange(0, 0) =~= s.subrange(0, 0));
        } else {
            lemma_trim_bounds(t, lo - 1, hi - 1);
            assert(t.subrange(lo - 1, hi - 1) =~= s.subrange(lo, hi));
        }
    } else if is_ws(s.last()) {
        assert(lo == 0);
        assert(hi < s.len());
        let t = s.drop_last();
        lemma_trim_bounds(t, 0, hi);
        assert(t.subrange(0, hi) =~= s.subrange(0, hi));
    } else {
        assert(lo == 0);
        assert(hi == s.len());
        assert(s.subrange(0, s.len() as int) =~= s);
    }
}

/// `s.trim()`, as an owned string.
pub fn trimmed(s: &str) -> (r: String)
    ensures
        r@ == trim_seq(s@),
{
    let cs = chars_of(s);
    let n = cs.len();
    let mut lo: usize = 0;
    while lo < n && is_whitespace(cs[lo])
        invariant
            lo <= n == cs@.len(),
            forall|i: int| 0 <= i < lo ==> is_ws(#[trigger] cs@[i]),
        decreases n - lo,
    {
        lo = lo + 1;
    }
    let mut hi: usize = n;
    while hi > lo && is_whitespace(cs[hi - 1])
        invariant
            lo <= hi <= n == cs@.len(),
            forall|i: int| 0 <= i < lo ==> is_ws(#[trigger] cs@[i]),
            forall|i: int| hi <= i < n ==> is_ws(#[trigger] cs@[i]),
            lo < n ==> !is_ws(cs@[lo as int]),
        decreases hi - lo,
    {
        hi = hi - 1;
    }
    proof {
        lemma_trim_bounds(cs@, lo as int, hi as int);
    }
    string_from_range(&cs, lo, hi)
}

/// Whether `needle` occurs in `hay` at position `i`.
fn occurs_at_exec(hay: &Vec<char>, needle: &Vec<char>, i: usize) -> (b: bool)
    requires
        i + needle@.len() <= hay@.len(),
    ensures
        b == occurs_at(hay@, needle@, i as int),
{
    let n = hay.len();
    let mut k: usize = 0;
    while k < needle.len()
        invariant
            n == hay@.len(),
            i + needle@.len() <= hay@.len(),
            k <= needle@.len(),
            forall|j: int| 0 <= j < k ==> hay@[i + j] == needle@[j],
        decreases needle@.len() - k,
    {
        if hay[i + k] != needle[k] {
            assert(hay@.subrange(i as int, i + needle@.len())[k as int] != needle@[k as int]);
            return false;
        }
        k = k + 1;
    }
    assert(hay@.subrange(i as int, i + needle@.len()) =~= needle@);
    true
}

proof fn lemma_find_from_skip(hay: Seq<char>, needle: Seq<char>, from: nat, to: nat)
    requires
        from <= to,
        forall|j: int| from <= j < to ==> !#[trigger] occurs_at(hay, needle, j),
    ensures
        find_from(hay, needle, from) == find_from(hay, needle, to),
    decreases to - from,
{
    if from < to {
        assert(!occurs_at(hay, needle, from as int));
        lemma_find_from_skip(hay, needle, (from + 1) as nat, to);
    }
}

/// What `find_from` returns: the first occurrence at or after `from`.
pub proof fn lemma_find_from_props(hay: Seq<char>, needle: Seq<char>, from: nat)
    ensures
        find_from(hay, needle, from) matches Some(i) ==> {
            &&& from <= i
            &&& i + needle.len() <= hay.len()
            &&& occurs_at(hay, needle, i as int)
            &&& forall|j: int| from <= j < i ==> !#[trigger] occurs_at(hay, needle, j)
        },
        find_from(hay, needle, from) is None ==> forall|j: int|
            from <= j ==> !#[trigger] occurs_at(hay, needle, j),
    decreases hay.len() + 1 - from,
{
    if from + needle.len() > hay.len() {
    } else if occurs_at(hay, needle, from as int) {
    } else {
        lemma_find_from_props(hay, needle, from + 1);
    }
}

/// First position at or after `from` where `needle` occurs in `hay`.
pub fn find_exec(hay: &Vec<char>, needle: &Vec<char>, from: usize) -> (r: Option<usize>)
    ensures
        r matches Some(i) ==> find_from(hay@, needle@, from as nat) == Some(i as nat),
        r matches Some(i) ==> from <= i && i + needle@.len() <= hay@.len(),
        r is None ==> find_from(hay@, needle@, from as nat) is None,
{
    proof {
        lemma_find_from_props(hay@, needle@, from as nat);
    }
    let n = hay.len();
    let m = needle.len();
    if m > n {
        return None;
    }
    let mut i = from;
    while i <= n - m
        invariant
            m == needle@.len(),
            n == hay@.len(),
            m <= n,
            from <= i,
            find_from(hay@, needle@, from as nat) == find_from(hay@, needle@, i as nat),
        decreases n - m + 1 - i,
    {
        if occurs_at_exec(hay, needle, i) {
            return Some(i);
        }
        proof {
            lemma_find_from_skip(hay@, needle@, i as nat, (i + 1) as nat);
        }
        if i == n - m {
            assert(find_from(hay@, needle@, (i + 1) as nat) is None);
            return None;
        }
        i = i + 1;
    }
    None
}

/// `hay.contains(needle)` on character vectors.
pub fn contains_exec(hay: &Vec<char>, needle: &Vec<char>) -> (b: bool)
    ensures
        b == contains_seq(hay@, needle@),
{
    find_exec(hay, needle, 0).is_some()
}

/// `hay.contains(needle)` on string slices.
pub fn str_contains(hay: &str, needle: &str) -> (b: bool)
    ensures
        b == contains_seq(hay@, needle@),
{
    let h = chars_of(hay);
    let n = chars_of(needle);
    contains_exec(&h, &n)
}

proof fn lemma_digits_value_prefix(s: Seq<char>, k: int)
    requires
        0 <= k <= s.len(),
        all_digits(s),
    ensures
        digits_value(s) >= digits_value(s.take(k)),
    decreases s.len() - k,
{
    if k < s.len() {
        lemma_digits_value_prefix(s, k + 1);
        assert(s.take(k + 1).drop_last() =~= s.take(k));
        assert(is_digit(s[k]));
    } else {
        assert(s.take(k) =~= s);
    }
}

/// `s.parse::<u64>().ok()`.
pub fn parse_u64(s: &str) -> (r: Option<u64>)
    ensures
        r == parse_u64_seq(s@),
{
    let cs = chars_of(s);
    let n = cs.len();
    let start: usize = if n > 0 && cs[0] == '+' {
        1
    } else {
        0
    };
    let ghost d = if cs@.len() > 0 && cs@[0] == '+' {
        cs@.drop_first()
    } else {
        cs@
    };
    assert(d =~= cs@.subrange(start as int, n as int));
    if start == n {
        return None;
    }
    let mut acc: u64 = 0;
    let mut i: usize = start;
    while i < n
        invariant
            start <= i <= n == cs@.len(),
            cs@ == s@,
            d == cs@.subrange(start as int, n as int),
            d == (if cs@.len() > 0 && cs@[0] == '+' {
                cs@.drop_first()
            } else {
                cs@
            }),
            all_digits(d.take(i - start)),
            acc == digits_value(d.take(i - start)),
        decreases n - i,
    {
        let c = cs[i];
        if !('0' <= c && c <= '9') {
            assert(!is_digit(d[i - start]));
            return None;
        }
        let dv: u64 = (c as u32 - '0' as u32) as u64;
        let ghost k = i - start;
        assert(d.take(k + 1).drop_last() =~= d.take(k));
        assert(d.take(k + 1).last() == c);
        if acc > (u64::MAX - dv) / 10 {
            proof {
                assert(digits_value(d.take(k + 1)) > u64::MAX) by (nonlinear_arith)
                    requires
                        digits_value(d.take(k + 1)) == acc * 10 + dv,
                        acc > (u64::MAX - dv) / 10,
                        dv <= 9,
                ;
                if all_digits(d) {
                    lemma_digits_value_prefix(d, k + 1);
                }
            }
            return None;
        }
        proof {
            assert(acc * 10 + dv <= u64::MAX) by (nonlinear_arith)
                requires
                    acc <= (u64::MAX - dv) / 10,
                    dv <= 9,
            ;
        }
        acc = acc * 10 + dv;
        i = i + 1;
        assert(all_digits(d.take(i - start)));
    }
    assert(d.take(n - start) =~= d);
    Some(acc)
}

/// The decimal digit character for `d < 10`.
fn digit(d: u64) -> (c: char)
    requires
        d < 10,
    ensures
        c == digit_char(d as nat),
{
    ((d as u8) + 48u8) as char
}

/// Appends the decimal representation of `n`.
pub fn push_decimal(s: &mut String, n: u64)
    ensures
        final(s)@ == old(s)@ + decimal(n as nat),
    decreases n,
{
    if n >= 10 {
        push_decimal(s, n / 10);
    }
    push_char(s, digit(n % 10));
    assert(final(s)@ =~= old(s)@ + decimal(n as nat));
}

/// Appends the decimal representation of a signed integer.
pub fn push_signed_decimal(s: &mut String, n: i64)
    ensures
        final(s)@ == old(s)@ + signed_decimal(n as int),
{
    if n < 0 {
        push_char(s, '-');
        let m: u64 = if n == i64::MIN {
            9223372036854775808u64
        } else {
            (-n) as u64
        };
        push_decimal(s, m);
        assert(final(s)@ =~= old(s)@ + signed_decimal(n as int));
    } else {
        push_decimal(s, n as u64);
    }
}

/// `s.lines()`, each line as an owned string.
pub fn lines(s: &str) -> (r: Vec<String>)
    ensures
        r@.map_values(|x: String| x@) == lines_of(s@),
{
    let cs = chars_of(s);
    let n = cs.len();
    let mut nl: Vec<char> = Vec::new();
    nl.push('\n');
    assert(nl@ =~= seq!['\n']);
    let mut out: Vec<String> = Vec::new();
    let mut start: usize = 0;
    assert(out@.map_values(|x: String| x@) + lines_from(cs@, 0) =~= lines_of(s@));
    while start < n
        invariant
            start <= n == cs@.len(),
            cs@ == s@,
            nl@ == seq!['\n'],
            out@.map_values(|x: String| x@) + lines_from(cs@, start as nat) == lines_of(s@),
        decreases n - start,
    {
        let ghost before = out@.map_values(|x: String| x@);
        proof {
            lemma_find_from_props(cs@, nl@, start as nat);
        }
        match find_exec(&cs, &nl, start) {
            None => {
                let line = string_from_range(&cs, start, n);
                out.push(line);
                proof {
                    assert(out@.map_values(|x: String| x@) =~= before.push(
                        cs@.subrange(start as int, n as int),
                    ));
                    assert(lines_from(cs@, n as nat) =~= Seq::<Seq<char>>::empty());
                    assert(before + lines_from(cs@, start as nat) =~= out@.map_values(
                        |x: String| x@,
                    ) + lines_from(cs@, n as nat));
                }
                start = n;
            },
            Some(i) => {
                let hi = if i > start && cs[i - 1] == '\r' {
                    i - 1
                } else {
                    i
                };
                let line = string_from_range(&cs, start, hi);
                proof {
                    let l = cs@.subrange(start as int, i as int);
                    assert(line@ =~= strip_cr(l));
                }
                out.push(line);
                proof {
                    let l = cs@.subrange(start as int, i as int);
                    assert(out@.map_values(|x: String| x@) =~= before.push(strip_cr(l)));
                    assert(before + lines_from(cs@, start as nat) =~= out@.map_values(
                        |x: String| x@,
                    ) + lines_from(cs@, (i + 1) as nat));
                }
                start = i + 1;
            },
        }
    }
    assert(lines_from(cs@, start as nat) =~= Seq::<Seq<char>>::empty());
    assert(out@.map_values(|x: String| x@) =~= lines_of(s@));
    out
}

} // verus!
