//! Text operations on field values: trimming, suffixes, segments, decimal numerals.
//!
//! Every operation is stated over the sequence of characters of a string. The only thing
//! taken on trust is which characters count as white space.

use vstd::prelude::*;

verus! {

/// Whether `c` has the Unicode property White_Space.
pub uninterp spec fn is_white_space(c: char) -> bool;

/// `char::is_whitespace` of the standard library: its answer for a character is the
/// character's White_Space property, which the library does not enumerate.
pub assume_specification[ char::is_whitespace ](c: char) -> (b: bool)
    ensures
        b == is_white_space(c),
;

/// `s` without its leading white space.
pub open spec fn trim_start(s: Seq<char>) -> Seq<char>
    decreases s.len(),
{
    if s.len() > 0 && is_white_space(s[0]) {
        trim_start(s.skip(1))
    } else {
        s
    }
}

/// `s` without its trailing white space.
pub open spec fn trim_end(s: Seq<char>) -> Seq<char>
    decreases s.len(),
{
    if s.len() > 0 && is_white_space(s.last()) {
        trim_end(s.drop_last())
    } else {
        s
    }
}

/// `s` without leading and trailing white space.
pub open spec fn trimmed(s: Seq<char>) -> Seq<char> {
    trim_end(trim_start(s))
}

/// Whether nothing but white space stands in `s`.
pub open spec fn is_blank(s: Seq<char>) -> bool {
    trimmed(s).len() == 0
}

/// Whether `s` ends with `suffix`.
pub open spec fn ends_with(s: Seq<char>, suffix: Seq<char>) -> bool {
    suffix.len() <= s.len() && s.skip(s.len() - suffix.len()) == suffix
}

/// `s` with `suffix` taken off its end, where it ends with it.
pub open spec fn without_suffix(s: Seq<char>, suffix: Seq<char>) -> Option<Seq<char>> {
    if ends_with(s, suffix) {
        Some(s.take(s.len() - suffix.len()))
    } else {
        None
    }
}

/// The number of characters of `s` that stand before the first `sep`; all of them where
/// `s` holds no `sep`.
pub open spec fn len_before(s: Seq<char>, sep: char) -> nat
    decreases s.len(),
{
    if s.len() == 0 || s[0] == sep {
        0
    } else {
        1 + len_before(s.skip(1), sep)
    }
}

/// The part of `s` before the first `sep`; all of `s` where it holds no `sep`.
pub open spec fn before_first(s: Seq<char>, sep: char) -> Seq<char> {
    s.take(len_before(s, sep) as int)
}

/// The character of the decimal digit `d`.
pub open spec fn digit(d: nat) -> char {
    if d == 0 {
        '0'
    } else if d == 1 {
        '1'
    } else if d == 2 {
        '2'
    } else if d == 3 {
        '3'
    } else if d == 4 {
        '4'
    } else if d == 5 {
        '5'
    } else if d == 6 {
        '6'
    } else if d == 7 {
        '7'
    } else if d == 8 {
        '8'
    } else {
        '9'
    }
}

/// The decimal numeral of `n`, without leading zeros.
pub open spec fn decimal(n: nat) -> Seq<char>
    decreases n,
{
    if n < 10 {
        seq![digit(n)]
    } else {
        decimal(n / 10).push(digit(n % 10))
    }
}

/// Leading white space up to `k`, and none at `k`, fixes what `trim_start` leaves.
pub proof fn lemma_trim_start_at(s: Seq<char>, k: int)
    requires
        0 <= k <= s.len(),
        forall|j: int| 0 <= j < k ==> is_white_space(#[trigger] s[j]),
        k == s.len() || !is_white_space(s[k]),
    ensures
        trim_start(s) == s.skip(k),
    decreases k,
{
    if k > 0 {
        lemma_trim_start_at(s.skip(1), k - 1);
    }
}

/// Trailing white space from `k` on, and none before `k`, fixes what `trim_end` leaves.
pub proof fn lemma_trim_end_at(s: Seq<char>, k: int)
    requires
        0 <= k <= s.len(),
        forall|j: int| k <= j < s.len() ==> is_white_space(#[trigger] s[j]),
        k == 0 || !is_white_space(s[k - 1]),
    ensures
        trim_end(s) == s.take(k),
    decreases s.len() - k,
{
    if k < s.len() {
        lemma_trim_end_at(s.drop_last(), k);
    }
}

/// No `sep` before `k`, and one at `k` or the end of `s` there, fixes `len_before`.
pub proof fn lemma_len_before_at(s: Seq<char>, sep: char, k: int)
    requires
        0 <= k <= s.len(),
        forall|j: int| 0 <= j < k ==> #[trigger] s[j] != sep,
        k == s.len() || s[k] == sep,
    ensures
        len_before(s, sep) == k,
    decreases k,
{
    if k > 0 {
        lemma_len_before_at(s.skip(1), sep, k - 1);
    }
}

/// The part before the first `sep` holds no `sep` and is no longer than the text.
pub proof fn lemma_before_first_bounds(s: Seq<char>, sep: char)
    ensures
        len_before(s, sep) <= s.len(),
        !before_first(s, sep).contains(sep),
        len_before(s, sep) < s.len() ==> s[len_before(s, sep) as int] == sep,
    decreases s.len(),
{
    if s.len() > 0 && s[0] != sep {
        let rest = s.skip(1);
        lemma_before_first_bounds(rest, sep);
        assert forall|j: int| 0 <= j < len_before(s, sep) implies #[trigger] before_first(
            s,
            sep,
        )[j] != sep by {
            if j > 0 {
                assert(before_first(rest, sep)[j - 1] == rest[j - 1]);
            }
        }
    }
}

/// Where `s` holds no `sep`, the part before the first `sep` is all of `s`.
pub proof fn lemma_before_first_is_all(s: Seq<char>, sep: char)
    requires
        !s.contains(sep),
    ensures
        before_first(s, sep) == s,
{
    assert forall|j: int| 0 <= j < s.len() implies #[trigger] s[j] != sep by {
        assert(s.contains(s[j]));
    }
    lemma_len_before_at(s, sep, s.len() as int);
    assert(s.take(s.len() as int) =~= s);
}

/// The characters of `s`, in order.
pub fn chars_of(s: &str) -> (out: Vec<char>)
    ensures
        out@ == s@,
{
    let mut out: Vec<char> = Vec::new();
    for c in it: s.chars()
        invariant
            out@ == it.seq().take(it.index() as int),
    {
        out.push(c);
    }
    out
}

/// Whether two texts hold the same characters.
pub fn same_text(a: &str, b: &str) -> (r: bool)
    ensures
        r == (a@ == b@),
{
    let x = chars_of(a);
    let y = chars_of(b);
    if x.len() != y.len() {
        return false;
    }
    let mut i: usize = 0;
    while i < x.len()
        invariant
            i <= x.len(),
            x.len() == y.len(),
            x@ == a@,
            y@ == b@,
            forall|j: int| 0 <= j < i ==> x@[j] == y@[j],
        decreases x.len() - i,
    {
        if x[i] != y[i] {
            return false;
        }
        i += 1;
    }
    assert(x@ =~= y@);
    true
}

/// `s` without leading and trailing white space.
pub fn trim(s: &str) -> (out: &str)
    ensures
        out@ == trimmed(s@),
{
    let chars = chars_of(s);
    let n: usize = chars.len();
    let mut from: usize = 0;
    while from < n && chars[from].is_whitespace()
        invariant
            from <= n,
            n == chars.len(),
            forall|j: int| 0 <= j < from ==> is_white_space(#[trigger] chars@[j]),
        decreases n - from,
    {
        from += 1;
    }
    let mut to: usize = n;
    while to > from && chars[to - 1].is_whitespace()
        invariant
            from <= to <= n,
            n == chars.len(),
            forall|j: int| to <= j < n ==> is_white_space(#[trigger] chars@[j]),
        decreases to,
    {
        to -= 1;
    }
    proof {
        lemma_trim_start_at(s@, from as int);
        lemma_trim_end_at(s@.skip(from as int), to - from);
    }
    s.substring_char(from, to)
}

/// `s` with `suffix` taken off its end; `None` where `s` does not end with it.
pub fn strip_suffix<'a>(s: &'a str, suffix: &str) -> (out: Option<&'a str>)
    ensures
        match out {
            Some(rest) => without_suffix(s@, suffix@) == Some(rest@),
            None => without_suffix(s@, suffix@).is_none(),
        },
{
    let x = chars_of(s);
    let y = chars_of(suffix);
    if y.len() > x.len() {
        return None;
    }
    let start: usize = x.len() - y.len();
    let mut i: usize = 0;
    while i < y.len()
        invariant
            i <= y.len(),
            start + y.len() == x.len(),
            x@ == s@,
            y@ == suffix@,
            forall|j: int| 0 <= j < i ==> x@[start + j] == y@[j],
        decreases y.len() - i,
    {
        if x[start + i] != y[i] {
            return None;
        }
        i += 1;
    }
    assert(s@.skip(start as int) =~= suffix@);
    Some(s.substring_char(0, start))
}

/// The part of `s` before the first `sep`; all of `s` where it holds no `sep`.
pub fn first_segment(s: &str, sep: char) -> (out: &str)
    ensures
        out@ == before_first(s@, sep),
        !out@.contains(sep),
        out@.len() < s@.len() ==> s@[out@.len() as int] == sep,
{
    let chars = chars_of(s);
    let mut i: usize = 0;
    while i < chars.len() && chars[i] != sep
        invariant
            i <= chars.len(),
            forall|j: int| 0 <= j < i ==> #[trigger] chars@[j] != sep,
        decreases chars.len() - i,
    {
        i += 1;
    }
    proof {
        lemma_len_before_at(s@, sep, i as int);
        lemma_before_first_bounds(s@, sep);
    }
    s.substring_char(0, i)
}

/// A copy of a sequence of texts.
pub fn copy_fields(fields: &Vec<String>) -> (out: Vec<String>)
    ensures
        out.deep_view() == fields.deep_view(),
{
    let mut out: Vec<String> = Vec::new();
    let mut i: usize = 0;
    while i < fields.len()
        invariant
            i <= fields.len(),
            out.len() == i,
            forall|j: int| 0 <= j < i ==> out@[j]@ == fields@[j]@,
        decreases fields.len() - i,
    {
        out.push(fields[i].clone());
        i += 1;
    }
    out
}

/// The numeral of one decimal digit.
fn digit_text(d: u128) -> (out: &'static str)
    requires
        d < 10,
    ensures
        out@ == seq![digit(d as nat)],
{
    proof {
        reveal_strlit("0");
        reveal_strlit("1");
        reveal_strlit("2");
        reveal_strlit("3");
        reveal_strlit("4");
        reveal_strlit("5");
        reveal_strlit("6");
        reveal_strlit("7");
        reveal_strlit("8");
        reveal_strlit("9");
    }
    if d == 0 {
        "0"
    } else if d == 1 {
        "1"
    } else if d == 2 {
        "2"
    } else if d == 3 {
        "3"
    } else if d == 4 {
        "4"
    } else if d == 5 {
        "5"
    } else if d == 6 {
        "6"
    } else if d == 7 {
        "7"
    } else if d == 8 {
        "8"
    } else {
        "9"
    }
}

/// The decimal numeral of `n`, without leading zeros.
pub fn decimal_text(n: u128) -> (out: String)
    ensures
        out@ == decimal(n as nat),
    decreases n,
{
    if n < 10 {
        String::from_str(digit_text(n))
    } else {
        let mut out = decimal_text(n / 10);
        out.append(digit_text(n % 10));
        out
    }
}

} // verus!
