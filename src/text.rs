//! Character-level helpers shared by the parsers and argument builders.

use vstd::prelude::*;
use vstd::string::*;

verus! {

/// Relies on `String::push`: the character is appended at the end.
#[verifier::external_body]
pub(crate) fn push_char(s: &mut String, c: char)
    ensures
        final(s)@ == old(s)@.push(c),
{
    s.push(c)
}

/// An owned copy of a string slice.
pub fn owned(s: &str) -> (r: String)
    ensures
        r@ == s@,
{
    String::from_str(s)
}

/// The characters of a string slice, in order.
pub fn chars_of(s: &str) -> (r: Vec<char>)
    ensures
        r@ == s@,
{
    let n = s.unicode_len();
    let mut r: Vec<char> = Vec::new();
    let mut i: usize = 0;
    while i < n
        invariant
            n == s@.len(),
            i <= n,
            r@ == s@.subrange(0, i as int),
        decreases n - i,
    {
        let c = s.get_char(i);
        r.push(c);
        i = i + 1;
        assert(r@ =~= s@.subrange(0, i as int));
    }
    assert(r@ =~= s@);
    r
}

/// The string made of `v[from..to]`.
pub fn string_of(v: &Vec<char>, from: usize, to: usize) -> (r: String)
    requires
        from <= to <= v@.len(),
    ensures
        r@ == v@.subrange(from as int, to as int),
{
    let mut r = String::new();
    let mut i: usize = from;
    while i < to
        invariant
            from <= i <= to <= v@.len(),
            r@ == v@.subrange(from as int, i as int),
        decreases to - i,
    {
        push_char(&mut r, v[i]);
        i = i + 1;
        assert(r@ =~= v@.subrange(from as int, i as int));
    }
    r
}

/// The decimal digit character of `d`.
pub open spec fn digit_char(d: nat) -> char {
    if d < 10 { ((d + 48) as u8) as char } else { '?' }
}

/// Decimal notation of a natural number, without sign or padding.
pub open spec fn decimal(n: nat) -> Seq<char>
    decreases n,
{
    if n < 10 {
        seq![digit_char(n)]
    } else {
        decimal(n / 10).push(digit_char(n % 10))
    }
}

/// Decimal notation of an integer, with a leading `-` when negative.
pub open spec fn signed_decimal(n: int) -> Seq<char> {
    if n < 0 { seq!['-'] + decimal((-n) as nat) } else { decimal(n as nat) }
}

fn digit_of(d: u64) -> (c: char)
    requires
        d < 10,
    ensures
        c == digit_char(d as nat),
{
    ((d as u8) + 48) as char
}

/// Appends the decimal notation of `n` to `s`.
pub fn push_decimal(s: &mut String, n: u64)
    ensures
        final(s)@ == old(s)@ + decimal(n as nat),
    decreases n,
{
    if n < 10 {
        push_char(s, digit_of(n));
        assert(s@ =~= old(s)@ + decimal(n as nat));
    } else {
        push_decimal(s, n / 10);
        push_char(s, digit_of(n % 10));
        assert(s@ =~= old(s)@ + decimal(n as nat));
    }
}

/// The decimal notation of `n`.
pub fn decimal_string(n: u64) -> (r: String)
    ensures
        r@ == decimal(n as nat),
{
    let mut s = String::new();
    push_decimal(&mut s, n);
    assert(s@ =~= decimal(n as nat));
    s
}

pub open spec fn is_digit(c: char) -> bool {
    '0' <= c && c <= '9'
}

pub open spec fn all_digits(s: Seq<char>) -> bool {
    forall|i: int| 0 <= i < s.len() ==> is_digit(#[trigger] s[i])
}

/// Value of a string of decimal digits.
pub open spec fn digits_value(s: Seq<char>) -> nat
    decreases s.len(),
{
    if s.len() == 0 {
        0
    } else {
        digits_value(s.drop_last()) * 10 + ((s.last() as u32 - 48) as nat)
    }
}

/// What an unsigned integer parse reads, after an optional leading `+`.
pub open spec fn unsigned_body(s: Seq<char>) -> Seq<char> {
    if s.len() > 0 && s[0] == '+' { s.drop_first() } else { s }
}

/// The unsigned integer written in `s` (an optional `+`, then one or more
/// decimal digits), when its value is at most `max`.
pub open spec fn parse_unsigned_spec(s: Seq<char>, max: nat) -> Option<nat> {
    let d = unsigned_body(s);
    if d.len() > 0 && all_digits(d) && digits_value(d) <= max {
        Some(digits_value(d))
    } else {
        None
    }
}

/// Parses `v[from..to]` as an unsigned integer no larger than `max`.
pub fn parse_unsigned(v: &Vec<char>, from: usize, to: usize, max: u64) -> (r: Option<u64>)
    requires
        from <= to <= v@.len(),
    ensures
        r == (match parse_unsigned_spec(v@.subrange(from as int, to as int), max as nat) {
            Some(n) => Some(n as u64),
            None => None::<u64>,
        }),
{
    let ghost s = v@.subrange(from as int, to as int);
    let start: usize = if from < to && v[from] == '+' { from + 1 } else { from };
    let ghost d = v@.subrange(start as int, to as int);
    assert(d =~= unsigned_body(s));
    if start == to {
        return None;
    }
    let mut acc: u128 = 0;
    let mut over = false;
    let mut i: usize = start;
    while i < to
        invariant
            start <= i <= to <= v@.len(),
            d == v@.subrange(start as int, to as int),
            s == v@.subrange(from as int, to as int),
            d == unsigned_body(s),
            all_digits(v@.subrange(start as int, i as int)),
            !over ==> acc == digits_value(v@.subrange(start as int, i as int)) && acc <= max,
            over ==> digits_value(v@.subrange(start as int, i as int)) > max,
        decreases to - i,
    {
        let c = v[i];
        if !('0' <= c && c <= '9') {
            assert(d[i - start] == v@[i as int]);
            assert(!is_digit(d[i - start]));
            assert(!all_digits(d));
            return None;
        }
        let ghost pre = v@.subrange(start as int, i as int);
        let ghost next = v@.subrange(start as int, i + 1);
        assert(next.drop_last() =~= pre);
        assert(next.last() == c);
        assert(digits_value(next) == digits_value(pre) * 10 + ((c as u32 - 48) as nat));
        if !over {
            let nv: u128 = acc * 10 + ((c as u32 - 48) as u128);
            if nv > max as u128 {
                over = true;
            } else {
                acc = nv;
            }
        }
        assert(all_digits(next)) by {
            assert forall|k: int| 0 <= k < next.len() implies is_digit(#[trigger] next[k]) by {
                if k < pre.len() {
                    assert(next[k] == pre[k]);
                }
            }
        }
        i = i + 1;
    }
    assert(v@.subrange(start as int, i as int) =~= d);
    if over {
        None
    } else {
        Some(acc as u64)
    }
}

/// `s` split at every `a` or `b`, separators dropped (one more field than
/// separators).
pub open spec fn split_by(s: Seq<char>, a: char, b: char) -> Seq<Seq<char>>
    decreases s.len(),
{
    if s.len() == 0 {
        seq![Seq::<char>::empty()]
    } else {
        let r = split_by(s.drop_last(), a, b);
        let c = s.last();
        if c == a || c == b {
            r.push(Seq::<char>::empty())
        } else {
            r.update(r.len() - 1, r.last().push(c))
        }
    }
}

pub proof fn lemma_split_nonempty(s: Seq<char>, a: char, b: char)
    ensures
        split_by(s, a, b).len() >= 1,
    decreases s.len(),
{
    if s.len() > 0 {
        lemma_split_nonempty(s.drop_last(), a, b);
    }
}

/// The views of a vector of strings.
pub open spec fn views(v: Seq<String>) -> Seq<Seq<char>> {
    v.map_values(|x: String| x@)
}

/// Splits `v` at every `a` or `b`.
pub fn split_chars(v: &Vec<char>, a: char, b: char) -> (r: Vec<String>)
    ensures
        views(r@) == split_by(v@, a, b),
{
    let mut done: Vec<String> = Vec::new();
    let mut cur = String::new();
    let mut i: usize = 0;
    assert(v@.subrange(0, 0) =~= Seq::<char>::empty());
    assert(views(done@).push(cur@) =~= split_by(v@.subrange(0, 0), a, b));
    while i < v.len()
        invariant
            i <= v@.len(),
            views(done@).push(cur@) == split_by(v@.subrange(0, i as int), a, b),
        decreases v@.len() - i,
    {
        let c = v[i];
        let ghost pre = v@.subrange(0, i as int);
        let ghost next = v@.subrange(0, i + 1);
        assert(next.drop_last() =~= pre);
        proof { lemma_split_nonempty(pre, a, b); }
        if c == a || c == b {
            let old_cur = cur;
            done.push(old_cur);
            cur = String::new();
            assert(views(done@).push(cur@) =~= split_by(pre, a, b).push(Seq::<char>::empty()));
        } else {
            push_char(&mut cur, c);
            assert(views(done@).push(cur@) =~= split_by(pre, a, b).update(
                split_by(pre, a, b).len() - 1, split_by(pre, a, b).last().push(c)));
        }
        i = i + 1;
    }
    assert(v@.subrange(0, i as int) =~= v@);
    done.push(cur);
    assert(views(done@) =~= split_by(v@, a, b));
    done
}

/// ASCII whitespace, as trimming understands it.
pub open spec fn is_space(c: char) -> bool {
    c == ' ' || c == '\t' || c == '\n' || c == '\r' || c == '\x0b' || c == '\x0c'
}

/// Index of the first non-space at or after `i`.
pub open spec fn skip_spaces(s: Seq<char>, i: int) -> int
    decreases s.len() - i,
{
    if 0 <= i < s.len() && is_space(s[i]) { skip_spaces(s, i + 1) } else { i }
}

/// One past the last non-space before `j`.
pub open spec fn back_spaces(s: Seq<char>, lo: int, j: int) -> int
    decreases j - lo,
{
    if lo < j && j <= s.len() && is_space(s[j - 1]) { back_spaces(s, lo, j - 1) } else { j }
}

/// `s` without leading and trailing whitespace.
pub open spec fn trim(s: Seq<char>) -> Seq<char> {
    let a = skip_spaces(s, 0);
    s.subrange(a, back_spaces(s, a, s.len() as int))
}

proof fn lemma_skip(s: Seq<char>, i: int)
    requires
        0 <= i <= s.len(),
    ensures
        i <= skip_spaces(s, i) <= s.len(),
    decreases s.len() - i,
{
    if i < s.len() && is_space(s[i]) {
        lemma_skip(s, i + 1);
    }
}

proof fn lemma_back(s: Seq<char>, lo: int, j: int)
    requires
        0 <= lo <= j <= s.len(),
    ensures
        lo <= back_spaces(s, lo, j) <= j,
    decreases j - lo,
{
    if lo < j && is_space(s[j - 1]) {
        lemma_back(s, lo, j - 1);
    }
}

fn space(c: char) -> (r: bool)
    ensures
        r == is_space(c),
{
    c == ' ' || c == '\t' || c == '\n' || c == '\r' || c == '\x0b' || c == '\x0c'
}

/// Bounds of `v` without leading and trailing whitespace.
pub fn trim_bounds(v: &Vec<char>) -> (r: (usize, usize))
    ensures
        r.0 <= r.1 <= v@.len(),
        r.0 == skip_spaces(v@, 0),
        r.1 == back_spaces(v@, r.0 as int, v@.len() as int),
{
    let mut a: usize = 0;
    proof { lemma_skip(v@, 0); }
    while a < v.len() && space(v[a])
        invariant
            a <= v@.len(),
            skip_spaces(v@, a as int) == skip_spaces(v@, 0),
        decreases v@.len() - a,
    {
        a = a + 1;
    }
    let mut b: usize = v.len();
    proof { lemma_back(v@, a as int, v@.len() as int); }
    while b > a && space(v[b - 1])
        invariant
            a <= b <= v@.len(),
            back_spaces(v@, a as int, b as int) == back_spaces(v@, a as int, v@.len() as int),
        decreases b - a,
    {
        b = b - 1;
    }
    (a, b)
}

/// `s` without leading and trailing whitespace.
pub fn trimmed(s: &str) -> (r: String)
    ensures
        r@ == trim(s@),
{
    let v = chars_of(s);
    let (a, b) = trim_bounds(&v);
    string_of(&v, a, b)
}

/// `t` occurs in `s` at position `i`.
pub open spec fn occurs_at(s: Seq<char>, t: Seq<char>, i: int) -> bool {
    0 <= i && i + t.len() <= s.len() && s.subrange(i, i + t.len()) == t
}

/// `t` occurs somewhere in `s`.
pub open spec fn contains_text(s: Seq<char>, t: Seq<char>) -> bool {
    exists|i: int| occurs_at(s, t, i)
}

fn matches_at(v: &Vec<char>, w: &Vec<char>, i: usize) -> (r: bool)
    requires
        i + w@.len() <= v@.len(),
    ensures
        r == (v@.subrange(i as int, i + w@.len()) == w@),
{
    let n = v.len();
    let mut k: usize = 0;
    while k < w.len()
        invariant
            k <= w@.len(),
            n == v@.len(),
            i + w@.len() <= v@.len(),
            v@.subrange(i as int, i + k) == w@.subrange(0, k as int),
        decreases w@.len() - k,
    {
        assert(i + k < v@.len());
        if v[i + k] != w[k] {
            assert(v@.subrange(i as int, i + w@.len())[k as int] != w@[k as int]);
            return false;
        }
        k = k + 1;
        assert(v@.subrange(i as int, i + k) =~= w@.subrange(0, k as int));
    }
    assert(w@.subrange(0, k as int) =~= w@);
    true
}

/// Whether `t` occurs in `s`.
pub fn contains_str(s: &str, t: &str) -> (r: bool)
    ensures
        r == contains_text(s@, t@),
{
    let v = chars_of(s);
    let w = chars_of(t);
    if w.len() > v.len() {
        return false;
    }
    let last = v.len() - w.len();
    let mut i: usize = 0;
    loop
        invariant
            v@ == s@,
            w@ == t@,
            w@.len() <= v@.len(),
            last == v@.len() - w@.len(),
            i <= last,
            forall|j: int| 0 <= j < i ==> !occurs_at(s@, t@, j),
        decreases last - i,
    {
        if matches_at(&v, &w, i) {
            assert(occurs_at(s@, t@, i as int));
            return true;
        }
        if i == last {
            assert forall|j: int| !occurs_at(s@, t@, j) by {
                if 0 <= j <= i {
                }
            }
            return false;
        }
        i = i + 1;
    }
}

/// `s` with every `a` and `b` taken out.
pub open spec fn without(s: Seq<char>, a: char, b: char) -> Seq<char> {
    s.filter(kept_char(a, b))
}

pub open spec fn kept_char(a: char, b: char) -> spec_fn(char) -> bool {
    |c: char| c != a && c != b
}

/// `s` with every `a` and `b` taken out.
pub fn remove_chars(s: &str, a: char, b: char) -> (r: String)
    ensures
        r@ == without(s@, a, b),
{
    let v = chars_of(s);
    let mut r = String::new();
    let mut i: usize = 0;
    let ghost p = kept_char(a, b);
    while i < v.len()
        invariant
            i <= v@.len(),
            v@ == s@,
            p == kept_char(a, b),
            r@ == v@.subrange(0, i as int).filter(p),
        decreases v@.len() - i,
    {
        let c = v[i];
        proof {
            assert(v@.subrange(0, i + 1) =~= v@.subrange(0, i as int).push(c));
            v@.subrange(0, i as int).lemma_filter_push(c, p);
        }
        if c != a && c != b {
            push_char(&mut r, c);
        }
        i = i + 1;
    }
    assert(v@.subrange(0, i as int) =~= v@);
    r
}

} // verus!
