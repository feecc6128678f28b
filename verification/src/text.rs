//! Reading attribute text: surrounding white space, unsigned numbers in a
//! radix, and the `0x` prefix of a hexadecimal address.
//!
//! The grammar is stated on sequences of characters. A number is an optional
//! `+` followed by one or more digits and nothing else; digits are `0-9`,
//! `a-z` and `A-Z`, as far as the radix admits them.

use vstd::prelude::*;

verus! {

/// Whether `c` is white space: a character that has the Unicode property
/// `White_Space`.
pub open spec fn is_space(c: char) -> bool {
    let u = c as u32;
    ||| 0x09 <= u <= 0x0d
    ||| u == 0x20
    ||| u == 0x85
    ||| u == 0xa0
    ||| u == 0x1680
    ||| 0x2000 <= u <= 0x200a
    ||| u == 0x2028
    ||| u == 0x2029
    ||| u == 0x202f
    ||| u == 0x205f
    ||| u == 0x3000
}

/// `s` without its leading white space.
pub open spec fn trim_start(s: Seq<char>) -> Seq<char>
    decreases s.len(),
{
    if s.len() > 0 && is_space(s[0]) {
        trim_start(s.skip(1))
    } else {
        s
    }
}

/// `s` without its trailing white space.
pub open spec fn trim_end(s: Seq<char>) -> Seq<char>
    decreases s.len(),
{
    if s.len() > 0 && is_space(s.last()) {
        trim_end(s.drop_last())
    } else {
        s
    }
}

/// `s` without the white space at either end.
pub open spec fn trim(s: Seq<char>) -> Seq<char> {
    trim_end(trim_start(s))
}

/// `s` without any leading repetitions of the two characters `0x`.
pub open spec fn strip_hex_prefix(s: Seq<char>) -> Seq<char>
    decreases s.len(),
{
    if s.len() >= 2 && s[0] == '0' && s[1] == 'x' {
        strip_hex_prefix(s.skip(2))
    } else {
        s
    }
}

/// The value of `c` as a digit, or 36 where it is none in any radix.
pub open spec fn digit_of(c: char) -> nat {
    let u = c as u32;
    if 0x30 <= u <= 0x39 {
        (u - 0x30) as nat
    } else if 0x61 <= u <= 0x7a {
        (u - 0x61 + 10) as nat
    } else if 0x41 <= u <= 0x5a {
        (u - 0x41 + 10) as nat
    } else {
        36
    }
}

/// Whether every character of `s` is a digit in `radix`.
pub open spec fn all_digits(s: Seq<char>, radix: nat) -> bool {
    forall|i: int| 0 <= i < s.len() ==> digit_of(#[trigger] s[i]) < radix
}

/// The number that the digits `s` spell in `radix`, most significant first.
pub open spec fn digits_value(s: Seq<char>, radix: nat) -> nat
    decreases s.len(),
{
    if s.len() == 0 {
        0
    } else {
        digits_value(s.drop_last(), radix) * radix + digit_of(s.last())
    }
}

/// The digits of a number: `s` after its optional `+`.
pub open spec fn unsigned_digits(s: Seq<char>) -> Seq<char> {
    if s.len() > 0 && s[0] == '+' {
        s.skip(1)
    } else {
        s
    }
}

/// The number that `s` spells in `radix`, if `s` is a number no greater
/// than `max`.
pub open spec fn number(s: Seq<char>, radix: nat, max: nat) -> Option<nat> {
    let d = unsigned_digits(s);
    if d.len() > 0 && all_digits(d, radix) && digits_value(d, radix) <= max {
        Some(digits_value(d, radix))
    } else {
        None
    }
}

/// Reading on never makes the value smaller.
pub proof fn lemma_digits_value_grows(s: Seq<char>, k: int, radix: nat)
    requires
        0 <= k <= s.len(),
        radix >= 1,
    ensures
        digits_value(s.take(k), radix) <= digits_value(s, radix),
    decreases s.len() - k,
{
    if k == s.len() {
        assert(s.take(k) =~= s);
    } else {
        lemma_digits_value_grows(s.drop_last(), k, radix);
        assert(s.drop_last().take(k) =~= s.take(k));
        let v = digits_value(s.drop_last(), radix);
        assert(v <= v * radix) by (nonlinear_arith)
            requires
                radix >= 1,
        ;
    }
}

/// The characters of `s`, in order.
pub fn chars_of(s: &str) -> (out: Vec<char>)
    ensures
        out@ == s@,
{
    let mut out: Vec<char> = Vec::new();
    for c in it: s.chars()
        invariant
            it.seq() == s@,
            out@ =~= it.seq().take(it.index() as int),
    {
        out.push(c);
    }
    assert(out@ =~= s@);
    out
}

/// Whether `c` is white space.
pub fn char_is_space(c: char) -> (b: bool)
    ensures
        b == is_space(c),
{
    let u: u32 = c as u32;
    (0x09 <= u && u <= 0x0d) || u == 0x20 || u == 0x85 || u == 0xa0 || u == 0x1680 || (0x2000 <= u
        && u <= 0x200a) || u == 0x2028 || u == 0x2029 || u == 0x202f || u == 0x205f || u == 0x3000
}

/// The value of `c` as a digit, or 36 where it is none.
pub fn char_digit(c: char) -> (d: u32)
    ensures
        d == digit_of(c),
        d <= 36,
{
    let u: u32 = c as u32;
    if 0x30 <= u && u <= 0x39 {
        u - 0x30
    } else if 0x61 <= u && u <= 0x7a {
        u - 0x61 + 10
    } else if 0x41 <= u && u <= 0x5a {
        u - 0x41 + 10
    } else {
        36
    }
}

/// The bounds of `v[lo..hi]` without the white space at either end.
pub fn trim_range(v: &Vec<char>, lo: usize, hi: usize) -> (r: (usize, usize))
    requires
        lo <= hi <= v.len(),
    ensures
        lo <= r.0 <= r.1 <= hi,
        v@.subrange(r.0 as int, r.1 as int) == trim(v@.subrange(lo as int, hi as int)),
{
    let ghost whole = v@.subrange(lo as int, hi as int);
    let mut from: usize = lo;
    while from < hi && char_is_space(v[from])
        invariant
            lo <= from <= hi <= v.len(),
            trim_start(v@.subrange(lo as int, hi as int)) == trim_start(
                v@.subrange(from as int, hi as int),
            ),
        decreases hi - from,
    {
        assert(v@.subrange(from as int, hi as int).skip(1) =~= v@.subrange(
            from as int + 1,
            hi as int,
        ));
        from = from + 1;
    }
    assert(trim_start(whole) == v@.subrange(from as int, hi as int));
    let mut to: usize = hi;
    while to > from && char_is_space(v[to - 1])
        invariant
            lo <= from <= to <= hi <= v.len(),
            trim(v@.subrange(lo as int, hi as int)) == trim_end(
                v@.subrange(from as int, to as int),
            ),
        decreases to,
    {
        assert(v@.subrange(from as int, to as int).drop_last() =~= v@.subrange(
            from as int,
            to as int - 1,
        ));
        to = to - 1;
    }
    (from, to)
}

/// The bounds of `s` without the white space at either end, in the
/// characters `v` of `s`.
pub fn trim_whole(v: &Vec<char>) -> (r: (usize, usize))
    ensures
        r.0 <= r.1 <= v.len(),
        v@.subrange(r.0 as int, r.1 as int) == trim(v@),
{
    assert(v@.subrange(0, v.len() as int) =~= v@);
    trim_range(v, 0, v.len())
}

/// The start of `v[lo..hi]` after any leading repetitions of `0x`.
pub fn skip_hex_prefix(v: &Vec<char>, lo: usize, hi: usize) -> (start: usize)
    requires
        lo <= hi <= v.len(),
    ensures
        lo <= start <= hi,
        v@.subrange(start as int, hi as int) == strip_hex_prefix(v@.subrange(lo as int, hi as int)),
{
    let mut start: usize = lo;
    while hi - start >= 2 && v[start] == '0' && v[start + 1] == 'x'
        invariant
            lo <= start <= hi <= v.len(),
            strip_hex_prefix(v@.subrange(lo as int, hi as int)) == strip_hex_prefix(
                v@.subrange(start as int, hi as int),
            ),
        decreases hi - start,
    {
        assert(v@.subrange(start as int, hi as int).skip(2) =~= v@.subrange(
            start as int + 2,
            hi as int,
        ));
        start = start + 2;
    }
    start
}

/// The number that `v[lo..hi]` spells in `radix`, if it is a number no
/// greater than `max`.
pub fn parse_number(v: &Vec<char>, lo: usize, hi: usize, radix: u32, max: u64) -> (r: Option<u64>)
    requires
        lo <= hi <= v.len(),
        2 <= radix <= 36,
    ensures
        r is Some == number(v@.subrange(lo as int, hi as int), radix as nat, max as nat) is Some,
        r is Some ==> Some(r->0 as nat) == number(
            v@.subrange(lo as int, hi as int),
            radix as nat,
            max as nat,
        ),
{
    let ghost s = v@.subrange(lo as int, hi as int);
    let start: usize = if lo < hi && v[lo] == '+' {
        lo + 1
    } else {
        lo
    };
    let ghost d = unsigned_digits(s);
    assert(d =~= v@.subrange(start as int, hi as int));
    if start == hi {
        return None;
    }
    let mut acc: u64 = 0;
    let mut i: usize = start;
    while i < hi
        invariant
            lo <= start <= i <= hi <= v.len(),
            2 <= radix <= 36,
            d == unsigned_digits(v@.subrange(lo as int, hi as int)),
            d == v@.subrange(start as int, hi as int),
            all_digits(d.take(i - start), radix as nat),
            acc == digits_value(d.take(i - start), radix as nat),
            acc <= max,
        decreases hi - i,
    {
        let digit: u32 = char_digit(v[i]);
        let ghost next = d.take(i - start + 1);
        assert(next.drop_last() =~= d.take(i - start));
        assert(next.last() == v@[i as int]);
        if digit >= radix {
            assert(!all_digits(d, radix as nat)) by {
                assert(d[i - start] == v@[i as int]);
            }
            return None;
        }
        assert((acc as nat) * (radix as nat) <= 36 * 0xffff_ffff_ffff_ffff) by (nonlinear_arith)
            requires
                acc <= 0xffff_ffff_ffff_ffff,
                radix <= 36,
        ;
        let wide: u128 = (acc as u128) * (radix as u128) + (digit as u128);
        assert(wide == digits_value(next, radix as nat));
        if wide > max as u128 {
            proof {
                lemma_digits_value_grows(d, i - start + 1, radix as nat);
            }
            return None;
        }
        assert(all_digits(next, radix as nat)) by {
            assert forall|j: int| 0 <= j < next.len() implies digit_of(#[trigger] next[j])
                < radix as nat by {
                if j < i - start {
                    assert(next[j] == d.take(i - start)[j]);
                }
            }
        }
        acc = wide as u64;
        i = i + 1;
    }
    assert(d.take(hi - start) =~= d);
    Some(acc)
}

/// Whether `v[lo..hi]` and `w` hold the same characters.
pub fn range_equals(v: &Vec<char>, lo: usize, hi: usize, w: &Vec<char>) -> (b: bool)
    requires
        lo <= hi <= v.len(),
    ensures
        b == (v@.subrange(lo as int, hi as int) == w@),
{
    if hi - lo != w.len() {
        return false;
    }
    let mut i: usize = 0;
    while i < w.len()
        invariant
            lo <= hi <= v.len(),
            hi - lo == w.len(),
            i <= w.len(),
            forall|j: int| 0 <= j < i ==> v@[lo + j] == w@[j],
        decreases w.len() - i,
    {
        if v[lo + i] != w[i] {
            assert(v@.subrange(lo as int, hi as int)[i as int] != w@[i as int]);
            return false;
        }
        i = i + 1;
    }
    assert(v@.subrange(lo as int, hi as int) =~= w@);
    true
}

} // verus!
