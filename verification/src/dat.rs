//! Sample images as text: one pixel a line, three numbers between commas.
//!
//! A line that does not hold exactly three fields is passed over. A field
//! that is no number of eight bits counts as 0. Of the three numbers of a
//! line the first is stored first, then the third, then the second.

use crate::text::chars_of;
use crate::text::number;
use crate::text::parse_number;
use crate::text::trim;
use crate::text::trim_range;
use vstd::prelude::*;

verus! {

/// The number of characters of `s` before the first `sep`, or the length
/// of `s` where it holds none.
pub open spec fn first_at(s: Seq<char>, sep: char) -> nat
    decreases s.len(),
{
    if s.len() == 0 || s[0] == sep {
        0
    } else {
        1 + first_at(s.skip(1), sep)
    }
}

/// The pieces of `s` between the occurrences of `sep`.
pub open spec fn split(s: Seq<char>, sep: char) -> Seq<Seq<char>>
    decreases s.len(),
{
    let i = first_at(s, sep);
    if i >= s.len() {
        seq![s]
    } else {
        seq![s.take(i as int)] + split(s.skip(i as int + 1), sep)
    }
}

/// The value of one field: the number of eight bits that it spells in
/// decimal, white space around it set aside, or 0.
pub open spec fn channel(field: Seq<char>) -> u8 {
    match number(trim(field), 10, 255) {
        Some(v) => v as u8,
        None => 0,
    }
}

/// The bytes of one line.
pub open spec fn line_bytes(line: Seq<char>) -> Seq<u8> {
    let fields = split(line, ',');
    if fields.len() == 3 {
        seq![channel(fields[0]), channel(fields[2]), channel(fields[1])]
    } else {
        Seq::empty()
    }
}

/// The bytes of a text: those of its lines, one after another.
pub open spec fn dat_bytes(text: Seq<char>) -> Seq<u8>
    decreases text.len(),
{
    let i = first_at(text, '\n');
    if i >= text.len() {
        line_bytes(text)
    } else {
        line_bytes(text.take(i as int)) + dat_bytes(text.skip(i as int + 1))
    }
}

/// The first `sep` lies inside `s`, or past its end.
pub proof fn lemma_first_at_bound(s: Seq<char>, sep: char)
    ensures
        first_at(s, sep) <= s.len(),
        first_at(s, sep) < s.len() ==> s[first_at(s, sep) as int] == sep,
        forall|j: int| 0 <= j < first_at(s, sep) ==> s[j] != sep,
    decreases s.len(),
{
    if s.len() > 0 && s[0] != sep {
        lemma_first_at_bound(s.skip(1), sep);
        let rest = first_at(s.skip(1), sep);
        assert forall|j: int| 0 <= j < 1 + rest implies s[j] != sep by {
            if j > 0 {
                assert(s.skip(1)[j - 1] == s[j]);
            }
        }
    }
}

/// A text has at least one piece.
pub proof fn lemma_split_is_not_empty(s: Seq<char>, sep: char)
    ensures
        split(s, sep).len() >= 1,
    decreases s.len(),
{
    lemma_first_at_bound(s, sep);
    let i = first_at(s, sep);
    if i < s.len() {
        lemma_split_is_not_empty(s.skip(i as int + 1), sep);
    }
}

/// The place of the first `sep` in `v[lo..hi]`, or `hi` where there is none.
fn find(v: &Vec<char>, lo: usize, hi: usize, sep: char) -> (at: usize)
    requires
        lo <= hi <= v.len(),
    ensures
        lo <= at <= hi,
        at - lo == first_at(v@.subrange(lo as int, hi as int), sep),
        at < hi ==> v@[at as int] == sep,
{
    let mut at: usize = lo;
    while at < hi && v[at] != sep
        invariant
            lo <= at <= hi <= v.len(),
            first_at(v@.subrange(lo as int, hi as int), sep) == (at - lo) + first_at(
                v@.subrange(at as int, hi as int),
                sep,
            ),
        decreases hi - at,
    {
        assert(v@.subrange(at as int, hi as int).skip(1) =~= v@.subrange(at as int + 1, hi as int));
        at = at + 1;
    }
    at
}

/// The value of the field `v[lo..hi]`.
fn field(v: &Vec<char>, lo: usize, hi: usize) -> (value: u8)
    requires
        lo <= hi <= v.len(),
    ensures
        value == channel(v@.subrange(lo as int, hi as int)),
{
    let (from, to) = trim_range(v, lo, hi);
    match parse_number(v, from, to, 10, 255) {
        Some(n) => n as u8,
        None => 0,
    }
}

/// Appends the bytes of the line `v[lo..hi]` to `out`.
fn line(v: &Vec<char>, lo: usize, hi: usize, out: &mut Vec<u8>)
    requires
        lo <= hi <= v.len(),
    ensures
        final(out)@ == old(out)@ + line_bytes(v@.subrange(lo as int, hi as int)),
{
    let ghost whole = v@.subrange(lo as int, hi as int);
    let first = find(v, lo, hi, ',');
    if first == hi {
        assert(split(whole, ',') == seq![whole]);
        assert(out@ + line_bytes(whole) =~= out@);
        return ;
    }
    let ghost after_first = v@.subrange(first as int + 1, hi as int);
    assert(whole.skip(first - lo + 1) =~= after_first);
    assert(whole.take(first - lo) =~= v@.subrange(lo as int, first as int));
    let second = find(v, first + 1, hi, ',');
    if second == hi {
        assert(split(after_first, ',') == seq![after_first]);
        assert(split(whole, ',').len() == 2);
        assert(out@ + line_bytes(whole) =~= out@);
        return ;
    }
    let ghost after_second = v@.subrange(second as int + 1, hi as int);
    assert(after_first.skip(second - first) =~= after_second);
    assert(after_first.take(second - first - 1) =~= v@.subrange(
        first as int + 1,
        second as int,
    ));
    let third = find(v, second + 1, hi, ',');
    if third != hi {
        proof {
            lemma_split_is_not_empty(after_second.skip(third - second), ',');
        }
        assert(split(after_second, ',').len() >= 2);
        assert(split(after_first, ',').len() >= 3);
        assert(split(whole, ',').len() >= 4);
        assert(out@ + line_bytes(whole) =~= out@);
        return ;
    }
    assert(split(after_second, ',') == seq![after_second]);
    assert(split(after_first, ',') =~= seq![
        v@.subrange(first as int + 1, second as int),
        after_second,
    ]);
    assert(split(whole, ',') =~= seq![
        v@.subrange(lo as int, first as int),
        v@.subrange(first as int + 1, second as int),
        after_second,
    ]);
    let r = field(v, lo, first);
    let b = field(v, first + 1, second);
    let g = field(v, second + 1, hi);
    let ghost before = out@;
    out.push(r);
    out.push(g);
    out.push(b);
    assert(out@ =~= before + line_bytes(whole));
}

/// The bytes of the sample image that `text` holds.
pub fn parse_dat(text: &str) -> (out: Vec<u8>)
    ensures
        out@ == dat_bytes(text@),
{
    let v = chars_of(text);
    let mut out: Vec<u8> = Vec::new();
    let mut start: usize = 0;
    let mut done = false;
    assert(v@.skip(0) =~= v@);
    while !done
        invariant
            start <= v.len(),
            v@ == text@,
            !done ==> out@ + dat_bytes(v@.skip(start as int)) == dat_bytes(v@),
            done ==> out@ == dat_bytes(v@),
        decreases v.len() - start + (if done { 0int } else { 1int }),
    {
        let ghost rest = v@.skip(start as int);
        let ghost before = out@;
        assert(rest =~= v@.subrange(start as int, v.len() as int));
        let end = find(&v, start, v.len(), '\n');
        line(&v, start, end, &mut out);
        assert(rest.take(end - start) =~= v@.subrange(start as int, end as int));
        if end == v.len() {
            assert(rest.take(end - start) =~= rest);
            assert(out@ =~= before + dat_bytes(rest));
            done = true;
        } else {
            assert(rest.skip(end - start + 1) =~= v@.skip(end as int + 1));
            assert(out@ + dat_bytes(v@.skip(end as int + 1)) =~= before + dat_bytes(rest));
            start = end + 1;
        }
    }
    out
}

} // verus!
