//! UTF-16 code units of text, as browsers index it.

use vstd::prelude::*;

verus! {

/// The replacement character that stands for an unpaired surrogate.
pub const REPLACEMENT: char = '\u{FFFD}';

pub open spec fn is_surrogate(u: u16) -> bool {
    0xD800 <= u <= 0xDFFF
}

pub open spec fn is_high_surrogate(u: u16) -> bool {
    0xD800 <= u <= 0xDBFF
}

pub open spec fn is_low_surrogate(u: u16) -> bool {
    0xDC00 <= u <= 0xDFFF
}

/// The one or two code units of a character.
pub open spec fn encode_char(c: char) -> Seq<u16> {
    let n = c as u32;
    if n < 0x10000 {
        seq![n as u16]
    } else {
        seq![(0xD800 + (n - 0x10000) / 0x400) as u16, (0xDC00 + (n - 0x10000) % 0x400) as u16]
    }
}

/// The code units of a text: those of its characters, in order.
pub open spec fn encode(s: Seq<char>) -> Seq<u16>
    decreases s.len(),
{
    if s.len() == 0 {
        Seq::empty()
    } else {
        encode(s.drop_last()) + encode_char(s.last())
    }
}

/// The character that a surrogate pair stands for.
pub open spec fn pair_value(high: u16, low: u16) -> char {
    (0x10000 + (high - 0xD800) * 0x400 + (low - 0xDC00)) as char
}

/// How many code units the first character of `units` takes: two for a
/// surrogate pair, one for anything else (an unpaired surrogate too).
pub open spec fn first_width(units: Seq<u16>) -> int {
    if units.len() >= 2 && is_high_surrogate(units[0]) && is_low_surrogate(units[1]) {
        2
    } else {
        1
    }
}

/// The first character of `units`; an unpaired surrogate reads as
/// the replacement character.
pub open spec fn first_char(units: Seq<u16>) -> char {
    if !is_surrogate(units[0]) {
        units[0] as char
    } else if first_width(units) == 2 {
        pair_value(units[0], units[1])
    } else {
        REPLACEMENT
    }
}

/// The text that code units stand for, each unpaired surrogate replaced by
/// the replacement character.
pub open spec fn decode_lossy(units: Seq<u16>) -> Seq<char>
    decreases units.len(),
{
    if units.len() == 0 {
        Seq::empty()
    } else {
        seq![first_char(units)] + decode_lossy(units.skip(first_width(units)))
    }
}

/// No surrogate in `units` stands alone.
pub open spec fn well_formed(units: Seq<u16>) -> bool
    decreases units.len(),
{
    if units.len() == 0 {
        true
    } else if !is_surrogate(units[0]) {
        well_formed(units.skip(1))
    } else {
        first_width(units) == 2 && well_formed(units.skip(2))
    }
}

/// Encoding distributes over concatenation.
pub proof fn lemma_encode_concat(a: Seq<char>, b: Seq<char>)
    ensures
        encode(a + b) == encode(a) + encode(b),
    decreases b.len(),
{
    if b.len() == 0 {
        assert(a + b =~= a);
        assert(encode(a) + encode(b) =~= encode(a));
    } else {
        lemma_encode_concat(a, b.drop_last());
        assert((a + b).drop_last() =~= a + b.drop_last());
        assert((a + b).last() == b.last());
        assert(encode(a) + (encode(b.drop_last()) + encode_char(b.last())) =~= (encode(a) + encode(
            b.drop_last(),
        )) + encode_char(b.last()));
    }
}

/// Decoded and encoded again, well-formed code units come back unchanged.
pub proof fn lemma_well_formed_round_trip(units: Seq<u16>)
    requires
        well_formed(units),
    ensures
        encode(decode_lossy(units)) == units,
    decreases units.len(),
{
    if units.len() > 0 {
        let w = first_width(units);
        let rest = units.skip(w);
        lemma_well_formed_round_trip(rest);
        let c = first_char(units);
        lemma_encode_concat(seq![c], decode_lossy(rest));
        assert(encode(seq![c]) =~= encode_char(c)) by {
            assert(seq![c].drop_last() =~= Seq::<char>::empty());
            assert(seq![c].last() == c);
            assert(encode(seq![c].drop_last()) =~= Seq::<u16>::empty());
        }
        assert(encode_char(c) =~= units.take(w)) by {
            if is_surrogate(units[0]) {
                let high = units[0];
                let low = units[1];
                let n: int = 0x10000 + (high - 0xD800) * 0x400 + (low - 0xDC00);
                assert(0x10000 <= n <= 0x10FFFF);
                assert((n - 0x10000) / 0x400 == high - 0xD800);
                assert((n - 0x10000) % 0x400 == low - 0xDC00);
                assert(c as u32 == n);
            }
        }
        assert(units.take(w) + rest =~= units);
    }
}

/// The place `at` in `units` lies between characters: not between the two
/// halves of a surrogate pair.
pub open spec fn is_boundary(units: Seq<u16>, at: int) -> bool {
    0 <= at <= units.len() && !(0 < at < units.len() && is_high_surrogate(units[at - 1])
        && is_low_surrogate(units[at]))
}

/// Well-formed code units joined to well-formed code units are
/// well-formed.
pub proof fn lemma_well_formed_concat(a: Seq<u16>, b: Seq<u16>)
    requires
        well_formed(a),
        well_formed(b),
    ensures
        well_formed(a + b),
    decreases a.len(),
{
    if a.len() == 0 {
        assert(a + b =~= b);
    } else if !is_surrogate(a[0]) {
        lemma_well_formed_concat(a.skip(1), b);
        assert((a + b).skip(1) =~= a.skip(1) + b);
    } else {
        lemma_well_formed_concat(a.skip(2), b);
        assert((a + b).skip(2) =~= a.skip(2) + b);
    }
}

/// The code units of a text are well-formed.
pub proof fn lemma_encode_well_formed(s: Seq<char>)
    ensures
        well_formed(encode(s)),
    decreases s.len(),
{
    if s.len() > 0 {
        lemma_encode_well_formed(s.drop_last());
        let c = s.last();
        let units = encode_char(c);
        let n = c as u32;
        vstd::utf8::char_is_scalar(c);
        assert(n <= 0x10FFFF && !(0xD800 <= n <= 0xDFFF));
        assert(well_formed(Seq::<u16>::empty()));
        if n < 0x10000 {
            assert(!is_surrogate(units[0]));
            assert(units.skip(1) =~= Seq::<u16>::empty());
        } else {
            assert((n - 0x10000) / 0x400 <= 0x3FF);
            assert(is_high_surrogate(units[0]) && is_low_surrogate(units[1]));
            assert(first_width(units) == 2);
            assert(units.skip(2) =~= Seq::<u16>::empty());
        }
        assert(well_formed(units));
        lemma_well_formed_concat(encode(s.drop_last()), units);
    }
}

/// Well-formed code units cut between characters are well-formed on both
/// sides of the cut.
pub proof fn lemma_well_formed_cut(units: Seq<u16>, at: int)
    requires
        well_formed(units),
        is_boundary(units, at),
    ensures
        well_formed(units.take(at)),
        well_formed(units.skip(at)),
    decreases units.len(),
{
    if at == 0 {
        assert(units.skip(0) =~= units);
        assert(units.take(0) =~= Seq::<u16>::empty());
    } else if !is_surrogate(units[0]) {
        let rest = units.skip(1);
        assert(is_boundary(rest, at - 1)) by {
            if 0 < at - 1 < rest.len() {
                assert(rest[at - 2] == units[at - 1] && rest[at - 1] == units[at]);
            }
        }
        lemma_well_formed_cut(rest, at - 1);
        assert(units.skip(at) =~= rest.skip(at - 1));
        assert(units.take(at).skip(1) =~= rest.take(at - 1));
    } else {
        let rest = units.skip(2);
        assert(at >= 2);
        assert(is_boundary(rest, at - 2)) by {
            if 0 < at - 2 < rest.len() {
                assert(rest[at - 3] == units[at - 1] && rest[at - 2] == units[at]);
            }
        }
        lemma_well_formed_cut(rest, at - 2);
        assert(units.skip(at) =~= rest.skip(at - 2));
        assert(units.take(at).skip(2) =~= rest.take(at - 2));
    }
}

/// A range of well-formed code units that starts and ends between
/// characters comes back unchanged when it is decoded and encoded again.
pub proof fn lemma_whole_characters_round_trip(units: Seq<u16>, from: int, to: int)
    requires
        well_formed(units),
        from <= to,
        is_boundary(units, from),
        is_boundary(units, to),
    ensures
        encode(decode_lossy(units.subrange(from, to))) == units.subrange(from, to),
{
    lemma_well_formed_cut(units, to);
    let head = units.take(to);
    assert(is_boundary(head, from)) by {
        if 0 < from < head.len() {
            assert(head[from - 1] == units[from - 1] && head[from] == units[from]);
        }
    }
    lemma_well_formed_cut(head, from);
    assert(head.skip(from) =~= units.subrange(from, to));
    lemma_well_formed_round_trip(units.subrange(from, to));
}

/// The UTF-16 code units of `s`.
pub fn encode_utf16(s: &str) -> (units: Vec<u16>)
    ensures
        units@ == encode(s@),
{
    let mut units: Vec<u16> = Vec::new();
    for c in it: s.chars()
        invariant
            it.seq() == s@,
            units@ == encode(s@.take(it.index() as int)),
    {
        let v = c as u32;
        proof {
            let i = it.index() as int;
            assert(s@.take(i + 1).drop_last() =~= s@.take(i));
            assert(s@.take(i + 1).last() == c);
        }
        if v < 0x10000 {
            units.push(v as u16);
        } else {
            let off = v - 0x10000;
            units.push((0xD800 + off / 0x400) as u16);
            units.push((0xDC00 + off % 0x400) as u16);
        }
    }
    proof {
        assert(s@.take(s@.len() as int) =~= s@);
    }
    units
}

/// The characters that code units stand for, as numbers, each unpaired
/// surrogate read as the replacement character.
pub fn decode_scalars(units: &Vec<u16>) -> (scalars: Vec<u32>)
    ensures
        scalars@ == decode_lossy(units@).map_values(|c: char| c as u32),
{
    let mut scalars: Vec<u32> = Vec::new();
    let mut i: usize = 0;
    proof {
        assert(units@.skip(0) =~= units@);
        assert(scalars@ =~= Seq::<char>::empty().map_values(|c: char| c as u32));
    }
    while i < units.len()
        invariant
            i <= units.len(),
            decode_lossy(units@) == decode_lossy(units@.take(i as int)) + decode_lossy(
                units@.skip(i as int),
            ),
            scalars@ == decode_lossy(units@.take(i as int)).map_values(|c: char| c as u32),
            is_boundary_of_reading(units@, i as int),
        decreases units.len() - i,
    {
        let ghost rest = units@.skip(i as int);
        let ghost done = decode_lossy(units@.take(i as int));
        let unit = units[i];
        proof {
            assert(rest[0] == unit);
            if rest.len() >= 2 {
                assert(rest[1] == units@[i + 1]);
            }
        }
        let paired = 0xD800 <= unit && unit <= 0xDBFF && i + 1 < units.len() && 0xDC00 <= units[i
            + 1] && units[i + 1] <= 0xDFFF;
        let (scalar, width): (u32, usize) = if !(0xD800 <= unit && unit <= 0xDFFF) {
            (unit as u32, 1)
        } else if paired {
            (0x10000 + (unit as u32 - 0xD800) * 0x400 + (units[i + 1] as u32 - 0xDC00), 2)
        } else {
            (0xFFFD, 1)
        };
        proof {
            let c = first_char(rest);
            assert(first_width(rest) == width);
            assert(c as u32 == scalar);
            assert(rest.skip(width as int) =~= units@.skip(i + width));
            lemma_decode_step(units@, i as int);
            assert(decode_lossy(units@.take(i + width)) == done.push(c));
            assert(done.push(c).map_values(|c: char| c as u32) =~= done.map_values(
                |c: char| c as u32,
            ).push(scalar));
            assert(done + (seq![c] + decode_lossy(rest.skip(width as int))) =~= done.push(c)
                + decode_lossy(rest.skip(width as int)));
        }
        scalars.push(scalar);
        i += width;
    }
    proof {
        assert(units@.take(units.len() as int) =~= units@);
        assert(units@.skip(units.len() as int) =~= Seq::<u16>::empty());
        assert(decode_lossy(units@) =~= decode_lossy(units@.take(units.len() as int)));
    }
    scalars
}

/// Reading from the start of `units` comes to the place `at`: the place
/// is where a character read from the front ends.
pub open spec fn is_boundary_of_reading(units: Seq<u16>, at: int) -> bool
    decreases units.len(),
{
    if at == 0 {
        true
    } else if units.len() == 0 || at < 0 {
        false
    } else {
        at >= first_width(units) && is_boundary_of_reading(
            units.skip(first_width(units)),
            at - first_width(units),
        )
    }
}

/// Reading one character more from a place that reading comes to: what was
/// read grows by that character, and reading comes to the place after it.
pub proof fn lemma_decode_step(units: Seq<u16>, at: int)
    requires
        0 <= at < units.len(),
        is_boundary_of_reading(units, at),
    ensures
        decode_lossy(units.take(at + first_width(units.skip(at)))) == decode_lossy(
            units.take(at),
        ).push(first_char(units.skip(at))),
        is_boundary_of_reading(units, at + first_width(units.skip(at))),
        at + first_width(units.skip(at)) <= units.len(),
    decreases units.len(),
{
    let here = units.skip(at);
    let w = first_width(here);
    if at == 0 {
        assert(here =~= units);
        assert(units.take(0) =~= Seq::<u16>::empty());
        let head = units.take(w);
        assert(first_width(head) == w && first_char(head) == first_char(units)) by {
            assert(head[0] == units[0]);
            if w == 2 {
                assert(head[1] == units[1]);
            }
        }
        assert(head.skip(w) =~= Seq::<u16>::empty());
        assert(decode_lossy(head.skip(w)) =~= Seq::<char>::empty());
        assert(decode_lossy(units.take(0)) =~= Seq::<char>::empty());
        assert(decode_lossy(head) =~= seq![first_char(units)]);
        assert(is_boundary_of_reading(units.skip(w), 0));
    } else {
        let f = first_width(units);
        let rest = units.skip(f);
        assert(rest.skip(at - f) =~= here);
        if at - f < rest.len() {
            lemma_decode_step(rest, at - f);
        }
        let to = at + w;
        let head = units.take(to);
        assert(first_width(head) == f && first_char(head) == first_char(units)) by {
            assert(head[0] == units[0]);
            if units.len() >= 2 {
                assert(head[1] == units[1]);
            }
        }
        assert(head.skip(f) =~= rest.take(to - f));
        let before = units.take(at);
        assert(first_width(before) == f && first_char(before) == first_char(units)) by {
            assert(before[0] == units[0]);
            if at >= 2 {
                assert(before[1] == units[1]);
            }
        }
        assert(before.skip(f) =~= rest.take(at - f));
        assert(decode_lossy(head) =~= decode_lossy(before).push(first_char(here)));
    }
}

/// The text of the code units of `units` in `from..to`, by
/// `String::from_utf16_lossy`: each well-formed character as it is, each
/// unpaired surrogate as U+FFFD.
#[verifier::external_body]
pub(crate) fn from_utf16_lossy(units: &Vec<u16>, from: usize, to: usize) -> (text: String)
    requires
        from <= to <= units.len(),
    ensures
        text@ == decode_lossy(units@.subrange(from as int, to as int)),
{
    String::from_utf16_lossy(&units[from..to])
}

} // verus!
