//! The MessagePack forms that the transport is made of: unsigned numbers,
//! booleans, nil, text and array headers, each in its shortest encoding.
//!
//! Every form has a `wire_*` function that says which bytes stand for a
//! value, a `parse_*` function that says which value, if any, begins at a
//! position of a buffer, and two lemmas that tie them together: what was
//! written is read back, and what is read back was written that way.

use vstd::prelude::*;

verus! {

/// The byte that stands for nil.
pub const NIL: u8 = 0xc0;

/// The byte that stands for `false`.
pub const FALSE: u8 = 0xc2;

/// The byte that stands for `true`.
pub const TRUE: u8 = 0xc3;

/// The header of a map with a single entry.
pub const MAP_OF_ONE: u8 = 0x81;

/// The three families of forms that begin with a number: an unsigned
/// integer itself, the length of a text, and the length of an array.
#[derive(Debug, Clone, Copy, PartialEq, Eq, Structural)]
pub enum Family {
    Number,
    Text,
    Array,
}

impl Family {
    /// Numbers below this bound are folded into the first byte.
    pub open spec fn fix_limit(self) -> nat {
        match self {
            Family::Number => 128,
            Family::Text => 32,
            Family::Array => 16,
        }
    }

    /// The first byte of the folded form of zero.
    pub open spec fn fix_base(self) -> nat {
        match self {
            Family::Number => 0x00,
            Family::Text => 0xa0,
            Family::Array => 0x90,
        }
    }

    /// Whether the family has a form with one byte after the marker.
    pub open spec fn has_short(self) -> bool {
        self != Family::Array
    }

    /// The marker before one byte.
    pub open spec fn marker8(self) -> u8 {
        match self {
            Family::Number => 0xcc,
            Family::Text => 0xd9,
            Family::Array => 0xc1,
        }
    }

    /// The marker before two bytes.
    pub open spec fn marker16(self) -> u8 {
        match self {
            Family::Number => 0xcd,
            Family::Text => 0xda,
            Family::Array => 0xdc,
        }
    }

    /// The marker before four bytes.
    pub open spec fn marker32(self) -> u8 {
        match self {
            Family::Number => 0xce,
            Family::Text => 0xdb,
            Family::Array => 0xdd,
        }
    }
}

/// Whether the bytes `w` stand in `s` from position `pos` on.
pub open spec fn holds_at(s: Seq<u8>, pos: int, w: Seq<u8>) -> bool {
    0 <= pos && pos + w.len() <= s.len() && s.subrange(pos, pos + w.len()) == w
}

/// The shortest encoding of `v` in the given family, big-endian after the
/// marker.
#[verifier::opaque]
pub open spec fn wire_num(f: Family, v: nat) -> Seq<u8> {
    if v < f.fix_limit() {
        seq![(f.fix_base() + v) as u8]
    } else if f.has_short() && v < 0x100 {
        seq![f.marker8(), v as u8]
    } else if v < 0x1_0000 {
        seq![f.marker16(), (v / 0x100) as u8, (v % 0x100) as u8]
    } else {
        seq![
            f.marker32(),
            (v / 0x100_0000) as u8,
            ((v / 0x1_0000) % 0x100) as u8,
            ((v / 0x100) % 0x100) as u8,
            (v % 0x100) as u8,
        ]
    }
}

/// The number of the given family that begins at `pos`, and where it ends.
/// Only the shortest encoding of a number is taken for it.
#[verifier::opaque]
pub open spec fn parse_num(f: Family, s: Seq<u8>, pos: int) -> Option<(nat, int)> {
    if pos < 0 || pos >= s.len() {
        None
    } else if f.fix_base() <= s[pos] < f.fix_base() + f.fix_limit() {
        Some(((s[pos] - f.fix_base()) as nat, pos + 1))
    } else if f.has_short() && s[pos] == f.marker8() {
        if pos + 2 <= s.len() && s[pos + 1] >= f.fix_limit() {
            Some((s[pos + 1] as nat, pos + 2))
        } else {
            None
        }
    } else if s[pos] == f.marker16() {
        if pos + 3 <= s.len() && (s[pos + 1] > 0 || (!f.has_short() && s[pos + 2]
            >= f.fix_limit())) {
            Some(((s[pos + 1] * 0x100 + s[pos + 2]) as nat, pos + 3))
        } else {
            None
        }
    } else if s[pos] == f.marker32() {
        if pos + 5 <= s.len() && (s[pos + 1] > 0 || s[pos + 2] > 0) {
            Some(
                (
                    (s[pos + 1] * 0x100_0000 + s[pos + 2] * 0x1_0000 + s[pos + 3] * 0x100 + s[pos
                        + 4]) as nat,
                    pos + 5,
                ),
            )
        } else {
            None
        }
    } else {
        None
    }
}

/// The byte that stands for a boolean.
pub open spec fn wire_bool(b: bool) -> Seq<u8> {
    seq![if b { TRUE } else { FALSE }]
}

/// The boolean at `pos`, and where it ends.
pub open spec fn parse_bool(s: Seq<u8>, pos: int) -> Option<(bool, int)> {
    if pos < 0 || pos >= s.len() {
        None
    } else if s[pos] == TRUE {
        Some((true, pos + 1))
    } else if s[pos] == FALSE {
        Some((false, pos + 1))
    } else {
        None
    }
}

/// The encodings of a run of numbers, one after the other.
pub open spec fn wire_nums(vs: Seq<nat>) -> Seq<u8>
    decreases vs.len(),
{
    if vs.len() == 0 {
        Seq::empty()
    } else {
        wire_num(Family::Number, vs[0]) + wire_nums(vs.skip(1))
    }
}

/// The run of `count` numbers, none above `max`, that begins at `pos`.
pub open spec fn parse_nums(s: Seq<u8>, pos: int, count: nat, max: nat) -> Option<(Seq<nat>, int)>
    decreases count,
{
    if count == 0 {
        if 0 <= pos <= s.len() {
            Some((Seq::empty(), pos))
        } else {
            None
        }
    } else {
        match parse_num(Family::Number, s, pos) {
            Some((v, next)) => if v <= max {
                match parse_nums(s, next, (count - 1) as nat, max) {
                    Some((rest, end)) => Some((seq![v] + rest, end)),
                    None => None,
                }
            } else {
                None
            },
            None => None,
        }
    }
}

/// An array of numbers: its length, then the numbers.
pub open spec fn wire_num_array(vs: Seq<nat>) -> Seq<u8> {
    wire_num(Family::Array, vs.len()) + wire_nums(vs)
}

/// The array of numbers, none above `max`, that begins at `pos`.
pub open spec fn parse_num_array(s: Seq<u8>, pos: int, max: nat) -> Option<(Seq<nat>, int)> {
    match parse_num(Family::Array, s, pos) {
        Some((count, next)) => parse_nums(s, next, count, max),
        None => None,
    }
}

/// A text: the length of its bytes, then the bytes.
pub open spec fn wire_text(bytes: Seq<u8>) -> Seq<u8> {
    wire_num(Family::Text, bytes.len()) + bytes
}

/// The bytes of the text that begins at `pos`, and where it ends.
pub open spec fn parse_text(s: Seq<u8>, pos: int) -> Option<(Seq<u8>, int)> {
    match parse_num(Family::Text, s, pos) {
        Some((len, next)) => if next + len <= s.len() {
            Some((s.subrange(next, next + len), next + len))
        } else {
            None
        },
        None => None,
    }
}

/// No number in the run is above `max`.
pub open spec fn all_at_most(vs: Seq<nat>, max: nat) -> bool {
    forall|i: int| 0 <= i < vs.len() ==> #[trigger] vs[i] <= max
}

/// Bytes that stand at a position are found there one by one.
pub proof fn lemma_holds_at_index(s: Seq<u8>, pos: int, w: Seq<u8>, k: int)
    requires
        holds_at(s, pos, w),
        0 <= k < w.len(),
    ensures
        s[pos + k] == w[k],
{
    assert(s.subrange(pos, pos + w.len())[k] == s[pos + k]);
}

/// Two runs of bytes stand one after the other exactly when their
/// concatenation stands there.
pub proof fn lemma_holds_at_concat(s: Seq<u8>, pos: int, a: Seq<u8>, b: Seq<u8>)
    ensures
        holds_at(s, pos, a + b) <==> holds_at(s, pos, a) && holds_at(s, pos + a.len(), b),
{
    if holds_at(s, pos, a + b) {
        let w = a + b;
        assert forall|k: int| 0 <= k < a.len() implies s.subrange(pos, pos + a.len())[k]
            == a[k] by {
            lemma_holds_at_index(s, pos, w, k);
        }
        assert(s.subrange(pos, pos + a.len()) =~= a);
        assert forall|k: int| 0 <= k < b.len() implies s.subrange(
            pos + a.len(),
            pos + a.len() + b.len(),
        )[k] == b[k] by {
            lemma_holds_at_index(s, pos, w, a.len() + k);
        }
        assert(s.subrange(pos + a.len(), pos + a.len() + b.len()) =~= b);
    }
    if holds_at(s, pos, a) && holds_at(s, pos + a.len(), b) {
        assert forall|k: int| 0 <= k < a.len() + b.len() implies s.subrange(
            pos,
            pos + a.len() + b.len(),
        )[k] == (a + b)[k] by {
            if k < a.len() {
                lemma_holds_at_index(s, pos, a, k);
            } else {
                lemma_holds_at_index(s, pos + a.len(), b, k - a.len());
            }
        }
        assert(s.subrange(pos, pos + (a + b).len()) =~= a + b);
    }
}

/// What stands between two positions stands there.
pub proof fn lemma_holds_at_subrange(s: Seq<u8>, from: int, to: int)
    requires
        0 <= from <= to <= s.len(),
    ensures
        holds_at(s, from, s.subrange(from, to)),
{
}

/// A number that stands at a position in its shortest encoding is the
/// number that is read there.
pub proof fn lemma_num_read_back(f: Family, v: nat, s: Seq<u8>, pos: int)
    requires
        v <= u32::MAX,
        holds_at(s, pos, wire_num(f, v)),
    ensures
        parse_num(f, s, pos) == Some((v, pos + wire_num(f, v).len())),
{
    reveal(wire_num);
    reveal(parse_num);
    let w = wire_num(f, v);
    lemma_holds_at_index(s, pos, w, 0);
    if v < f.fix_limit() {
    } else if f.has_short() && v < 0x100 {
        lemma_holds_at_index(s, pos, w, 1);
    } else if v < 0x1_0000 {
        lemma_holds_at_index(s, pos, w, 1);
        lemma_holds_at_index(s, pos, w, 2);
    } else {
        lemma_holds_at_index(s, pos, w, 1);
        lemma_holds_at_index(s, pos, w, 2);
        lemma_holds_at_index(s, pos, w, 3);
        lemma_holds_at_index(s, pos, w, 4);
    }
}

/// An encoded number takes at least one byte and at most five, and an
/// array header never begins like nil.
pub proof fn lemma_num_shape(f: Family, v: nat)
    ensures
        1 <= wire_num(f, v).len() <= 5,
        f == Family::Array ==> wire_num(f, v)[0] != NIL,
{
    reveal(wire_num);
}

/// Two bytes are the digits of the number they make in base 256.
proof fn lemma_pair_digits(a: u8, b: u8)
    ensures
        (a * 0x100 + b) / 0x100 == a,
        (a * 0x100 + b) % 0x100 == b,
{
}

/// Four bytes are the digits of the number they make in base 256, and the
/// number fits in 32 bits.
proof fn lemma_quad_digits(a: u8, b: u8, c: u8, d: u8)
    ensures
        ({
            let v = a * 0x100_0000 + b * 0x1_0000 + c * 0x100 + d;
            &&& v / 0x100_0000 == a
            &&& (v / 0x1_0000) % 0x100 == b
            &&& (v / 0x100) % 0x100 == c
            &&& v % 0x100 == d
            &&& v <= u32::MAX
        }),
{
}

/// A number that is read at a position stands there in its shortest
/// encoding, and fits in 32 bits.
pub proof fn lemma_num_was_written(f: Family, s: Seq<u8>, pos: int)
    requires
        parse_num(f, s, pos).is_some(),
    ensures
        ({
            let (v, end) = parse_num(f, s, pos)->Some_0;
            &&& v <= u32::MAX
            &&& end == pos + wire_num(f, v).len()
            &&& holds_at(s, pos, wire_num(f, v))
        }),
{
    reveal(wire_num);
    reveal(parse_num);
    let (v, end) = parse_num(f, s, pos)->Some_0;
    let first = s[pos];
    if f.fix_base() <= first < f.fix_base() + f.fix_limit() {
        assert(wire_num(f, v) =~= seq![first]);
        assert(s.subrange(pos, pos + 1) =~= seq![first]);
    } else if f.has_short() && first == f.marker8() {
        assert(wire_num(f, v) =~= seq![first, s[pos + 1]]);
        assert(s.subrange(pos, pos + 2) =~= seq![first, s[pos + 1]]);
    } else if first == f.marker16() {
        lemma_pair_digits(s[pos + 1], s[pos + 2]);
        assert(wire_num(f, v) =~= seq![first, s[pos + 1], s[pos + 2]]);
        assert(s.subrange(pos, pos + 3) =~= seq![first, s[pos + 1], s[pos + 2]]);
    } else {
        lemma_quad_digits(s[pos + 1], s[pos + 2], s[pos + 3], s[pos + 4]);
        assert(v >= 0x1_0000);
        assert(wire_num(f, v) =~= seq![first, s[pos + 1], s[pos + 2], s[pos + 3], s[pos + 4]]);
        assert(s.subrange(pos, pos + 5) =~= seq![
            first,
            s[pos + 1],
            s[pos + 2],
            s[pos + 3],
            s[pos + 4],
        ]);
    }
}

/// A boolean that stands at a position is the one that is read there.
pub proof fn lemma_bool_read_back(b: bool, s: Seq<u8>, pos: int)
    requires
        holds_at(s, pos, wire_bool(b)),
    ensures
        parse_bool(s, pos) == Some((b, pos + 1)),
{
    lemma_holds_at_index(s, pos, wire_bool(b), 0);
}

/// A boolean that is read at a position stands there.
pub proof fn lemma_bool_was_written(s: Seq<u8>, pos: int)
    requires
        parse_bool(s, pos).is_some(),
    ensures
        ({
            let (b, end) = parse_bool(s, pos)->Some_0;
            end == pos + 1 && holds_at(s, pos, wire_bool(b))
        }),
{
    let (b, end) = parse_bool(s, pos)->Some_0;
    assert(s.subrange(pos, pos + 1) =~= wire_bool(b));
}

/// A run of numbers that stands at a position is the run that is read
/// there.
pub proof fn lemma_nums_read_back(vs: Seq<nat>, max: nat, s: Seq<u8>, pos: int)
    requires
        max <= u32::MAX,
        all_at_most(vs, max),
        holds_at(s, pos, wire_nums(vs)),
    ensures
        parse_nums(s, pos, vs.len(), max) == Some((vs, pos + wire_nums(vs).len())),
    decreases vs.len(),
{
    if vs.len() > 0 {
        let head = wire_num(Family::Number, vs[0]);
        let tail = vs.skip(1);
        lemma_holds_at_concat(s, pos, head, wire_nums(tail));
        lemma_num_read_back(Family::Number, vs[0], s, pos);
        assert(all_at_most(tail, max)) by {
            assert forall|i: int| 0 <= i < tail.len() implies #[trigger] tail[i] <= max by {
                assert(tail[i] == vs[i + 1]);
            }
        }
        lemma_nums_read_back(tail, max, s, pos + head.len());
        assert(seq![vs[0]] + tail =~= vs);
    } else {
        assert(vs =~= Seq::empty());
    }
}

/// A run of numbers that is read at a position stands there, is as long as
/// was asked for, and holds no number above the bound.
pub proof fn lemma_nums_were_written(s: Seq<u8>, pos: int, count: nat, max: nat)
    requires
        parse_nums(s, pos, count, max).is_some(),
    ensures
        ({
            let (vs, end) = parse_nums(s, pos, count, max)->Some_0;
            &&& vs.len() == count
            &&& all_at_most(vs, max)
            &&& end == pos + wire_nums(vs).len()
            &&& holds_at(s, pos, wire_nums(vs))
        }),
    decreases count,
{
    let (vs, end) = parse_nums(s, pos, count, max)->Some_0;
    if count == 0 {
        assert(s.subrange(pos, pos) =~= wire_nums(vs));
    } else {
        let (v, next) = parse_num(Family::Number, s, pos)->Some_0;
        let (rest, _e) = parse_nums(s, next, (count - 1) as nat, max)->Some_0;
        lemma_num_was_written(Family::Number, s, pos);
        lemma_nums_were_written(s, next, (count - 1) as nat, max);
        assert(vs.skip(1) =~= rest);
        lemma_holds_at_concat(s, pos, wire_num(Family::Number, v), wire_nums(rest));
    }
}

/// The encoding of a run that is made longer by one number.
pub proof fn lemma_wire_nums_push(vs: Seq<nat>, v: nat)
    ensures
        wire_nums(vs.push(v)) == wire_nums(vs) + wire_num(Family::Number, v),
    decreases vs.len(),
{
    let longer = vs.push(v);
    if vs.len() == 0 {
        assert(longer.skip(1) =~= Seq::<nat>::empty());
        assert(longer[0] == v);
        assert(wire_nums(longer.skip(1)) =~= Seq::<u8>::empty());
        assert(wire_nums(vs) =~= Seq::<u8>::empty());
        assert(wire_nums(longer) =~= wire_num(Family::Number, v));
        assert(wire_nums(vs) + wire_num(Family::Number, v) =~= wire_num(Family::Number, v));
    } else {
        lemma_wire_nums_push(vs.skip(1), v);
        assert(longer.skip(1) =~= vs.skip(1).push(v));
        assert(wire_nums(longer) =~= wire_nums(vs) + wire_num(Family::Number, v));
    }
}

/// An array of numbers that stands at a position is the one that is read
/// there.
pub proof fn lemma_num_array_read_back(vs: Seq<nat>, max: nat, s: Seq<u8>, pos: int)
    requires
        max <= u32::MAX,
        vs.len() <= u32::MAX,
        all_at_most(vs, max),
        holds_at(s, pos, wire_num_array(vs)),
    ensures
        parse_num_array(s, pos, max) == Some((vs, pos + wire_num_array(vs).len())),
{
    let head = wire_num(Family::Array, vs.len());
    lemma_holds_at_concat(s, pos, head, wire_nums(vs));
    lemma_num_read_back(Family::Array, vs.len(), s, pos);
    lemma_nums_read_back(vs, max, s, pos + head.len());
}

/// An array of numbers that is read at a position stands there.
pub proof fn lemma_num_array_was_written(s: Seq<u8>, pos: int, max: nat)
    requires
        parse_num_array(s, pos, max).is_some(),
    ensures
        ({
            let (vs, end) = parse_num_array(s, pos, max)->Some_0;
            &&& vs.len() <= u32::MAX
            &&& all_at_most(vs, max)
            &&& end == pos + wire_num_array(vs).len()
            &&& holds_at(s, pos, wire_num_array(vs))
        }),
{
    let (count, next) = parse_num(Family::Array, s, pos)->Some_0;
    let (vs, end) = parse_nums(s, next, count, max)->Some_0;
    lemma_num_was_written(Family::Array, s, pos);
    lemma_nums_were_written(s, next, count, max);
    lemma_holds_at_concat(s, pos, wire_num(Family::Array, count), wire_nums(vs));
}

/// A text that stands at a position is the one that is read there.
pub proof fn lemma_text_read_back(bytes: Seq<u8>, s: Seq<u8>, pos: int)
    requires
        bytes.len() <= u32::MAX,
        holds_at(s, pos, wire_text(bytes)),
    ensures
        parse_text(s, pos) == Some((bytes, pos + wire_text(bytes).len())),
{
    let head = wire_num(Family::Text, bytes.len());
    lemma_holds_at_concat(s, pos, head, bytes);
    lemma_num_read_back(Family::Text, bytes.len(), s, pos);
}

/// A text that is read at a position stands there.
pub proof fn lemma_text_was_written(s: Seq<u8>, pos: int)
    requires
        parse_text(s, pos).is_some(),
    ensures
        ({
            let (bytes, end) = parse_text(s, pos)->Some_0;
            &&& bytes.len() <= u32::MAX
            &&& end == pos + wire_text(bytes).len()
            &&& holds_at(s, pos, wire_text(bytes))
        }),
{
    let (len, next) = parse_num(Family::Text, s, pos)->Some_0;
    let (bytes, end) = parse_text(s, pos)->Some_0;
    lemma_num_was_written(Family::Text, s, pos);
    lemma_holds_at_subrange(s, next, next + len);
    lemma_holds_at_concat(s, pos, wire_num(Family::Text, len), bytes);
}

} // verus!
