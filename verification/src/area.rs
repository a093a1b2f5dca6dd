//! The decode window and its textual form.
//!
//! A window is written as up to four unsigned decimal fields separated by
//! colons: `start_x:start_y:end_x:end_y`. Trailing fields that are left out
//! count as zero, and whatever follows the fourth field is not looked at.

use vstd::prelude::*;
use vstd::string::StringSliceAdditionalSpecFns;

verus! {

/// A rectangular decode window in image coordinates.
#[derive(Debug, Clone, Copy, PartialEq, Eq, Structural)]
pub struct DecodeArea {
    pub start_x: u32,
    pub start_y: u32,
    pub end_x: u32,
    pub end_y: u32,
}

/// Why a window string was rejected: `field` is the position (from zero) of
/// the first field that is not an unsigned 32-bit decimal number.
#[derive(Debug, Clone, Copy, PartialEq, Eq, Structural)]
pub struct ParseAreaError {
    pub field: usize,
}

pub const COLON: u8 = 0x3a;

pub const PLUS: u8 = 0x2b;

pub open spec fn is_digit(b: u8) -> bool {
    0x30 <= b <= 0x39
}

pub open spec fn all_digits(s: Seq<u8>) -> bool {
    forall|i: int| 0 <= i < s.len() ==> is_digit(#[trigger] s[i])
}

/// The number that a run of decimal digits denotes.
pub open spec fn digits_value(s: Seq<u8>) -> nat
    decreases s.len(),
{
    if s.len() == 0 {
        0
    } else {
        (digits_value(s.drop_last()) * 10 + (s.last() - 0x30)) as nat
    }
}

/// A field without its optional leading plus sign.
pub open spec fn unsigned_part(s: Seq<u8>) -> Seq<u8> {
    if s.len() > 0 && s[0] == PLUS {
        s.subrange(1, s.len() as int)
    } else {
        s
    }
}

/// The value of one field: an optional `+`, then at least one digit, the
/// whole no larger than `u32::MAX`. Anything else has no value.
pub open spec fn number_value(s: Seq<u8>) -> Option<u32> {
    let d = unsigned_part(s);
    if d.len() > 0 && all_digits(d) && digits_value(d) <= u32::MAX {
        Some(digits_value(d) as u32)
    } else {
        None
    }
}

/// Where the field that begins at `start` stops: at the next colon, or at
/// the end of the text.
pub open spec fn field_end(s: Seq<u8>, start: int) -> int
    decreases s.len() - start,
{
    if start < 0 || start >= s.len() || s[start] == COLON {
        start
    } else {
        field_end(s, start + 1)
    }
}

/// Where field number `k` begins, if the text has that many fields.
pub open spec fn field_start(s: Seq<u8>, k: nat) -> Option<int>
    decreases k,
{
    if k == 0 {
        Some(0)
    } else {
        match field_start(s, (k - 1) as nat) {
            Some(p) => if field_end(s, p) < s.len() {
                Some(field_end(s, p) + 1)
            } else {
                None
            },
            None => None,
        }
    }
}

/// Field number `k` of the text, if it has that many fields.
pub open spec fn field(s: Seq<u8>, k: nat) -> Option<Seq<u8>> {
    match field_start(s, k) {
        Some(p) => Some(s.subrange(p, field_end(s, p))),
        None => None,
    }
}

/// A field that is present must be a number.
pub open spec fn field_ok(s: Seq<u8>, k: nat) -> bool {
    match field(s, k) {
        Some(f) => number_value(f).is_some(),
        None => true,
    }
}

/// The coordinate that field `k` gives: its value, or zero where the text
/// has no such field.
pub open spec fn coordinate(s: Seq<u8>, k: nat) -> u32 {
    match field(s, k) {
        Some(f) => match number_value(f) {
            Some(v) => v,
            None => 0,
        },
        None => 0,
    }
}

/// What a window string means.
pub open spec fn area_of(s: Seq<u8>) -> Result<DecodeArea, ParseAreaError> {
    if !field_ok(s, 0) {
        Err(ParseAreaError { field: 0 })
    } else if !field_ok(s, 1) {
        Err(ParseAreaError { field: 1 })
    } else if !field_ok(s, 2) {
        Err(ParseAreaError { field: 2 })
    } else if !field_ok(s, 3) {
        Err(ParseAreaError { field: 3 })
    } else {
        Ok(
            DecodeArea {
                start_x: coordinate(s, 0),
                start_y: coordinate(s, 1),
                end_x: coordinate(s, 2),
                end_y: coordinate(s, 3),
            },
        )
    }
}

/// A field ends at the first colon after its start, or at the end of the
/// text where no colon follows.
proof fn lemma_field_end_found(s: Seq<u8>, start: int, end: int)
    requires
        0 <= start <= end <= s.len(),
        forall|i: int| start <= i < end ==> s[i] != COLON,
        end == s.len() || s[end] == COLON,
    ensures
        field_end(s, start) == end,
    decreases end - start,
{
    if start < end {
        lemma_field_end_found(s, start + 1, end);
    }
}

/// A longer run of digits never denotes a smaller number.
proof fn lemma_digits_prefix(s: Seq<u8>, n: int)
    requires
        all_digits(s),
        0 <= n <= s.len(),
    ensures
        digits_value(s.subrange(0, n)) <= digits_value(s),
    decreases s.len() - n,
{
    if n == s.len() {
        assert(s.subrange(0, n) == s);
    } else {
        lemma_digits_prefix(s, n + 1);
        let longer = s.subrange(0, n + 1);
        assert(longer.drop_last() == s.subrange(0, n));
        assert(is_digit(longer.last()));
    }
}

/// The number that the digits from `from` up to `end` denote, where they are
/// digits, at least one, and the number fits.
fn read_digits(bytes: &[u8], from: usize, end: usize) -> (value: Option<u32>)
    requires
        from <= end <= bytes@.len(),
    ensures
        value == (if from < end && all_digits(bytes@.subrange(from as int, end as int))
            && digits_value(bytes@.subrange(from as int, end as int)) <= u32::MAX {
            Some(digits_value(bytes@.subrange(from as int, end as int)) as u32)
        } else {
            None
        }),
{
    let ghost d = bytes@.subrange(from as int, end as int);
    if from == end {
        return None;
    }
    let mut acc: u64 = 0;
    let mut i: usize = from;
    while i < end
        invariant
            from <= i <= end <= bytes@.len(),
            d == bytes@.subrange(from as int, end as int),
            all_digits(d.subrange(0, i - from)),
            acc == digits_value(d.subrange(0, i - from)),
            acc <= u32::MAX,
        decreases end - i,
    {
        let b: u8 = bytes[i];
        if b < 0x30 || b > 0x39 {
            proof {
                assert(d[i - from] == b);
                assert(!is_digit(d[i - from]));
            }
            return None;
        }
        let next: u64 = acc * 10 + (b - 0x30) as u64;
        proof {
            let longer = d.subrange(0, i - from + 1);
            assert(longer.drop_last() == d.subrange(0, i - from));
            assert(longer.last() == b);
            assert(digits_value(longer) == next);
            assert forall|j: int| 0 <= j < longer.len() implies is_digit(#[trigger] longer[j]) by {
                if j < i - from {
                    assert(longer[j] == d.subrange(0, i - from)[j]);
                }
            }
        }
        if next > 0xffff_ffff {
            proof {
                if all_digits(d) {
                    lemma_digits_prefix(d, i - from + 1);
                }
            }
            return None;
        }
        acc = next;
        i = i + 1;
    }
    proof {
        assert(d.subrange(0, end - from) == d);
    }
    Some(acc as u32)
}

/// The value of the field that lies between `from` and `end`.
fn read_number(bytes: &[u8], from: usize, end: usize) -> (value: Option<u32>)
    requires
        from <= end <= bytes@.len(),
    ensures
        value == number_value(bytes@.subrange(from as int, end as int)),
{
    let ghost f = bytes@.subrange(from as int, end as int);
    if from < end && bytes[from] == PLUS {
        proof {
            assert(f[0] == PLUS);
            assert(unsigned_part(f) == bytes@.subrange(from + 1, end as int));
        }
        read_digits(bytes, from + 1, end)
    } else {
        proof {
            if from < end {
                assert(f[0] != PLUS);
            }
            assert(unsigned_part(f) == f);
        }
        read_digits(bytes, from, end)
    }
}

/// The end of the field that begins at `start`.
fn find_field_end(bytes: &[u8], start: usize) -> (end: usize)
    requires
        start <= bytes@.len(),
    ensures
        end == field_end(bytes@, start as int),
        start <= end <= bytes@.len(),
{
    let mut i: usize = start;
    while i < bytes.len() && bytes[i] != COLON
        invariant
            start <= i <= bytes@.len(),
            forall|j: int| start <= j < i ==> bytes@[j] != COLON,
        decreases bytes@.len() - i,
    {
        i = i + 1;
    }
    proof {
        lemma_field_end_found(bytes@, start as int, i as int);
    }
    i
}

/// Reads field number `k`, which begins at `start` if the text has it, and
/// says where the next field begins.
fn read_field(bytes: &[u8], start: Option<usize>, Ghost(k): Ghost<nat>) -> (out: (
    Option<u32>,
    Option<usize>,
))
    requires
        match start {
            Some(p) => p <= bytes@.len() && field_start(bytes@, k) == Some(p as int),
            None => field_start(bytes@, k).is_none(),
        },
    ensures
        out.0.is_some() == field_ok(bytes@, k),
        out.0.is_some() ==> out.0 == Some(coordinate(bytes@, k)),
        match out.1 {
            Some(p) => p <= bytes@.len() && field_start(bytes@, k + 1) == Some(p as int),
            None => field_start(bytes@, k + 1).is_none(),
        },
{
    match start {
        None => (Some(0), None),
        Some(p) => {
            let end = find_field_end(bytes, p);
            let value = read_number(bytes, p, end);
            let next = if end < bytes.len() {
                Some(end + 1)
            } else {
                None
            };
            (value, next)
        },
    }
}

impl DecodeArea {
    /// A window with the given corners.
    pub fn new(start_x: u32, start_y: u32, end_x: u32, end_y: u32) -> (area: Self)
        ensures
            area == (DecodeArea { start_x, start_y, end_x, end_y }),
    {
        DecodeArea { start_x, start_y, end_x, end_y }
    }

    /// The window's end lies at or beyond its start on both axes. Reading
    /// a window from text does not ask for this.
    pub open spec fn ordered(&self) -> bool {
        self.start_x <= self.end_x && self.start_y <= self.end_y
    }

    /// Whether the window's end lies at or beyond its start on both axes.
    pub fn is_ordered(&self) -> (yes: bool)
        ensures
            yes == self.ordered(),
    {
        self.start_x <= self.end_x && self.start_y <= self.end_y
    }

    /// Reads a window from the bytes of its textual form.
    pub fn parse_bytes(bytes: &[u8]) -> (res: Result<DecodeArea, ParseAreaError>)
        ensures
            res == area_of(bytes@),
    {
        let (v0, at1) = read_field(bytes, Some(0), Ghost(0));
        let start_x = match v0 {
            Some(v) => v,
            None => { return Err(ParseAreaError { field: 0 }); },
        };
        let (v1, at2) = read_field(bytes, at1, Ghost(1));
        let start_y = match v1 {
            Some(v) => v,
            None => { return Err(ParseAreaError { field: 1 }); },
        };
        let (v2, at3) = read_field(bytes, at2, Ghost(2));
        let end_x = match v2 {
            Some(v) => v,
            None => { return Err(ParseAreaError { field: 2 }); },
        };
        let (v3, _p4) = read_field(bytes, at3, Ghost(3));
        let end_y = match v3 {
            Some(v) => v,
            None => { return Err(ParseAreaError { field: 3 }); },
        };
        Ok(DecodeArea { start_x, start_y, end_x, end_y })
    }

    /// Reads a window from its textual form, `start_x:start_y:end_x:end_y`.
    pub fn parse(s: &str) -> (res: Result<DecodeArea, ParseAreaError>)
        ensures
            res == area_of(s.spec_bytes()),
    {
        DecodeArea::parse_bytes(s.as_bytes())
    }
}

impl Default for DecodeArea {
    fn default() -> (area: Self)
        ensures
            area == (DecodeArea { start_x: 0, start_y: 0, end_x: 0, end_y: 0 }),
    {
        DecodeArea { start_x: 0, start_y: 0, end_x: 0, end_y: 0 }
    }
}

impl std::str::FromStr for DecodeArea {
    type Err = ParseAreaError;

    /// Reads a window from its textual form, as [`DecodeArea::parse`] does.
    fn from_str(s: &str) -> (res: Result<Self, Self::Err>)
        ensures
            res == area_of(s.spec_bytes()),
    {
        DecodeArea::parse(s)
    }
}

} // verus!
