//! How the requests and responses are laid out on the wire.
//!
//! A record is an array of its fields in order, an absent value is nil, a
//! layout is the text of its name, a payload is a map of one entry from
//! the name of its layout to the array of its samples, and an outcome is a
//! map of one entry from `Ok` or `Err` to what it carries. For each of
//! them `wire_*` gives the bytes of a value and `parse_*` the value that
//! begins at a position; the lemmas show that the two agree.

use vstd::prelude::*;
use crate::area::DecodeArea;
use crate::image::narrow_values;
use crate::msgpack::{
    all_at_most, holds_at, lemma_bool_read_back, lemma_bool_was_written, lemma_holds_at_concat,
    lemma_holds_at_index, lemma_num_array_read_back, lemma_num_array_was_written,
    lemma_num_read_back, lemma_num_shape, lemma_num_was_written, parse_bool, parse_num,
    parse_num_array, wire_bool, wire_num, wire_num_array, Family, NIL,
};
use crate::request::{DecodeParameters, RequestView};

verus! {

/// Where a value that was read ends; no position where none was read.
pub open spec fn end_of<T>(read: Option<(T, int)>) -> int {
    match read {
        Some((_, end)) => end,
        None => -1,
    }
}

/// The bytes of a window: an array of its four coordinates.
pub open spec fn wire_area(a: DecodeArea) -> Seq<u8> {
    wire_num(Family::Array, 4) + (wire_num(Family::Number, a.start_x as nat) + (wire_num(
        Family::Number,
        a.start_y as nat,
    ) + (wire_num(Family::Number, a.end_x as nat) + wire_num(Family::Number, a.end_y as nat))))
}

/// The window that begins at `pos`.
pub open spec fn parse_area(s: Seq<u8>, pos: int) -> Option<(DecodeArea, int)> {
    let head = parse_num(Family::Array, s, pos);
    let x0 = parse_num(Family::Number, s, end_of(head));
    let y0 = parse_num(Family::Number, s, end_of(x0));
    let x1 = parse_num(Family::Number, s, end_of(y0));
    let y1 = parse_num(Family::Number, s, end_of(x1));
    if head.is_some() && head->Some_0.0 == 4 && x0.is_some() && y0.is_some() && x1.is_some()
        && y1.is_some() {
        Some(
            (
                DecodeArea {
                    start_x: x0->Some_0.0 as u32,
                    start_y: y0->Some_0.0 as u32,
                    end_x: x1->Some_0.0 as u32,
                    end_y: y1->Some_0.0 as u32,
                },
                end_of(y1),
            ),
        )
    } else {
        None
    }
}

/// The window whose bytes stand at a position is the one that is read
/// there, and reading ends where the bytes end.
pub proof fn lemma_area_read_back(a: DecodeArea, s: Seq<u8>, pos: int)
    requires
        holds_at(s, pos, wire_area(a)),
    ensures
        parse_area(s, pos) == Some((a, pos + wire_area(a).len())),
{
    let h = wire_num(Family::Array, 4);
    let w0 = wire_num(Family::Number, a.start_x as nat);
    let w1 = wire_num(Family::Number, a.start_y as nat);
    let w2 = wire_num(Family::Number, a.end_x as nat);
    let w3 = wire_num(Family::Number, a.end_y as nat);
    lemma_holds_at_concat(s, pos, h, w0 + (w1 + (w2 + w3)));
    lemma_num_read_back(Family::Array, 4, s, pos);
    let at0 = pos + h.len();
    lemma_holds_at_concat(s, at0, w0, w1 + (w2 + w3));
    lemma_num_read_back(Family::Number, a.start_x as nat, s, at0);
    let at1 = at0 + w0.len();
    lemma_holds_at_concat(s, at1, w1, w2 + w3);
    lemma_num_read_back(Family::Number, a.start_y as nat, s, at1);
    let at2 = at1 + w1.len();
    lemma_holds_at_concat(s, at2, w2, w3);
    lemma_num_read_back(Family::Number, a.end_x as nat, s, at2);
    lemma_num_read_back(Family::Number, a.end_y as nat, s, at2 + w2.len());
}

/// The window that is read at a position stands there in its own
/// encoding, which ends where reading ends.
pub proof fn lemma_area_was_written(s: Seq<u8>, pos: int)
    requires
        parse_area(s, pos).is_some(),
    ensures
        ({
            let (a, end) = parse_area(s, pos)->Some_0;
            end == pos + wire_area(a).len() && holds_at(s, pos, wire_area(a))
        }),
{
    let (a, end) = parse_area(s, pos)->Some_0;
    let at0 = end_of(parse_num(Family::Array, s, pos));
    let at1 = end_of(parse_num(Family::Number, s, at0));
    let at2 = end_of(parse_num(Family::Number, s, at1));
    let at3 = end_of(parse_num(Family::Number, s, at2));
    lemma_num_was_written(Family::Array, s, pos);
    lemma_num_was_written(Family::Number, s, at0);
    lemma_num_was_written(Family::Number, s, at1);
    lemma_num_was_written(Family::Number, s, at2);
    lemma_num_was_written(Family::Number, s, at3);
    let h = wire_num(Family::Array, 4);
    let w0 = wire_num(Family::Number, a.start_x as nat);
    let w1 = wire_num(Family::Number, a.start_y as nat);
    let w2 = wire_num(Family::Number, a.end_x as nat);
    let w3 = wire_num(Family::Number, a.end_y as nat);
    lemma_holds_at_concat(s, at2, w2, w3);
    lemma_holds_at_concat(s, at1, w1, w2 + w3);
    lemma_holds_at_concat(s, at0, w0, w1 + (w2 + w3));
    lemma_holds_at_concat(s, pos, h, w0 + (w1 + (w2 + w3)));
}

/// The bytes of a window that may be absent.
pub open spec fn wire_opt_area(a: Option<DecodeArea>) -> Seq<u8> {
    match a {
        Some(a) => wire_area(a),
        None => seq![NIL],
    }
}

/// The window, or its absence, that begins at `pos`.
pub open spec fn parse_opt_area(s: Seq<u8>, pos: int) -> Option<(Option<DecodeArea>, int)> {
    if holds_at(s, pos, seq![NIL]) {
        Some((None, pos + 1))
    } else {
        match parse_area(s, pos) {
            Some((a, end)) => Some((Some(a), end)),
            None => None,
        }
    }
}

/// The window that may be absent whose bytes stand at a position is the one that is read
/// there, and reading ends where the bytes end.
pub proof fn lemma_opt_area_read_back(a: Option<DecodeArea>, s: Seq<u8>, pos: int)
    requires
        holds_at(s, pos, wire_opt_area(a)),
    ensures
        parse_opt_area(s, pos) == Some((a, pos + wire_opt_area(a).len())),
{
    match a {
        Some(area) => {
            lemma_area_read_back(area, s, pos);
            lemma_num_was_written(Family::Array, s, pos);
            if holds_at(s, pos, seq![NIL]) {
                lemma_holds_at_index(s, pos, seq![NIL], 0);
                lemma_num_shape(Family::Array, 4);
                lemma_holds_at_index(s, pos, wire_num(Family::Array, 4), 0);
            }
        },
        None => {},
    }
}

/// The window that may be absent that is read at a position stands there in its own
/// encoding, which ends where reading ends.
pub proof fn lemma_opt_area_was_written(s: Seq<u8>, pos: int)
    requires
        parse_opt_area(s, pos).is_some(),
    ensures
        ({
            let (a, end) = parse_opt_area(s, pos)->Some_0;
            end == pos + wire_opt_area(a).len() && holds_at(s, pos, wire_opt_area(a))
        }),
{
    if !holds_at(s, pos, seq![NIL]) {
        lemma_area_was_written(s, pos);
    }
}

/// The bytes of decode parameters: an array of the four fields.
pub open spec fn wire_params(p: DecodeParameters) -> Seq<u8> {
    wire_num(Family::Array, 4) + (wire_num(Family::Number, p.reduce as nat) + (wire_bool(p.strict)
        + (wire_num(Family::Number, p.layers as nat) + wire_opt_area(p.area))))
}

/// The decode parameters that begin at `pos`.
pub open spec fn parse_params(s: Seq<u8>, pos: int) -> Option<(DecodeParameters, int)> {
    let head = parse_num(Family::Array, s, pos);
    let reduce = parse_num(Family::Number, s, end_of(head));
    let strict = parse_bool(s, end_of(reduce));
    let layers = parse_num(Family::Number, s, end_of(strict));
    let area = parse_opt_area(s, end_of(layers));
    if head.is_some() && head->Some_0.0 == 4 && reduce.is_some() && strict.is_some()
        && layers.is_some() && area.is_some() {
        Some(
            (
                DecodeParameters {
                    reduce: reduce->Some_0.0 as u32,
                    strict: strict->Some_0.0,
                    layers: layers->Some_0.0 as u32,
                    area: area->Some_0.0,
                },
                end_of(area),
            ),
        )
    } else {
        None
    }
}

/// The parameters whose bytes stand at a position is the one that is read
/// there, and reading ends where the bytes end.
pub proof fn lemma_params_read_back(p: DecodeParameters, s: Seq<u8>, pos: int)
    requires
        holds_at(s, pos, wire_params(p)),
    ensures
        parse_params(s, pos) == Some((p, pos + wire_params(p).len())),
{
    let h = wire_num(Family::Array, 4);
    let w0 = wire_num(Family::Number, p.reduce as nat);
    let w1 = wire_bool(p.strict);
    let w2 = wire_num(Family::Number, p.layers as nat);
    let w3 = wire_opt_area(p.area);
    lemma_holds_at_concat(s, pos, h, w0 + (w1 + (w2 + w3)));
    lemma_num_read_back(Family::Array, 4, s, pos);
    let at0 = pos + h.len();
    lemma_holds_at_concat(s, at0, w0, w1 + (w2 + w3));
    lemma_num_read_back(Family::Number, p.reduce as nat, s, at0);
    let at1 = at0 + w0.len();
    lemma_holds_at_concat(s, at1, w1, w2 + w3);
    lemma_bool_read_back(p.strict, s, at1);
    let at2 = at1 + w1.len();
    lemma_holds_at_concat(s, at2, w2, w3);
    lemma_num_read_back(Family::Number, p.layers as nat, s, at2);
    lemma_opt_area_read_back(p.area, s, at2 + w2.len());
}

/// The parameters that is read at a position stands there in its own
/// encoding, which ends where reading ends.
pub proof fn lemma_params_was_written(s: Seq<u8>, pos: int)
    requires
        parse_params(s, pos).is_some(),
    ensures
        ({
            let (p, end) = parse_params(s, pos)->Some_0;
            end == pos + wire_params(p).len() && holds_at(s, pos, wire_params(p))
        }),
{
    let (p, end) = parse_params(s, pos)->Some_0;
    let at0 = end_of(parse_num(Family::Array, s, pos));
    let at1 = end_of(parse_num(Family::Number, s, at0));
    let at2 = end_of(parse_bool(s, at1));
    let at3 = end_of(parse_num(Family::Number, s, at2));
    lemma_num_was_written(Family::Array, s, pos);
    lemma_num_was_written(Family::Number, s, at0);
    lemma_bool_was_written(s, at1);
    lemma_num_was_written(Family::Number, s, at2);
    lemma_opt_area_was_written(s, at3);
    let h = wire_num(Family::Array, 4);
    let w0 = wire_num(Family::Number, p.reduce as nat);
    let w1 = wire_bool(p.strict);
    let w2 = wire_num(Family::Number, p.layers as nat);
    let w3 = wire_opt_area(p.area);
    lemma_holds_at_concat(s, at2, w2, w3);
    lemma_holds_at_concat(s, at1, w1, w2 + w3);
    lemma_holds_at_concat(s, at0, w0, w1 + (w2 + w3));
    lemma_holds_at_concat(s, pos, h, w0 + (w1 + (w2 + w3)));
}

/// The bytes of decode parameters that may be absent.
pub open spec fn wire_opt_params(p: Option<DecodeParameters>) -> Seq<u8> {
    match p {
        Some(p) => wire_params(p),
        None => seq![NIL],
    }
}

/// The decode parameters, or their absence, that begin at `pos`.
pub open spec fn parse_opt_params(s: Seq<u8>, pos: int) -> Option<(Option<DecodeParameters>, int)> {
    if holds_at(s, pos, seq![NIL]) {
        Some((None, pos + 1))
    } else {
        match parse_params(s, pos) {
            Some((p, end)) => Some((Some(p), end)),
            None => None,
        }
    }
}

/// The parameters that may be absent whose bytes stand at a position is the one that is read
/// there, and reading ends where the bytes end.
pub proof fn lemma_opt_params_read_back(p: Option<DecodeParameters>, s: Seq<u8>, pos: int)
    requires
        holds_at(s, pos, wire_opt_params(p)),
    ensures
        parse_opt_params(s, pos) == Some((p, pos + wire_opt_params(p).len())),
{
    match p {
        Some(params) => {
            lemma_params_read_back(params, s, pos);
            lemma_num_was_written(Family::Array, s, pos);
            if holds_at(s, pos, seq![NIL]) {
                lemma_holds_at_index(s, pos, seq![NIL], 0);
                lemma_num_shape(Family::Array, 4);
                lemma_holds_at_index(s, pos, wire_num(Family::Array, 4), 0);
            }
        },
        None => {},
    }
}

/// The parameters that may be absent that is read at a position stands there in its own
/// encoding, which ends where reading ends.
pub proof fn lemma_opt_params_was_written(s: Seq<u8>, pos: int)
    requires
        parse_opt_params(s, pos).is_some(),
    ensures
        ({
            let (p, end) = parse_opt_params(s, pos)->Some_0;
            end == pos + wire_opt_params(p).len() && holds_at(s, pos, wire_opt_params(p))
        }),
{
    if !holds_at(s, pos, seq![NIL]) {
        lemma_params_was_written(s, pos);
    }
}

/// A request whose image is short enough to be sent as one array.
pub open spec fn request_fits(r: RequestView) -> bool {
    r.data.len() <= u32::MAX
}

/// The bytes of a request: an array of the parameters, the header flag and
/// the image, the image an array of its bytes as numbers.
pub open spec fn wire_request(r: RequestView) -> Seq<u8> {
    wire_num(Family::Array, 3) + (wire_opt_params(r.params) + (wire_bool(r.only_header)
        + wire_num_array(narrow_values(r.data))))
}

/// The bytes that the numbers of a run stand for, where none is above 255.
pub open spec fn bytes_of(vs: Seq<nat>) -> Seq<u8> {
    Seq::new(vs.len(), |i: int| vs[i] as u8)
}

/// The request that begins at `pos`.
pub open spec fn parse_request(s: Seq<u8>, pos: int) -> Option<(RequestView, int)> {
    let head = parse_num(Family::Array, s, pos);
    let params = parse_opt_params(s, end_of(head));
    let flag = parse_bool(s, end_of(params));
    let data = parse_num_array(s, end_of(flag), 0xff);
    if head.is_some() && head->Some_0.0 == 3 && params.is_some() && flag.is_some()
        && data.is_some() {
        Some(
            (
                RequestView {
                    params: params->Some_0.0,
                    only_header: flag->Some_0.0,
                    data: bytes_of(data->Some_0.0),
                },
                end_of(data),
            ),
        )
    } else {
        None
    }
}

/// Bytes are numbers of at most 255, and come back from them.
pub proof fn lemma_narrow_values_bytes(b: Seq<u8>)
    ensures
        all_at_most(narrow_values(b), 0xff),
        bytes_of(narrow_values(b)) == b,
{
    assert(bytes_of(narrow_values(b)) =~= b);
}

/// Numbers of at most 255 come back from the bytes that they make.
pub proof fn lemma_bytes_narrow_values(vs: Seq<nat>)
    requires
        all_at_most(vs, 0xff),
    ensures
        narrow_values(bytes_of(vs)) == vs,
{
    assert(narrow_values(bytes_of(vs)) =~= vs);
}

/// The request whose bytes stand at a position is the one that is read
/// there, and reading ends where the bytes end.
pub proof fn lemma_request_read_back(r: RequestView, s: Seq<u8>, pos: int)
    requires
        request_fits(r),
        holds_at(s, pos, wire_request(r)),
    ensures
        parse_request(s, pos) == Some((r, pos + wire_request(r).len())),
{
    let h = wire_num(Family::Array, 3);
    let w0 = wire_opt_params(r.params);
    let w1 = wire_bool(r.only_header);
    let w2 = wire_num_array(narrow_values(r.data));
    lemma_holds_at_concat(s, pos, h, w0 + (w1 + w2));
    lemma_num_read_back(Family::Array, 3, s, pos);
    let at0 = pos + h.len();
    lemma_holds_at_concat(s, at0, w0, w1 + w2);
    lemma_opt_params_read_back(r.params, s, at0);
    let at1 = at0 + w0.len();
    lemma_holds_at_concat(s, at1, w1, w2);
    lemma_bool_read_back(r.only_header, s, at1);
    lemma_narrow_values_bytes(r.data);
    lemma_num_array_read_back(narrow_values(r.data), 0xff, s, at1 + w1.len());
}

/// The request that is read at a position stands there in its own
/// encoding, which ends where reading ends.
pub proof fn lemma_request_was_written(s: Seq<u8>, pos: int)
    requires
        parse_request(s, pos).is_some(),
    ensures
        ({
            let (r, end) = parse_request(s, pos)->Some_0;
            &&& request_fits(r)
            &&& end == pos + wire_request(r).len()
            &&& holds_at(s, pos, wire_request(r))
        }),
{
    let (r, end) = parse_request(s, pos)->Some_0;
    let at0 = end_of(parse_num(Family::Array, s, pos));
    let at1 = end_of(parse_opt_params(s, at0));
    let at2 = end_of(parse_bool(s, at1));
    lemma_num_was_written(Family::Array, s, pos);
    lemma_opt_params_was_written(s, at0);
    lemma_bool_was_written(s, at1);
    lemma_num_array_was_written(s, at2, 0xff);
    let vs = parse_num_array(s, at2, 0xff)->Some_0.0;
    lemma_bytes_narrow_values(vs);
    let h = wire_num(Family::Array, 3);
    let w0 = wire_opt_params(r.params);
    let w1 = wire_bool(r.only_header);
    let w2 = wire_num_array(narrow_values(r.data));
    lemma_holds_at_concat(s, at1, w1, w2);
    lemma_holds_at_concat(s, at0, w0, w1 + w2);
    lemma_holds_at_concat(s, pos, h, w0 + (w1 + w2));
}

} // verus!
