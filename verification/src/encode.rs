//! Writing the transport: each function appends the encoding of one value
//! to a buffer.

use vstd::prelude::*;
use vstd::string::StringSliceAdditionalSpecFns;
use crate::area::DecodeArea;
use crate::image::{
    narrow_values, wide_values, ComponentInfo, ImageFormat, ImagePixelData, J2KImage,
};
use crate::image_layout::{
    err_tag, format_name, image_fits, lemma_wire_components_push, ok_tag, outcome_fits,
    pixels_fit, wire_component, wire_component_array, wire_components, wire_format, wire_image,
    wire_image_tail, wire_outcome, wire_pixels, OutcomeView,
};
use crate::layout::{
    request_fits, wire_area, wire_opt_area, wire_opt_params, wire_params, wire_request,
};
use crate::msgpack::{
    lemma_wire_nums_push, wire_bool, wire_num, wire_num_array, wire_nums, wire_text, Family,
    FALSE, MAP_OF_ONE, NIL, TRUE,
};
use crate::request::{DecodeImageRequest, DecodeParameters};

verus! {

impl Family {
    fn limit(self) -> (n: u32)
        ensures
            n == self.fix_limit(),
    {
        match self {
            Family::Number => 128,
            Family::Text => 32,
            Family::Array => 16,
        }
    }

    fn base(self) -> (b: u8)
        ensures
            b == self.fix_base(),
    {
        match self {
            Family::Number => 0x00,
            Family::Text => 0xa0,
            Family::Array => 0x90,
        }
    }

    fn short(self) -> (yes: bool)
        ensures
            yes == self.has_short(),
    {
        match self {
            Family::Array => false,
            _ => true,
        }
    }

    fn byte_marker(self) -> (m: u8)
        ensures
            m == self.marker8(),
    {
        match self {
            Family::Number => 0xcc,
            Family::Text => 0xd9,
            Family::Array => 0xc1,
        }
    }

    fn pair_marker(self) -> (m: u8)
        ensures
            m == self.marker16(),
    {
        match self {
            Family::Number => 0xcd,
            Family::Text => 0xda,
            Family::Array => 0xdc,
        }
    }

    fn quad_marker(self) -> (m: u8)
        ensures
            m == self.marker32(),
    {
        match self {
            Family::Number => 0xce,
            Family::Text => 0xdb,
            Family::Array => 0xdd,
        }
    }
}

/// Appends one byte.
pub fn write_byte(out: &mut Vec<u8>, b: u8)
    ensures
        final(out)@ == old(out)@ + seq![b],
{
    out.push(b);
    assert(out@ =~= old(out)@ + seq![b]);
}

/// Appends a number of the given family in its shortest encoding.
pub fn write_num(out: &mut Vec<u8>, f: Family, v: u32)
    ensures
        final(out)@ == old(out)@ + wire_num(f, v as nat),
{
    reveal(wire_num);
    if v < f.limit() {
        out.push(f.base() + v as u8);
    } else if f.short() && v < 0x100 {
        out.push(f.byte_marker());
        out.push(v as u8);
    } else if v < 0x1_0000 {
        out.push(f.pair_marker());
        out.push((v / 0x100) as u8);
        out.push((v % 0x100) as u8);
    } else {
        out.push(f.quad_marker());
        out.push((v / 0x100_0000) as u8);
        out.push(((v / 0x1_0000) % 0x100) as u8);
        out.push(((v / 0x100) % 0x100) as u8);
        out.push((v % 0x100) as u8);
    }
    assert(out@ =~= old(out)@ + wire_num(f, v as nat));
}

/// Appends a boolean.
pub fn write_bool(out: &mut Vec<u8>, b: bool)
    ensures
        final(out)@ == old(out)@ + wire_bool(b),
{
    out.push(if b { TRUE } else { FALSE });
    assert(out@ =~= old(out)@ + wire_bool(b));
}

/// Appends an array of 8-bit numbers, unless it is too long for an array:
/// then nothing is appended and `false` comes back.
pub fn write_narrow_array(out: &mut Vec<u8>, values: &Vec<u8>) -> (done: bool)
    ensures
        done == (values@.len() <= u32::MAX),
        done ==> final(out)@ == old(out)@ + wire_num_array(narrow_values(values@)),
        !done ==> final(out)@ == old(out)@,
{
    let n = values.len();
    if n > 0xffff_ffff {
        return false;
    }
    let ghost all = narrow_values(values@);
    write_num(out, Family::Array, n as u32);
    let ghost head = out@;
    let mut i: usize = 0;
    while i < n
        invariant
            i <= n == values@.len(),
            all == narrow_values(values@),
            out@ == head + wire_nums(all.take(i as int)),
        decreases n - i,
    {
        let v = values[i];
        proof {
            lemma_wire_nums_push(all.take(i as int), v as nat);
            assert(all.take(i as int).push(v as nat) =~= all.take(i + 1));
        }
        write_num(out, Family::Number, v as u32);
        i = i + 1;
        assert(out@ =~= head + wire_nums(all.take(i as int)));
    }
    proof {
        assert(all.take(n as int) =~= all);
        assert(out@ =~= old(out)@ + wire_num_array(all));
    }
    true
}

/// Appends an array of 16-bit numbers, unless it is too long for an array:
/// then nothing is appended and `false` comes back.
pub fn write_wide_array(out: &mut Vec<u8>, values: &Vec<u16>) -> (done: bool)
    ensures
        done == (values@.len() <= u32::MAX),
        done ==> final(out)@ == old(out)@ + wire_num_array(wide_values(values@)),
        !done ==> final(out)@ == old(out)@,
{
    let n = values.len();
    if n > 0xffff_ffff {
        return false;
    }
    let ghost all = wide_values(values@);
    write_num(out, Family::Array, n as u32);
    let ghost head = out@;
    let mut i: usize = 0;
    while i < n
        invariant
            i <= n == values@.len(),
            all == wide_values(values@),
            out@ == head + wire_nums(all.take(i as int)),
        decreases n - i,
    {
        let v = values[i];
        proof {
            lemma_wire_nums_push(all.take(i as int), v as nat);
            assert(all.take(i as int).push(v as nat) =~= all.take(i + 1));
        }
        write_num(out, Family::Number, v as u32);
        i = i + 1;
        assert(out@ =~= head + wire_nums(all.take(i as int)));
    }
    proof {
        assert(all.take(n as int) =~= all);
        assert(out@ =~= old(out)@ + wire_num_array(all));
    }
    true
}

/// Appends a text, unless it is too long for one: then nothing is appended
/// and `false` comes back.
pub fn write_text(out: &mut Vec<u8>, bytes: &[u8]) -> (done: bool)
    ensures
        done == (bytes@.len() <= u32::MAX),
        done ==> final(out)@ == old(out)@ + wire_text(bytes@),
        !done ==> final(out)@ == old(out)@,
{
    let n = bytes.len();
    if n > 0xffff_ffff {
        return false;
    }
    write_num(out, Family::Text, n as u32);
    let ghost head = out@;
    let mut i: usize = 0;
    while i < n
        invariant
            i <= n == bytes@.len(),
            out@ == head + bytes@.take(i as int),
        decreases n - i,
    {
        out.push(bytes[i]);
        i = i + 1;
        assert(out@ =~= head + bytes@.take(i as int));
    }
    proof {
        assert(bytes@.take(n as int) =~= bytes@);
        assert(out@ =~= old(out)@ + wire_text(bytes@));
    }
    true
}

/// Appends a decode window.
pub fn write_area(out: &mut Vec<u8>, a: DecodeArea)
    ensures
        final(out)@ == old(out)@ + wire_area(a),
{
    write_num(out, Family::Array, 4);
    write_num(out, Family::Number, a.start_x);
    write_num(out, Family::Number, a.start_y);
    write_num(out, Family::Number, a.end_x);
    write_num(out, Family::Number, a.end_y);
    assert(out@ =~= old(out)@ + wire_area(a));
}

/// Appends a decode window, or nil where there is none.
pub fn write_opt_area(out: &mut Vec<u8>, a: Option<DecodeArea>)
    ensures
        final(out)@ == old(out)@ + wire_opt_area(a),
{
    match a {
        Some(area) => write_area(out, area),
        None => write_byte(out, NIL),
    }
}

/// Appends decode parameters.
pub fn write_params(out: &mut Vec<u8>, p: DecodeParameters)
    ensures
        final(out)@ == old(out)@ + wire_params(p),
{
    write_num(out, Family::Array, 4);
    write_num(out, Family::Number, p.reduce);
    write_bool(out, p.strict);
    write_num(out, Family::Number, p.layers);
    write_opt_area(out, p.area);
    assert(out@ =~= old(out)@ + wire_params(p));
}

/// Appends decode parameters, or nil where there are none.
pub fn write_opt_params(out: &mut Vec<u8>, p: Option<DecodeParameters>)
    ensures
        final(out)@ == old(out)@ + wire_opt_params(p),
{
    match p {
        Some(params) => write_params(out, params),
        None => write_byte(out, NIL),
    }
}

/// Appends a request, unless its image is too long to be sent: then
/// nothing is appended and `false` comes back.
pub fn write_request(out: &mut Vec<u8>, req: &DecodeImageRequest) -> (done: bool)
    ensures
        done == request_fits(req@),
        done ==> final(out)@ == old(out)@ + wire_request(req@),
        !done ==> final(out)@ == old(out)@,
{
    if req.data.len() > 0xffff_ffff {
        return false;
    }
    write_num(out, Family::Array, 3);
    write_opt_params(out, req.params);
    write_bool(out, req.only_header);
    let written = write_narrow_array(out, &req.data);
    assert(written);
    assert(out@ =~= old(out)@ + wire_request(req@));
    true
}

/// The name of a layout.
pub fn name_of(f: ImageFormat) -> (name: Vec<u8>)
    ensures
        name@ == format_name(f),
{
    let name = match f {
        ImageFormat::L8 => vec![0x4cu8, 0x38u8],
        ImageFormat::La8 => vec![0x4cu8, 0x61u8, 0x38u8],
        ImageFormat::Rgb8 => vec![0x52u8, 0x67u8, 0x62u8, 0x38u8],
        ImageFormat::Rgba8 => vec![0x52u8, 0x67u8, 0x62u8, 0x61u8, 0x38u8],
        ImageFormat::L16 => vec![0x4cu8, 0x31u8, 0x36u8],
        ImageFormat::La16 => vec![0x4cu8, 0x61u8, 0x31u8, 0x36u8],
        ImageFormat::Rgb16 => vec![0x52u8, 0x67u8, 0x62u8, 0x31u8, 0x36u8],
        ImageFormat::Rgba16 => vec![0x52u8, 0x67u8, 0x62u8, 0x61u8, 0x31u8, 0x36u8],
    };
    assert(name@ =~= format_name(f));
    name
}

/// Appends a layout.
pub fn write_format(out: &mut Vec<u8>, f: ImageFormat)
    ensures
        final(out)@ == old(out)@ + wire_format(f),
{
    let name = name_of(f);
    let done = write_text(out, name.as_slice());
    assert(done);
}

/// Appends a payload, unless it is too long to be sent: then nothing is
/// appended and `false` comes back.
pub fn write_pixels(out: &mut Vec<u8>, data: &ImagePixelData) -> (done: bool)
    ensures
        done == pixels_fit(data@),
        done ==> final(out)@ == old(out)@ + wire_pixels(data@),
        !done ==> final(out)@ == old(out)@,
{
    if data.len() > 0xffff_ffff {
        return false;
    }
    write_byte(out, MAP_OF_ONE);
    write_format(out, data.format());
    let written = match data {
        ImagePixelData::L8(v) => write_narrow_array(out, v),
        ImagePixelData::La8(v) => write_narrow_array(out, v),
        ImagePixelData::Rgb8(v) => write_narrow_array(out, v),
        ImagePixelData::Rgba8(v) => write_narrow_array(out, v),
        ImagePixelData::L16(v) => write_wide_array(out, v),
        ImagePixelData::La16(v) => write_wide_array(out, v),
        ImagePixelData::Rgb16(v) => write_wide_array(out, v),
        ImagePixelData::Rgba16(v) => write_wide_array(out, v),
    };
    assert(written);
    assert(out@ =~= old(out)@ + wire_pixels(data@));
    true
}

/// Appends the metadata of a component.
pub fn write_component(out: &mut Vec<u8>, c: ComponentInfo)
    ensures
        final(out)@ == old(out)@ + wire_component(c),
{
    write_num(out, Family::Array, 5);
    write_num(out, Family::Number, c.width);
    write_num(out, Family::Number, c.height);
    write_num(out, Family::Number, c.precision);
    write_bool(out, c.is_alpha);
    write_bool(out, c.is_signed);
    assert(out@ =~= old(out)@ + wire_component(c));
}

/// Appends a list of components, unless it is too long to be sent: then
/// nothing is appended and `false` comes back.
pub fn write_component_array(out: &mut Vec<u8>, cs: &Vec<ComponentInfo>) -> (done: bool)
    ensures
        done == (cs@.len() <= u32::MAX),
        done ==> final(out)@ == old(out)@ + wire_component_array(cs@),
        !done ==> final(out)@ == old(out)@,
{
    let n = cs.len();
    if n > 0xffff_ffff {
        return false;
    }
    write_num(out, Family::Array, n as u32);
    let ghost head = out@;
    let mut i: usize = 0;
    while i < n
        invariant
            i <= n == cs@.len(),
            out@ == head + wire_components(cs@.take(i as int)),
        decreases n - i,
    {
        let c = cs[i];
        proof {
            lemma_wire_components_push(cs@.take(i as int), c);
            assert(cs@.take(i as int).push(c) =~= cs@.take(i + 1));
        }
        write_component(out, c);
        i = i + 1;
        assert(out@ =~= head + wire_components(cs@.take(i as int)));
    }
    proof {
        assert(cs@.take(n as int) =~= cs@);
        assert(out@ =~= old(out)@ + wire_component_array(cs@));
    }
    true
}

/// Appends the full size, the offsets, the number of components and their
/// list, unless the list is too long to be sent: then nothing is appended
/// and `false` comes back.
fn write_image_tail(out: &mut Vec<u8>, image: &J2KImage) -> (done: bool)
    ensures
        done == (image@.components.len() <= u32::MAX),
        done ==> final(out)@ == old(out)@ + wire_image_tail(image@),
        !done ==> final(out)@ == old(out)@,
{
    if image.components.len() > 0xffff_ffff {
        return false;
    }
    write_num(out, Family::Number, image.orig_width);
    write_num(out, Family::Number, image.orig_height);
    write_num(out, Family::Number, image.x_offset);
    write_num(out, Family::Number, image.y_offset);
    write_num(out, Family::Number, image.num_components);
    let written = write_component_array(out, &image.components);
    assert(written);
    assert(out@ =~= old(out)@ + wire_image_tail(image@));
    true
}

/// Appends the header of a descriptor, its reduced size and its layout.
fn write_image_head(out: &mut Vec<u8>, image: &J2KImage)
    ensures
        final(out)@ == old(out)@ + (wire_num(Family::Array, 10) + (wire_num(
            Family::Number,
            image.width as nat,
        ) + (wire_num(Family::Number, image.height as nat) + wire_format(image.format)))),
{
    write_num(out, Family::Array, 10);
    write_num(out, Family::Number, image.width);
    write_num(out, Family::Number, image.height);
    write_format(out, image.format);
    assert(out@ =~= old(out)@ + (wire_num(Family::Array, 10) + (wire_num(
        Family::Number,
        image.width as nat,
    ) + (wire_num(Family::Number, image.height as nat) + wire_format(image.format)))));
}

/// Whether an image descriptor can be sent.
pub fn image_can_be_sent(image: &J2KImage) -> (yes: bool)
    ensures
        yes == image_fits(image@),
{
    image.data.len() <= 0xffff_ffff && image.components.len() <= 0xffff_ffff
}

/// Appends an image descriptor, unless its payload or its list of
/// components is too long to be sent: then nothing is appended and `false`
/// comes back.
pub fn write_image(out: &mut Vec<u8>, image: &J2KImage) -> (done: bool)
    ensures
        done == image_fits(image@),
        done ==> final(out)@ == old(out)@ + wire_image(image@),
        !done ==> final(out)@ == old(out)@,
{
    if !image_can_be_sent(image) {
        return false;
    }
    write_image_head(out, image);
    let ghost after_head = out@;
    let pixels_written = write_pixels(out, &image.data);
    let ghost after_pixels = out@;
    let tail_written = write_image_tail(out, image);
    proof {
        assert(pixels_written && tail_written);
        assert(after_pixels == after_head + wire_pixels(image@.data));
        assert(out@ == after_pixels + wire_image_tail(image@));
        assert(out@ =~= old(out)@ + wire_image(image@));
    }
    true
}

/// The outcome of a decode as a mathematical value.
pub open spec fn outcome_view(outcome: Result<J2KImage, String>) -> OutcomeView {
    match outcome {
        Ok(image) => Ok(image@),
        Err(message) => Err(message@),
    }
}

/// Whether the outcome of a decode can be sent.
pub fn outcome_can_be_sent(outcome: &Result<J2KImage, String>) -> (yes: bool)
    ensures
        yes == outcome_fits(outcome_view(*outcome)),
{
    match outcome {
        Ok(image) => image_can_be_sent(image),
        Err(message) => message.as_str().as_bytes().len() <= 0xffff_ffff,
    }
}

/// Appends the outcome of a decode, unless it is too long to be sent: then
/// nothing is appended and `false` comes back.
pub fn write_outcome(out: &mut Vec<u8>, outcome: &Result<J2KImage, String>) -> (done: bool)
    ensures
        done == outcome_fits(outcome_view(*outcome)),
        done ==> final(out)@ == old(out)@ + wire_outcome(outcome_view(*outcome)),
        !done ==> final(out)@ == old(out)@,
{
    if !outcome_can_be_sent(outcome) {
        return false;
    }
    write_byte(out, MAP_OF_ONE);
    match outcome {
        Ok(image) => {
            let tag: Vec<u8> = vec![0x4fu8, 0x6bu8];
            assert(tag@ =~= ok_tag());
            let tagged = write_text(out, tag.as_slice());
            let written = write_image(out, image);
            assert(tagged && written);
            assert(out@ =~= old(out)@ + wire_outcome(outcome_view(*outcome)));
        },
        Err(message) => {
            let tag: Vec<u8> = vec![0x45u8, 0x72u8, 0x72u8];
            assert(tag@ =~= err_tag());
            let tagged = write_text(out, tag.as_slice());
            let written = write_text(out, message.as_str().as_bytes());
            assert(tagged && written);
            assert(out@ =~= old(out)@ + wire_outcome(outcome_view(*outcome)));
        },
    }
    true
}

} // verus!
