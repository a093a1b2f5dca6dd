//! Reading the transport: each function reads one value at a position of a
//! buffer and says where the value ends, or finds that none begins there.

use vstd::prelude::*;
use vstd::utf8::{decode_utf8, valid_utf8};
use crate::area::DecodeArea;
use crate::encode::outcome_view;
use crate::image::{
    narrow_values, wide_values, ComponentInfo, ImageFormat, ImagePixelData, J2KImage, PixelsView,
};
use crate::image_layout::{
    is_err_tag, is_ok_tag, named_format, narrow_suffix, parse_component, parse_component_array,
    parse_components, parse_format, parse_image, parse_image_tail, parse_outcome, parse_pixels,
    wide_suffix, ImageTail,
};
use crate::layout::{
    lemma_narrow_values_bytes, parse_area, parse_opt_area, parse_opt_params, parse_params,
    parse_request,
};
use crate::msgpack::{
    holds_at, lemma_num_array_was_written, parse_bool, parse_num, parse_num_array, parse_nums,
    parse_text, Family, FALSE, MAP_OF_ONE, NIL, TRUE,
};
use crate::request::{DecodeImageRequest, DecodeParameters};

verus! {

/// Reads a number of the given family.
pub fn read_num(buf: &[u8], pos: usize, f: Family) -> (res: Option<(u32, usize)>)
    ensures
        match res {
            Some((v, end)) => parse_num(f, buf@, pos as int) == Some((v as nat, end as int)),
            None => parse_num(f, buf@, pos as int).is_none(),
        },
        res matches Some((_, end)) ==> pos < end <= buf@.len(),
{
    reveal(parse_num);
    let len = buf.len();
    if pos >= len {
        return None;
    }
    let b = buf[pos];
    let (base, limit, short) = match f {
        Family::Number => (0x00u8, 128u8, true),
        Family::Text => (0xa0u8, 32u8, true),
        Family::Array => (0x90u8, 16u8, false),
    };
    let (m8, m16, m32) = match f {
        Family::Number => (0xccu8, 0xcdu8, 0xceu8),
        Family::Text => (0xd9u8, 0xdau8, 0xdbu8),
        Family::Array => (0xc1u8, 0xdcu8, 0xddu8),
    };
    if b >= base && b - base < limit {
        Some(((b - base) as u32, pos + 1))
    } else if short && b == m8 {
        if len - pos >= 2 && buf[pos + 1] >= limit {
            Some((buf[pos + 1] as u32, pos + 2))
        } else {
            None
        }
    } else if b == m16 {
        if len - pos >= 3 && (buf[pos + 1] > 0 || (!short && buf[pos + 2] >= limit)) {
            Some(((buf[pos + 1] as u32) * 0x100 + buf[pos + 2] as u32, pos + 3))
        } else {
            None
        }
    } else if b == m32 {
        if len - pos >= 5 && (buf[pos + 1] > 0 || buf[pos + 2] > 0) {
            let v: u32 = (buf[pos + 1] as u32) * 0x100_0000 + (buf[pos + 2] as u32) * 0x1_0000 + (
            buf[pos + 3] as u32) * 0x100 + buf[pos + 4] as u32;
            Some((v, pos + 5))
        } else {
            None
        }
    } else {
        None
    }
}

/// Reads a boolean.
pub fn read_bool(buf: &[u8], pos: usize) -> (res: Option<(bool, usize)>)
    ensures
        match res {
            Some((b, end)) => parse_bool(buf@, pos as int) == Some((b, end as int)),
            None => parse_bool(buf@, pos as int).is_none(),
        },
{
    if pos >= buf.len() {
        None
    } else if buf[pos] == TRUE {
        Some((true, pos + 1))
    } else if buf[pos] == FALSE {
        Some((false, pos + 1))
    } else {
        None
    }
}

/// Whether the given byte stands at `pos`.
pub fn at_byte(buf: &[u8], pos: usize, b: u8) -> (yes: bool)
    ensures
        yes == holds_at(buf@, pos as int, seq![b]),
        yes ==> pos < buf@.len() <= usize::MAX,
{
    if pos < buf.len() && buf[pos] == b {
        assert(buf@.subrange(pos as int, pos + 1) =~= seq![b]);
        true
    } else {
        proof {
            if holds_at(buf@, pos as int, seq![b]) {
                assert(buf@.subrange(pos as int, pos + 1)[0] == buf@[pos as int]);
            }
        }
        false
    }
}

/// Reads an array of 8-bit numbers.
pub fn read_narrow_array(buf: &[u8], pos: usize) -> (res: Option<(Vec<u8>, usize)>)
    ensures
        match res {
            Some((values, end)) => parse_num_array(buf@, pos as int, 0xff) == Some(
                (narrow_values(values@), end as int),
            ),
            None => parse_num_array(buf@, pos as int, 0xff).is_none(),
        },
{
    let (count, start) = match read_num(buf, pos, Family::Array) {
        Some(r) => r,
        None => { return None; },
    };
    let ghost whole = parse_nums(buf@, start as int, count as nat, 0xff);
    let mut values: Vec<u8> = Vec::new();
    let mut cur: usize = start;
    let mut i: u32 = 0;
    while i < count
        invariant
            i <= count,
            cur <= buf@.len(),
            parse_num(Family::Array, buf@, pos as int) == Some((count as nat, start as int)),
            whole == parse_nums(buf@, start as int, count as nat, 0xff),
            whole == match parse_nums(buf@, cur as int, (count - i) as nat, 0xff) {
                Some((rest, end)) => Some((narrow_values(values@) + rest, end)),
                None => None,
            },
        decreases count - i,
    {
        let (v, next) = match read_num(buf, cur, Family::Number) {
            Some(r) => r,
            None => { return None; },
        };
        if v > 0xff {
            return None;
        }
        proof {
            let ghost before = narrow_values(values@);
            let ghost tail = parse_nums(buf@, next as int, (count - i - 1) as nat, 0xff);
            if tail.is_some() {
                let (rest, end) = tail->Some_0;
                assert(before + (seq![v as nat] + rest) =~= before.push(v as nat) + rest);
            }
            assert(narrow_values(values@.push(v as u8)) =~= before.push(v as nat));
        }
        values.push(v as u8);
        cur = next;
        i = i + 1;
    }
    proof {
        assert(narrow_values(values@) + Seq::<nat>::empty() =~= narrow_values(values@));
    }
    Some((values, cur))
}

/// Reads an array of 16-bit numbers.
pub fn read_wide_array(buf: &[u8], pos: usize) -> (res: Option<(Vec<u16>, usize)>)
    ensures
        match res {
            Some((values, end)) => parse_num_array(buf@, pos as int, 0xffff) == Some(
                (wide_values(values@), end as int),
            ),
            None => parse_num_array(buf@, pos as int, 0xffff).is_none(),
        },
{
    let (count, start) = match read_num(buf, pos, Family::Array) {
        Some(r) => r,
        None => { return None; },
    };
    let ghost whole = parse_nums(buf@, start as int, count as nat, 0xffff);
    let mut values: Vec<u16> = Vec::new();
    let mut cur: usize = start;
    let mut i: u32 = 0;
    while i < count
        invariant
            i <= count,
            cur <= buf@.len(),
            parse_num(Family::Array, buf@, pos as int) == Some((count as nat, start as int)),
            whole == parse_nums(buf@, start as int, count as nat, 0xffff),
            whole == match parse_nums(buf@, cur as int, (count - i) as nat, 0xffff) {
                Some((rest, end)) => Some((wide_values(values@) + rest, end)),
                None => None,
            },
        decreases count - i,
    {
        let (v, next) = match read_num(buf, cur, Family::Number) {
            Some(r) => r,
            None => { return None; },
        };
        if v > 0xffff {
            return None;
        }
        proof {
            let ghost before = wide_values(values@);
            let ghost tail = parse_nums(buf@, next as int, (count - i - 1) as nat, 0xffff);
            if tail.is_some() {
                let (rest, end) = tail->Some_0;
                assert(before + (seq![v as nat] + rest) =~= before.push(v as nat) + rest);
            }
            assert(wide_values(values@.push(v as u16)) =~= before.push(v as nat));
        }
        values.push(v as u16);
        cur = next;
        i = i + 1;
    }
    proof {
        assert(wide_values(values@) + Seq::<nat>::empty() =~= wide_values(values@));
    }
    Some((values, cur))
}

/// Reads the bytes of a text.
pub fn read_text(buf: &[u8], pos: usize) -> (res: Option<(Vec<u8>, usize)>)
    ensures
        match res {
            Some((bytes, end)) => parse_text(buf@, pos as int) == Some((bytes@, end as int)),
            None => parse_text(buf@, pos as int).is_none(),
        },
{
    let (n, start) = match read_num(buf, pos, Family::Text) {
        Some(r) => r,
        None => { return None; },
    };
    if buf.len() - start < n as usize {
        return None;
    }
    let mut bytes: Vec<u8> = Vec::new();
    let mut i: usize = 0;
    while i < n as usize
        invariant
            i <= n,
            start + n <= buf@.len() <= usize::MAX,
            bytes@ == buf@.subrange(start as int, start + i),
        decreases n - i,
    {
        bytes.push(buf[start + i]);
        i = i + 1;
        assert(bytes@ =~= buf@.subrange(start as int, start + i));
    }
    Some((bytes, start + n as usize))
}

/// Reads a decode window.
pub fn read_area(buf: &[u8], pos: usize) -> (res: Option<(DecodeArea, usize)>)
    ensures
        match res {
            Some((a, end)) => parse_area(buf@, pos as int) == Some((a, end as int)),
            None => parse_area(buf@, pos as int).is_none(),
        },
{
    let (n, at0) = match read_num(buf, pos, Family::Array) {
        Some(r) => r,
        None => { return None; },
    };
    if n != 4 {
        return None;
    }
    let (start_x, at1) = match read_num(buf, at0, Family::Number) {
        Some(r) => r,
        None => { return None; },
    };
    let (start_y, at2) = match read_num(buf, at1, Family::Number) {
        Some(r) => r,
        None => { return None; },
    };
    let (end_x, at3) = match read_num(buf, at2, Family::Number) {
        Some(r) => r,
        None => { return None; },
    };
    let (end_y, at4) = match read_num(buf, at3, Family::Number) {
        Some(r) => r,
        None => { return None; },
    };
    Some((DecodeArea { start_x, start_y, end_x, end_y }, at4))
}

/// Reads a decode window or nil.
pub fn read_opt_area(buf: &[u8], pos: usize) -> (res: Option<(Option<DecodeArea>, usize)>)
    ensures
        match res {
            Some((a, end)) => parse_opt_area(buf@, pos as int) == Some((a, end as int)),
            None => parse_opt_area(buf@, pos as int).is_none(),
        },
{
    if at_byte(buf, pos, NIL) {
        Some((None, pos + 1))
    } else {
        match read_area(buf, pos) {
            Some((a, end)) => Some((Some(a), end)),
            None => None,
        }
    }
}

/// Reads decode parameters.
pub fn read_params(buf: &[u8], pos: usize) -> (res: Option<(DecodeParameters, usize)>)
    ensures
        match res {
            Some((p, end)) => parse_params(buf@, pos as int) == Some((p, end as int)),
            None => parse_params(buf@, pos as int).is_none(),
        },
{
    let (n, at0) = match read_num(buf, pos, Family::Array) {
        Some(r) => r,
        None => { return None; },
    };
    if n != 4 {
        return None;
    }
    let (reduce, at1) = match read_num(buf, at0, Family::Number) {
        Some(r) => r,
        None => { return None; },
    };
    let (strict, at2) = match read_bool(buf, at1) {
        Some(r) => r,
        None => { return None; },
    };
    let (layers, at3) = match read_num(buf, at2, Family::Number) {
        Some(r) => r,
        None => { return None; },
    };
    let (area, at4) = match read_opt_area(buf, at3) {
        Some(r) => r,
        None => { return None; },
    };
    Some((DecodeParameters { reduce, strict, layers, area }, at4))
}

/// Reads decode parameters or nil.
pub fn read_opt_params(buf: &[u8], pos: usize) -> (res: Option<(Option<DecodeParameters>, usize)>)
    ensures
        match res {
            Some((p, end)) => parse_opt_params(buf@, pos as int) == Some((p, end as int)),
            None => parse_opt_params(buf@, pos as int).is_none(),
        },
{
    if at_byte(buf, pos, NIL) {
        Some((None, pos + 1))
    } else {
        match read_params(buf, pos) {
            Some((p, end)) => Some((Some(p), end)),
            None => None,
        }
    }
}

/// Reads a request.
pub fn read_request(buf: &[u8], pos: usize) -> (res: Option<(DecodeImageRequest, usize)>)
    ensures
        match res {
            Some((req, end)) => parse_request(buf@, pos as int) == Some((req@, end as int)),
            None => parse_request(buf@, pos as int).is_none(),
        },
{
    let (n, at0) = match read_num(buf, pos, Family::Array) {
        Some(r) => r,
        None => { return None; },
    };
    if n != 3 {
        return None;
    }
    let (params, at1) = match read_opt_params(buf, at0) {
        Some(r) => r,
        None => { return None; },
    };
    let (only_header, at2) = match read_bool(buf, at1) {
        Some(r) => r,
        None => { return None; },
    };
    let (data, at3) = match read_narrow_array(buf, at2) {
        Some(r) => r,
        None => { return None; },
    };
    proof {
        lemma_num_array_was_written(buf@, at2 as int, 0xff);
        lemma_narrow_values_bytes(data@);
    }
    Some((DecodeImageRequest { params, only_header, data }, at3))
}

fn ends_narrow(name: &Vec<u8>, lead: usize) -> (yes: bool)
    requires
        lead <= 4,
    ensures
        yes == narrow_suffix(name@, lead as int),
{
    name.len() == lead + 1 && name[lead] == 0x38
}

fn ends_wide(name: &Vec<u8>, lead: usize) -> (yes: bool)
    requires
        lead <= 4,
    ensures
        yes == wide_suffix(name@, lead as int),
{
    name.len() == lead + 2 && name[lead] == 0x31 && name[lead + 1] == 0x36
}

/// The layout that a name stands for.
pub fn format_named(name: &Vec<u8>) -> (format: Option<ImageFormat>)
    ensures
        format == named_format(name@),
{
    if name.len() >= 2 && name[0] == 0x4c {
        if ends_narrow(name, 1) {
            Some(ImageFormat::L8)
        } else if ends_wide(name, 1) {
            Some(ImageFormat::L16)
        } else if name[1] == 0x61 && ends_narrow(name, 2) {
            Some(ImageFormat::La8)
        } else if name[1] == 0x61 && ends_wide(name, 2) {
            Some(ImageFormat::La16)
        } else {
            None
        }
    } else if name.len() >= 4 && name[0] == 0x52 && name[1] == 0x67 && name[2] == 0x62 {
        if ends_narrow(name, 3) {
            Some(ImageFormat::Rgb8)
        } else if ends_wide(name, 3) {
            Some(ImageFormat::Rgb16)
        } else if name[3] == 0x61 && ends_narrow(name, 4) {
            Some(ImageFormat::Rgba8)
        } else if name[3] == 0x61 && ends_wide(name, 4) {
            Some(ImageFormat::Rgba16)
        } else {
            None
        }
    } else {
        None
    }
}

/// Reads a layout.
pub fn read_format(buf: &[u8], pos: usize) -> (res: Option<(ImageFormat, usize)>)
    ensures
        match res {
            Some((f, end)) => parse_format(buf@, pos as int) == Some((f, end as int)),
            None => parse_format(buf@, pos as int).is_none(),
        },
{
    let (name, end) = match read_text(buf, pos) {
        Some(r) => r,
        None => { return None; },
    };
    match format_named(&name) {
        Some(f) => Some((f, end)),
        None => None,
    }
}

/// The payload of an 8-bit layout that holds the given samples.
fn narrow_pixels(format: ImageFormat, samples: Vec<u8>) -> (data: ImagePixelData)
    requires
        !format.wide(),
    ensures
        data@ == (PixelsView { format, samples: narrow_values(samples@) }),
{
    match format {
        ImageFormat::L8 => ImagePixelData::L8(samples),
        ImageFormat::La8 => ImagePixelData::La8(samples),
        ImageFormat::Rgb8 => ImagePixelData::Rgb8(samples),
        _ => ImagePixelData::Rgba8(samples),
    }
}

/// The payload of a 16-bit layout that holds the given samples.
fn wide_pixels(format: ImageFormat, samples: Vec<u16>) -> (data: ImagePixelData)
    requires
        format.wide(),
    ensures
        data@ == (PixelsView { format, samples: wide_values(samples@) }),
{
    match format {
        ImageFormat::L16 => ImagePixelData::L16(samples),
        ImageFormat::La16 => ImagePixelData::La16(samples),
        ImageFormat::Rgb16 => ImagePixelData::Rgb16(samples),
        _ => ImagePixelData::Rgba16(samples),
    }
}

/// Reads a payload.
pub fn read_pixels(buf: &[u8], pos: usize) -> (res: Option<(ImagePixelData, usize)>)
    ensures
        match res {
            Some((data, end)) => parse_pixels(buf@, pos as int) == Some((data@, end as int)),
            None => parse_pixels(buf@, pos as int).is_none(),
        },
{
    if !at_byte(buf, pos, MAP_OF_ONE) {
        return None;
    }
    let (format, start) = match read_format(buf, pos + 1) {
        Some(r) => r,
        None => { return None; },
    };
    if format.is_wide() {
        match read_wide_array(buf, start) {
            Some((samples, end)) => Some((wide_pixels(format, samples), end)),
            None => None,
        }
    } else {
        match read_narrow_array(buf, start) {
            Some((samples, end)) => Some((narrow_pixels(format, samples), end)),
            None => None,
        }
    }
}

/// Reads the metadata of a component.
pub fn read_component(buf: &[u8], pos: usize) -> (res: Option<(ComponentInfo, usize)>)
    ensures
        match res {
            Some((c, end)) => parse_component(buf@, pos as int) == Some((c, end as int)),
            None => parse_component(buf@, pos as int).is_none(),
        },
        res matches Some((_, end)) ==> pos < end <= buf@.len(),
{
    let (n, at0) = match read_num(buf, pos, Family::Array) {
        Some(r) => r,
        None => { return None; },
    };
    if n != 5 {
        return None;
    }
    let (width, at1) = match read_num(buf, at0, Family::Number) {
        Some(r) => r,
        None => { return None; },
    };
    let (height, at2) = match read_num(buf, at1, Family::Number) {
        Some(r) => r,
        None => { return None; },
    };
    let (precision, at3) = match read_num(buf, at2, Family::Number) {
        Some(r) => r,
        None => { return None; },
    };
    let (is_alpha, at4) = match read_bool(buf, at3) {
        Some(r) => r,
        None => { return None; },
    };
    let (is_signed, at5) = match read_bool(buf, at4) {
        Some(r) => r,
        None => { return None; },
    };
    Some((ComponentInfo { width, height, precision, is_alpha, is_signed }, at5))
}

/// Reads a list of components.
pub fn read_component_array(buf: &[u8], pos: usize) -> (res: Option<(Vec<ComponentInfo>, usize)>)
    ensures
        match res {
            Some((cs, end)) => parse_component_array(buf@, pos as int) == Some(
                (cs@, end as int),
            ),
            None => parse_component_array(buf@, pos as int).is_none(),
        },
{
    let (count, start) = match read_num(buf, pos, Family::Array) {
        Some(r) => r,
        None => { return None; },
    };
    let ghost whole = parse_components(buf@, start as int, count as nat);
    let mut cs: Vec<ComponentInfo> = Vec::new();
    let mut cur: usize = start;
    let mut i: u32 = 0;
    while i < count
        invariant
            i <= count,
            cur <= buf@.len(),
            parse_num(Family::Array, buf@, pos as int) == Some((count as nat, start as int)),
            whole == parse_components(buf@, start as int, count as nat),
            whole == match parse_components(buf@, cur as int, (count - i) as nat) {
                Some((rest, end)) => Some((cs@ + rest, end)),
                None => None,
            },
        decreases count - i,
    {
        let (c, next) = match read_component(buf, cur) {
            Some(r) => r,
            None => { return None; },
        };
        proof {
            let ghost tail = parse_components(buf@, next as int, (count - i - 1) as nat);
            if tail.is_some() {
                let (rest, end) = tail->Some_0;
                assert(cs@ + (seq![c] + rest) =~= cs@.push(c) + rest);
            }
        }
        cs.push(c);
        cur = next;
        i = i + 1;
    }
    proof {
        assert(cs@ + Seq::<ComponentInfo>::empty() =~= cs@);
    }
    Some((cs, cur))
}

/// The full size, the offsets and the components of a descriptor.
struct Tail {
    orig_width: u32,
    orig_height: u32,
    x_offset: u32,
    y_offset: u32,
    num_components: u32,
    components: Vec<ComponentInfo>,
}

impl View for Tail {
    type V = ImageTail;

    closed spec fn view(&self) -> ImageTail {
        ImageTail {
            orig_width: self.orig_width,
            orig_height: self.orig_height,
            x_offset: self.x_offset,
            y_offset: self.y_offset,
            num_components: self.num_components,
            components: self.components@,
        }
    }
}

/// Reads the second half of a descriptor's fields.
fn read_image_tail(buf: &[u8], pos: usize) -> (res: Option<(Tail, usize)>)
    ensures
        match res {
            Some((t, end)) => parse_image_tail(buf@, pos as int) == Some((t@, end as int)),
            None => parse_image_tail(buf@, pos as int).is_none(),
        },
{
    let (orig_width, at1) = match read_num(buf, pos, Family::Number) {
        Some(r) => r,
        None => { return None; },
    };
    let (orig_height, at2) = match read_num(buf, at1, Family::Number) {
        Some(r) => r,
        None => { return None; },
    };
    let (x_offset, at3) = match read_num(buf, at2, Family::Number) {
        Some(r) => r,
        None => { return None; },
    };
    let (y_offset, at4) = match read_num(buf, at3, Family::Number) {
        Some(r) => r,
        None => { return None; },
    };
    let (num_components, at5) = match read_num(buf, at4, Family::Number) {
        Some(r) => r,
        None => { return None; },
    };
    let (components, at6) = match read_component_array(buf, at5) {
        Some(r) => r,
        None => { return None; },
    };
    Some((Tail { orig_width, orig_height, x_offset, y_offset, num_components, components }, at6))
}

/// Reads an image descriptor.
pub fn read_image(buf: &[u8], pos: usize) -> (res: Option<(J2KImage, usize)>)
    ensures
        match res {
            Some((image, end)) => parse_image(buf@, pos as int) == Some((image@, end as int)),
            None => parse_image(buf@, pos as int).is_none(),
        },
{
    let (n, at0) = match read_num(buf, pos, Family::Array) {
        Some(r) => r,
        None => { return None; },
    };
    if n != 10 {
        return None;
    }
    let (width, at1) = match read_num(buf, at0, Family::Number) {
        Some(r) => r,
        None => { return None; },
    };
    let (height, at2) = match read_num(buf, at1, Family::Number) {
        Some(r) => r,
        None => { return None; },
    };
    let (format, at3) = match read_format(buf, at2) {
        Some(r) => r,
        None => { return None; },
    };
    let (data, at4) = match read_pixels(buf, at3) {
        Some(r) => r,
        None => { return None; },
    };
    let (tail, at5) = match read_image_tail(buf, at4) {
        Some(r) => r,
        None => { return None; },
    };
    Some(
        (
            J2KImage {
                width,
                height,
                format,
                data,
                orig_width: tail.orig_width,
                orig_height: tail.orig_height,
                x_offset: tail.x_offset,
                y_offset: tail.y_offset,
                num_components: tail.num_components,
                components: tail.components,
            },
            at5,
        ),
    )
}

/// The text that the given bytes spell in UTF-8, if they spell one.
///
/// This is `String::from_utf8` of the standard library, which gives the
/// text exactly when the bytes are valid UTF-8 and refuses them otherwise.
#[verifier::external_body]
fn text_of(bytes: Vec<u8>) -> (text: Option<String>)
    ensures
        text.is_some() == valid_utf8(bytes@),
        text matches Some(t) ==> t@ == decode_utf8(bytes@),
{
    String::from_utf8(bytes).ok()
}

fn names_ok(name: &Vec<u8>) -> (yes: bool)
    ensures
        yes == is_ok_tag(name@),
{
    name.len() == 2 && name[0] == 0x4f && name[1] == 0x6b
}

fn names_err(name: &Vec<u8>) -> (yes: bool)
    ensures
        yes == is_err_tag(name@),
{
    name.len() == 3 && name[0] == 0x45 && name[1] == 0x72 && name[2] == 0x72
}

/// Reads the outcome of a decode.
pub fn read_outcome(buf: &[u8], pos: usize) -> (res: Option<(Result<J2KImage, String>, usize)>)
    ensures
        match res {
            Some((outcome, end)) => parse_outcome(buf@, pos as int) == Some(
                (outcome_view(outcome), end as int),
            ),
            None => parse_outcome(buf@, pos as int).is_none(),
        },
{
    if !at_byte(buf, pos, MAP_OF_ONE) {
        return None;
    }
    let (tag, start) = match read_text(buf, pos + 1) {
        Some(r) => r,
        None => { return None; },
    };
    if names_ok(&tag) {
        match read_image(buf, start) {
            Some((image, end)) => Some((Ok(image), end)),
            None => None,
        }
    } else if names_err(&tag) {
        let (bytes, end) = match read_text(buf, start) {
            Some(r) => r,
            None => { return None; },
        };
        match text_of(bytes) {
            Some(message) => Some((Err(message), end)),
            None => None,
        }
    } else {
        None
    }
}

} // verus!
