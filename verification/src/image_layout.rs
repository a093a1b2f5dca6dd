//! How image descriptors and the outcomes of a decode are laid out on the
//! wire, in the manner of the request layout.

use vstd::prelude::*;
use vstd::utf8::{
    decode_utf8, decode_utf8_encode_utf8, encode_utf8, encode_utf8_decode_utf8,
    encode_utf8_valid_utf8, valid_utf8,
};
use crate::image::{ComponentInfo, ImageFormat, ImageView, PixelsView};
use crate::layout::end_of;
use crate::msgpack::{
    all_at_most, holds_at, lemma_bool_read_back, lemma_bool_was_written, lemma_holds_at_concat,
    lemma_holds_at_index, lemma_num_array_read_back, lemma_num_array_was_written,
    lemma_num_read_back, lemma_num_was_written, lemma_text_read_back, lemma_text_was_written,
    parse_bool, parse_num, parse_num_array, parse_text, wire_bool, wire_num, wire_num_array,
    wire_text, Family, MAP_OF_ONE,
};

verus! {

/// The name of a layout, in ASCII.
pub open spec fn format_name(f: ImageFormat) -> Seq<u8> {
    match f {
        ImageFormat::L8 => seq![0x4c, 0x38],
        ImageFormat::La8 => seq![0x4c, 0x61, 0x38],
        ImageFormat::Rgb8 => seq![0x52, 0x67, 0x62, 0x38],
        ImageFormat::Rgba8 => seq![0x52, 0x67, 0x62, 0x61, 0x38],
        ImageFormat::L16 => seq![0x4c, 0x31, 0x36],
        ImageFormat::La16 => seq![0x4c, 0x61, 0x31, 0x36],
        ImageFormat::Rgb16 => seq![0x52, 0x67, 0x62, 0x31, 0x36],
        ImageFormat::Rgba16 => seq![0x52, 0x67, 0x62, 0x61, 0x31, 0x36],
    }
}

/// Whether a name ends in `8` after its first `lead` bytes.
pub open spec fn narrow_suffix(name: Seq<u8>, lead: int) -> bool {
    name.len() == lead + 1 && name[lead] == 0x38
}

/// Whether a name ends in `16` after its first `lead` bytes.
pub open spec fn wide_suffix(name: Seq<u8>, lead: int) -> bool {
    name.len() == lead + 2 && name[lead] == 0x31 && name[lead + 1] == 0x36
}

/// The layout that a name stands for.
pub open spec fn named_format(name: Seq<u8>) -> Option<ImageFormat> {
    if name.len() >= 2 && name[0] == 0x4c {
        if narrow_suffix(name, 1) {
            Some(ImageFormat::L8)
        } else if wide_suffix(name, 1) {
            Some(ImageFormat::L16)
        } else if name[1] == 0x61 && narrow_suffix(name, 2) {
            Some(ImageFormat::La8)
        } else if name[1] == 0x61 && wide_suffix(name, 2) {
            Some(ImageFormat::La16)
        } else {
            None
        }
    } else if name.len() >= 4 && name[0] == 0x52 && name[1] == 0x67 && name[2] == 0x62 {
        if narrow_suffix(name, 3) {
            Some(ImageFormat::Rgb8)
        } else if wide_suffix(name, 3) {
            Some(ImageFormat::Rgb16)
        } else if name[3] == 0x61 && narrow_suffix(name, 4) {
            Some(ImageFormat::Rgba8)
        } else if name[3] == 0x61 && wide_suffix(name, 4) {
            Some(ImageFormat::Rgba16)
        } else {
            None
        }
    } else {
        None
    }
}

/// Every layout is the one that its name stands for.
pub proof fn lemma_name_of_format(f: ImageFormat)
    ensures
        named_format(format_name(f)) == Some(f),
        format_name(f).len() <= 6,
{
}

/// A name that stands for a layout is the name of that layout.
pub proof fn lemma_format_of_name(name: Seq<u8>)
    requires
        named_format(name).is_some(),
    ensures
        format_name(named_format(name)->Some_0) == name,
{
    assert(format_name(named_format(name)->Some_0) =~= name);
}

/// The bytes of a layout: the text of its name.
pub open spec fn wire_format(f: ImageFormat) -> Seq<u8> {
    wire_text(format_name(f))
}

/// The layout whose name begins at `pos`.
pub open spec fn parse_format(s: Seq<u8>, pos: int) -> Option<(ImageFormat, int)> {
    match parse_text(s, pos) {
        Some((name, end)) => match named_format(name) {
            Some(f) => Some((f, end)),
            None => None,
        },
        None => None,
    }
}

/// The layout whose bytes stand at a position is the one that is read
/// there, and reading ends where the bytes end.
pub proof fn lemma_format_read_back(f: ImageFormat, s: Seq<u8>, pos: int)
    requires
        holds_at(s, pos, wire_format(f)),
    ensures
        parse_format(s, pos) == Some((f, pos + wire_format(f).len())),
{
    lemma_name_of_format(f);
    lemma_text_read_back(format_name(f), s, pos);
}

/// The layout that is read at a position stands there in its own
/// encoding, which ends where reading ends.
pub proof fn lemma_format_was_written(s: Seq<u8>, pos: int)
    requires
        parse_format(s, pos).is_some(),
    ensures
        ({
            let (f, end) = parse_format(s, pos)->Some_0;
            end == pos + wire_format(f).len() && holds_at(s, pos, wire_format(f))
        }),
{
    lemma_text_was_written(s, pos);
    lemma_format_of_name(parse_text(s, pos)->Some_0.0);
}

/// A payload that can be sent: it is short enough for one array, and none
/// of its samples is larger than its layout allows.
pub open spec fn pixels_fit(p: PixelsView) -> bool {
    p.samples.len() <= u32::MAX && all_at_most(p.samples, p.format.sample_max())
}

/// The bytes of a payload: a map of one entry, from the name of the layout
/// to the array of the samples.
pub open spec fn wire_pixels(p: PixelsView) -> Seq<u8> {
    seq![MAP_OF_ONE] + (wire_format(p.format) + wire_num_array(p.samples))
}

/// The payload that begins at `pos`.
pub open spec fn parse_pixels(s: Seq<u8>, pos: int) -> Option<(PixelsView, int)> {
    let format = parse_format(s, pos + 1);
    if holds_at(s, pos, seq![MAP_OF_ONE]) && format.is_some() {
        match parse_num_array(s, end_of(format), format->Some_0.0.sample_max()) {
            Some((samples, end)) => Some((PixelsView { format: format->Some_0.0, samples }, end)),
            None => None,
        }
    } else {
        None
    }
}

/// The payload whose bytes stand at a position is the one that is read
/// there, and reading ends where the bytes end.
pub proof fn lemma_pixels_read_back(p: PixelsView, s: Seq<u8>, pos: int)
    requires
        pixels_fit(p),
        holds_at(s, pos, wire_pixels(p)),
    ensures
        parse_pixels(s, pos) == Some((p, pos + wire_pixels(p).len())),
{
    let w0 = wire_format(p.format);
    let w1 = wire_num_array(p.samples);
    lemma_holds_at_concat(s, pos, seq![MAP_OF_ONE], w0 + w1);
    lemma_holds_at_concat(s, pos + 1, w0, w1);
    lemma_format_read_back(p.format, s, pos + 1);
    lemma_num_array_read_back(p.samples, p.format.sample_max(), s, pos + 1 + w0.len());
}

/// The payload that is read at a position stands there in its own
/// encoding, which ends where reading ends.
pub proof fn lemma_pixels_were_written(s: Seq<u8>, pos: int)
    requires
        parse_pixels(s, pos).is_some(),
    ensures
        ({
            let (p, end) = parse_pixels(s, pos)->Some_0;
            &&& pixels_fit(p)
            &&& end == pos + wire_pixels(p).len()
            &&& holds_at(s, pos, wire_pixels(p))
        }),
{
    let (p, end) = parse_pixels(s, pos)->Some_0;
    let at1 = end_of(parse_format(s, pos + 1));
    lemma_format_was_written(s, pos + 1);
    lemma_num_array_was_written(s, at1, p.format.sample_max());
    let w0 = wire_format(p.format);
    let w1 = wire_num_array(p.samples);
    lemma_holds_at_concat(s, pos + 1, w0, w1);
    lemma_holds_at_concat(s, pos, seq![MAP_OF_ONE], w0 + w1);
}

/// The bytes of a component's metadata: an array of the five fields.
pub open spec fn wire_component(c: ComponentInfo) -> Seq<u8> {
    wire_num(Family::Array, 5) + (wire_num(Family::Number, c.width as nat) + (wire_num(
        Family::Number,
        c.height as nat,
    ) + (wire_num(Family::Number, c.precision as nat) + (wire_bool(c.is_alpha) + wire_bool(
        c.is_signed,
    )))))
}

/// The component metadata that begins at `pos`.
pub open spec fn parse_component(s: Seq<u8>, pos: int) -> Option<(ComponentInfo, int)> {
    let head = parse_num(Family::Array, s, pos);
    let width = parse_num(Family::Number, s, end_of(head));
    let height = parse_num(Family::Number, s, end_of(width));
    let precision = parse_num(Family::Number, s, end_of(height));
    let alpha = parse_bool(s, end_of(precision));
    let signed = parse_bool(s, end_of(alpha));
    if head.is_some() && head->Some_0.0 == 5 && width.is_some() && height.is_some()
        && precision.is_some() && alpha.is_some() && signed.is_some() {
        Some(
            (
                ComponentInfo {
                    width: width->Some_0.0 as u32,
                    height: height->Some_0.0 as u32,
                    precision: precision->Some_0.0 as u32,
                    is_alpha: alpha->Some_0.0,
                    is_signed: signed->Some_0.0,
                },
                end_of(signed),
            ),
        )
    } else {
        None
    }
}

/// The component whose bytes stand at a position is the one that is read
/// there, and reading ends where the bytes end.
pub proof fn lemma_component_read_back(c: ComponentInfo, s: Seq<u8>, pos: int)
    requires
        holds_at(s, pos, wire_component(c)),
    ensures
        parse_component(s, pos) == Some((c, pos + wire_component(c).len())),
{
    let h = wire_num(Family::Array, 5);
    let w0 = wire_num(Family::Number, c.width as nat);
    let w1 = wire_num(Family::Number, c.height as nat);
    let w2 = wire_num(Family::Number, c.precision as nat);
    let w3 = wire_bool(c.is_alpha);
    let w4 = wire_bool(c.is_signed);
    lemma_holds_at_concat(s, pos, h, w0 + (w1 + (w2 + (w3 + w4))));
    lemma_num_read_back(Family::Array, 5, s, pos);
    let at0 = pos + h.len();
    lemma_holds_at_concat(s, at0, w0, w1 + (w2 + (w3 + w4)));
    lemma_num_read_back(Family::Number, c.width as nat, s, at0);
    let at1 = at0 + w0.len();
    lemma_holds_at_concat(s, at1, w1, w2 + (w3 + w4));
    lemma_num_read_back(Family::Number, c.height as nat, s, at1);
    let at2 = at1 + w1.len();
    lemma_holds_at_concat(s, at2, w2, w3 + w4);
    lemma_num_read_back(Family::Number, c.precision as nat, s, at2);
    let at3 = at2 + w2.len();
    lemma_holds_at_concat(s, at3, w3, w4);
    lemma_bool_read_back(c.is_alpha, s, at3);
    lemma_bool_read_back(c.is_signed, s, at3 + 1);
}

/// The component that is read at a position stands there in its own
/// encoding, which ends where reading ends.
pub proof fn lemma_component_was_written(s: Seq<u8>, pos: int)
    requires
        parse_component(s, pos).is_some(),
    ensures
        ({
            let (c, end) = parse_component(s, pos)->Some_0;
            end == pos + wire_component(c).len() && holds_at(s, pos, wire_component(c))
        }),
{
    let (c, end) = parse_component(s, pos)->Some_0;
    let at0 = end_of(parse_num(Family::Array, s, pos));
    let at1 = end_of(parse_num(Family::Number, s, at0));
    let at2 = end_of(parse_num(Family::Number, s, at1));
    let at3 = end_of(parse_num(Family::Number, s, at2));
    let at4 = end_of(parse_bool(s, at3));
    lemma_num_was_written(Family::Array, s, pos);
    lemma_num_was_written(Family::Number, s, at0);
    lemma_num_was_written(Family::Number, s, at1);
    lemma_num_was_written(Family::Number, s, at2);
    lemma_bool_was_written(s, at3);
    lemma_bool_was_written(s, at4);
    let h = wire_num(Family::Array, 5);
    let w0 = wire_num(Family::Number, c.width as nat);
    let w1 = wire_num(Family::Number, c.height as nat);
    let w2 = wire_num(Family::Number, c.precision as nat);
    let w3 = wire_bool(c.is_alpha);
    let w4 = wire_bool(c.is_signed);
    lemma_holds_at_concat(s, at3, w3, w4);
    lemma_holds_at_concat(s, at2, w2, w3 + w4);
    lemma_holds_at_concat(s, at1, w1, w2 + (w3 + w4));
    lemma_holds_at_concat(s, at0, w0, w1 + (w2 + (w3 + w4)));
    lemma_holds_at_concat(s, pos, h, w0 + (w1 + (w2 + (w3 + w4))));
}

/// The bytes of a run of component metadata, one after the other.
pub open spec fn wire_components(cs: Seq<ComponentInfo>) -> Seq<u8>
    decreases cs.len(),
{
    if cs.len() == 0 {
        Seq::empty()
    } else {
        wire_component(cs[0]) + wire_components(cs.skip(1))
    }
}

/// The run of `count` component metadata that begins at `pos`.
pub open spec fn parse_components(s: Seq<u8>, pos: int, count: nat) -> Option<
    (Seq<ComponentInfo>, int),
>
    decreases count,
{
    if count == 0 {
        if 0 <= pos <= s.len() {
            Some((Seq::empty(), pos))
        } else {
            None
        }
    } else {
        match parse_component(s, pos) {
            Some((c, next)) => match parse_components(s, next, (count - 1) as nat) {
                Some((rest, end)) => Some((seq![c] + rest, end)),
                None => None,
            },
            None => None,
        }
    }
}

/// The run of components whose bytes stand at a position is the one that is read
/// there, and reading ends where the bytes end.
pub proof fn lemma_components_read_back(cs: Seq<ComponentInfo>, s: Seq<u8>, pos: int)
    requires
        holds_at(s, pos, wire_components(cs)),
    ensures
        parse_components(s, pos, cs.len()) == Some((cs, pos + wire_components(cs).len())),
    decreases cs.len(),
{
    if cs.len() > 0 {
        let head = wire_component(cs[0]);
        let tail = cs.skip(1);
        lemma_holds_at_concat(s, pos, head, wire_components(tail));
        lemma_component_read_back(cs[0], s, pos);
        lemma_components_read_back(tail, s, pos + head.len());
        assert(seq![cs[0]] + tail =~= cs);
    } else {
        assert(cs =~= Seq::empty());
    }
}

/// The run of components that is read at a position stands there in its own
/// encoding, which ends where reading ends.
pub proof fn lemma_components_were_written(s: Seq<u8>, pos: int, count: nat)
    requires
        parse_components(s, pos, count).is_some(),
    ensures
        ({
            let (cs, end) = parse_components(s, pos, count)->Some_0;
            &&& cs.len() == count
            &&& end == pos + wire_components(cs).len()
            &&& holds_at(s, pos, wire_components(cs))
        }),
    decreases count,
{
    let (cs, end) = parse_components(s, pos, count)->Some_0;
    if count == 0 {
        assert(s.subrange(pos, pos) =~= wire_components(cs));
    } else {
        let (c, next) = parse_component(s, pos)->Some_0;
        let (rest, _e) = parse_components(s, next, (count - 1) as nat)->Some_0;
        lemma_component_was_written(s, pos);
        lemma_components_were_written(s, next, (count - 1) as nat);
        assert(cs.skip(1) =~= rest);
        lemma_holds_at_concat(s, pos, wire_component(c), wire_components(rest));
    }
}

/// The encoding of a run that is made longer by one component.
pub proof fn lemma_wire_components_push(cs: Seq<ComponentInfo>, c: ComponentInfo)
    ensures
        wire_components(cs.push(c)) == wire_components(cs) + wire_component(c),
    decreases cs.len(),
{
    let longer = cs.push(c);
    if cs.len() == 0 {
        assert(longer.skip(1) =~= Seq::<ComponentInfo>::empty());
        assert(longer[0] == c);
        assert(wire_components(longer.skip(1)) =~= Seq::<u8>::empty());
        assert(wire_components(cs) =~= Seq::<u8>::empty());
        assert(wire_components(longer) =~= wire_component(c));
    } else {
        lemma_wire_components_push(cs.skip(1), c);
        assert(longer.skip(1) =~= cs.skip(1).push(c));
        assert(wire_components(longer) =~= wire_components(cs) + wire_component(c));
    }
}

/// The bytes of the list of components: its length, then the components.
pub open spec fn wire_component_array(cs: Seq<ComponentInfo>) -> Seq<u8> {
    wire_num(Family::Array, cs.len()) + wire_components(cs)
}

/// The list of components that begins at `pos`.
pub open spec fn parse_component_array(s: Seq<u8>, pos: int) -> Option<(Seq<ComponentInfo>, int)> {
    match parse_num(Family::Array, s, pos) {
        Some((count, next)) => parse_components(s, next, count),
        None => None,
    }
}

/// The list of components whose bytes stand at a position is the one that is read
/// there, and reading ends where the bytes end.
pub proof fn lemma_component_array_read_back(cs: Seq<ComponentInfo>, s: Seq<u8>, pos: int)
    requires
        cs.len() <= u32::MAX,
        holds_at(s, pos, wire_component_array(cs)),
    ensures
        parse_component_array(s, pos) == Some((cs, pos + wire_component_array(cs).len())),
{
    let head = wire_num(Family::Array, cs.len());
    lemma_holds_at_concat(s, pos, head, wire_components(cs));
    lemma_num_read_back(Family::Array, cs.len(), s, pos);
    lemma_components_read_back(cs, s, pos + head.len());
}

/// The list of components that is read at a position stands there in its own
/// encoding, which ends where reading ends.
pub proof fn lemma_component_array_was_written(s: Seq<u8>, pos: int)
    requires
        parse_component_array(s, pos).is_some(),
    ensures
        ({
            let (cs, end) = parse_component_array(s, pos)->Some_0;
            &&& cs.len() <= u32::MAX
            &&& end == pos + wire_component_array(cs).len()
            &&& holds_at(s, pos, wire_component_array(cs))
        }),
{
    let (count, next) = parse_num(Family::Array, s, pos)->Some_0;
    let (cs, end) = parse_components(s, next, count)->Some_0;
    lemma_num_was_written(Family::Array, s, pos);
    lemma_components_were_written(s, next, count);
    lemma_holds_at_concat(s, pos, wire_num(Family::Array, count), wire_components(cs));
}

/// An image descriptor that can be sent: its payload can, and its list of
/// components is short enough for one array.
pub open spec fn image_fits(i: ImageView) -> bool {
    pixels_fit(i.data) && i.components.len() <= u32::MAX
}

/// The second half of a descriptor's fields: the full size, the offsets,
/// the number of components and their list.
pub open spec fn wire_image_tail(i: ImageView) -> Seq<u8> {
    wire_num(Family::Number, i.orig_width as nat) + (wire_num(
        Family::Number,
        i.orig_height as nat,
    ) + (wire_num(Family::Number, i.x_offset as nat) + (wire_num(
        Family::Number,
        i.y_offset as nat,
    ) + (wire_num(Family::Number, i.num_components as nat) + wire_component_array(
        i.components,
    )))))
}

/// The bytes of an image descriptor: an array of its ten fields.
pub open spec fn wire_image(i: ImageView) -> Seq<u8> {
    wire_num(Family::Array, 10) + (wire_num(Family::Number, i.width as nat) + (wire_num(
        Family::Number,
        i.height as nat,
    ) + (wire_format(i.format) + (wire_pixels(i.data) + wire_image_tail(i)))))
}

/// What the second half of a descriptor's fields holds.
pub ghost struct ImageTail {
    pub orig_width: u32,
    pub orig_height: u32,
    pub x_offset: u32,
    pub y_offset: u32,
    pub num_components: u32,
    pub components: Seq<ComponentInfo>,
}

/// The second half of a descriptor's fields.
pub open spec fn tail_of(i: ImageView) -> ImageTail {
    ImageTail {
        orig_width: i.orig_width,
        orig_height: i.orig_height,
        x_offset: i.x_offset,
        y_offset: i.y_offset,
        num_components: i.num_components,
        components: i.components,
    }
}

/// The second half of a descriptor's fields that begins at `pos`.
pub open spec fn parse_image_tail(s: Seq<u8>, pos: int) -> Option<(ImageTail, int)> {
    let orig_width = parse_num(Family::Number, s, pos);
    let orig_height = parse_num(Family::Number, s, end_of(orig_width));
    let x_offset = parse_num(Family::Number, s, end_of(orig_height));
    let y_offset = parse_num(Family::Number, s, end_of(x_offset));
    let count = parse_num(Family::Number, s, end_of(y_offset));
    let components = parse_component_array(s, end_of(count));
    if orig_width.is_some() && orig_height.is_some() && x_offset.is_some() && y_offset.is_some()
        && count.is_some() && components.is_some() {
        Some(
            (
                ImageTail {
                    orig_width: orig_width->Some_0.0 as u32,
                    orig_height: orig_height->Some_0.0 as u32,
                    x_offset: x_offset->Some_0.0 as u32,
                    y_offset: y_offset->Some_0.0 as u32,
                    num_components: count->Some_0.0 as u32,
                    components: components->Some_0.0,
                },
                end_of(components),
            ),
        )
    } else {
        None
    }
}

/// The image descriptor that begins at `pos`.
pub open spec fn parse_image(s: Seq<u8>, pos: int) -> Option<(ImageView, int)> {
    let head = parse_num(Family::Array, s, pos);
    let width = parse_num(Family::Number, s, end_of(head));
    let height = parse_num(Family::Number, s, end_of(width));
    let format = parse_format(s, end_of(height));
    let data = parse_pixels(s, end_of(format));
    let tail = parse_image_tail(s, end_of(data));
    if head.is_some() && head->Some_0.0 == 10 && width.is_some() && height.is_some()
        && format.is_some() && data.is_some() && tail.is_some() {
        let t = tail->Some_0.0;
        Some(
            (
                ImageView {
                    width: width->Some_0.0 as u32,
                    height: height->Some_0.0 as u32,
                    format: format->Some_0.0,
                    data: data->Some_0.0,
                    orig_width: t.orig_width,
                    orig_height: t.orig_height,
                    x_offset: t.x_offset,
                    y_offset: t.y_offset,
                    num_components: t.num_components,
                    components: t.components,
                },
                end_of(tail),
            ),
        )
    } else {
        None
    }
}

/// The second half of a descriptor whose bytes stand at a position is the one that is read
/// there, and reading ends where the bytes end.
pub proof fn lemma_image_tail_read_back(i: ImageView, s: Seq<u8>, pos: int)
    requires
        i.components.len() <= u32::MAX,
        holds_at(s, pos, wire_image_tail(i)),
    ensures
        parse_image_tail(s, pos) == Some((tail_of(i), pos + wire_image_tail(i).len())),
{
    let w0 = wire_num(Family::Number, i.orig_width as nat);
    let w1 = wire_num(Family::Number, i.orig_height as nat);
    let w2 = wire_num(Family::Number, i.x_offset as nat);
    let w3 = wire_num(Family::Number, i.y_offset as nat);
    let w4 = wire_num(Family::Number, i.num_components as nat);
    let w5 = wire_component_array(i.components);
    lemma_holds_at_concat(s, pos, w0, w1 + (w2 + (w3 + (w4 + w5))));
    lemma_num_read_back(Family::Number, i.orig_width as nat, s, pos);
    let at1 = pos + w0.len();
    lemma_holds_at_concat(s, at1, w1, w2 + (w3 + (w4 + w5)));
    lemma_num_read_back(Family::Number, i.orig_height as nat, s, at1);
    let at2 = at1 + w1.len();
    lemma_holds_at_concat(s, at2, w2, w3 + (w4 + w5));
    lemma_num_read_back(Family::Number, i.x_offset as nat, s, at2);
    let at3 = at2 + w2.len();
    lemma_holds_at_concat(s, at3, w3, w4 + w5);
    lemma_num_read_back(Family::Number, i.y_offset as nat, s, at3);
    let at4 = at3 + w3.len();
    lemma_holds_at_concat(s, at4, w4, w5);
    lemma_num_read_back(Family::Number, i.num_components as nat, s, at4);
    lemma_component_array_read_back(i.components, s, at4 + w4.len());
}

/// The descriptor whose bytes stand at a position is the one that is read
/// there, and reading ends where the bytes end.
pub proof fn lemma_image_read_back(i: ImageView, s: Seq<u8>, pos: int)
    requires
        image_fits(i),
        holds_at(s, pos, wire_image(i)),
    ensures
        parse_image(s, pos) == Some((i, pos + wire_image(i).len())),
{
    let h = wire_num(Family::Array, 10);
    let w0 = wire_num(Family::Number, i.width as nat);
    let w1 = wire_num(Family::Number, i.height as nat);
    let w2 = wire_format(i.format);
    let w3 = wire_pixels(i.data);
    let w4 = wire_image_tail(i);
    lemma_holds_at_concat(s, pos, h, w0 + (w1 + (w2 + (w3 + w4))));
    lemma_num_read_back(Family::Array, 10, s, pos);
    let at0 = pos + h.len();
    lemma_holds_at_concat(s, at0, w0, w1 + (w2 + (w3 + w4)));
    lemma_num_read_back(Family::Number, i.width as nat, s, at0);
    let at1 = at0 + w0.len();
    lemma_holds_at_concat(s, at1, w1, w2 + (w3 + w4));
    lemma_num_read_back(Family::Number, i.height as nat, s, at1);
    let at2 = at1 + w1.len();
    lemma_holds_at_concat(s, at2, w2, w3 + w4);
    lemma_format_read_back(i.format, s, at2);
    let at3 = at2 + w2.len();
    lemma_holds_at_concat(s, at3, w3, w4);
    lemma_pixels_read_back(i.data, s, at3);
    lemma_image_tail_read_back(i, s, at3 + w3.len());
}

/// The second half of a descriptor that is read at a position stands there in its own
/// encoding, which ends where reading ends.
pub proof fn lemma_image_tail_was_written(i: ImageView, s: Seq<u8>, pos: int)
    requires
        parse_image_tail(s, pos).is_some(),
        parse_image_tail(s, pos)->Some_0.0 == tail_of(i),
    ensures
        i.components.len() <= u32::MAX,
        parse_image_tail(s, pos)->Some_0.1 == pos + wire_image_tail(i).len(),
        holds_at(s, pos, wire_image_tail(i)),
{
    let at1 = end_of(parse_num(Family::Number, s, pos));
    let at2 = end_of(parse_num(Family::Number, s, at1));
    let at3 = end_of(parse_num(Family::Number, s, at2));
    let at4 = end_of(parse_num(Family::Number, s, at3));
    let at5 = end_of(parse_num(Family::Number, s, at4));
    lemma_num_was_written(Family::Number, s, pos);
    lemma_num_was_written(Family::Number, s, at1);
    lemma_num_was_written(Family::Number, s, at2);
    lemma_num_was_written(Family::Number, s, at3);
    lemma_num_was_written(Family::Number, s, at4);
    lemma_component_array_was_written(s, at5);
    let w0 = wire_num(Family::Number, i.orig_width as nat);
    let w1 = wire_num(Family::Number, i.orig_height as nat);
    let w2 = wire_num(Family::Number, i.x_offset as nat);
    let w3 = wire_num(Family::Number, i.y_offset as nat);
    let w4 = wire_num(Family::Number, i.num_components as nat);
    let w5 = wire_component_array(i.components);
    lemma_holds_at_concat(s, at4, w4, w5);
    lemma_holds_at_concat(s, at3, w3, w4 + w5);
    lemma_holds_at_concat(s, at2, w2, w3 + (w4 + w5));
    lemma_holds_at_concat(s, at1, w1, w2 + (w3 + (w4 + w5)));
    lemma_holds_at_concat(s, pos, w0, w1 + (w2 + (w3 + (w4 + w5))));
}

/// The descriptor that is read at a position stands there in its own
/// encoding, which ends where reading ends.
pub proof fn lemma_image_was_written(s: Seq<u8>, pos: int)
    requires
        parse_image(s, pos).is_some(),
    ensures
        ({
            let (i, end) = parse_image(s, pos)->Some_0;
            &&& image_fits(i)
            &&& end == pos + wire_image(i).len()
            &&& holds_at(s, pos, wire_image(i))
        }),
{
    let (i, end) = parse_image(s, pos)->Some_0;
    let at0 = end_of(parse_num(Family::Array, s, pos));
    let at1 = end_of(parse_num(Family::Number, s, at0));
    let at2 = end_of(parse_num(Family::Number, s, at1));
    let at3 = end_of(parse_format(s, at2));
    let at4 = end_of(parse_pixels(s, at3));
    lemma_num_was_written(Family::Array, s, pos);
    lemma_num_was_written(Family::Number, s, at0);
    lemma_num_was_written(Family::Number, s, at1);
    lemma_format_was_written(s, at2);
    lemma_pixels_were_written(s, at3);
    lemma_image_tail_was_written(i, s, at4);
    let h = wire_num(Family::Array, 10);
    let w0 = wire_num(Family::Number, i.width as nat);
    let w1 = wire_num(Family::Number, i.height as nat);
    let w2 = wire_format(i.format);
    let w3 = wire_pixels(i.data);
    let w4 = wire_image_tail(i);
    lemma_holds_at_concat(s, at3, w3, w4);
    lemma_holds_at_concat(s, at2, w2, w3 + w4);
    lemma_holds_at_concat(s, at1, w1, w2 + (w3 + w4));
    lemma_holds_at_concat(s, at0, w0, w1 + (w2 + (w3 + w4)));
    lemma_holds_at_concat(s, pos, h, w0 + (w1 + (w2 + (w3 + w4))));
}

/// The outcome of a decode as a mathematical value: the descriptor of the
/// image, or the text that says why there is none.
pub type OutcomeView = Result<ImageView, Seq<char>>;

/// The name of the entry that holds a descriptor: `Ok`.
pub open spec fn ok_tag() -> Seq<u8> {
    seq![0x4f, 0x6b]
}

/// The name of the entry that holds a message: `Err`.
pub open spec fn err_tag() -> Seq<u8> {
    seq![0x45, 0x72, 0x72]
}

/// Whether a name is `Ok`.
pub open spec fn is_ok_tag(name: Seq<u8>) -> bool {
    name.len() == 2 && name[0] == 0x4f && name[1] == 0x6b
}

/// Whether a name is `Err`.
pub open spec fn is_err_tag(name: Seq<u8>) -> bool {
    name.len() == 3 && name[0] == 0x45 && name[1] == 0x72 && name[2] == 0x72
}

/// An outcome that can be sent: its descriptor can, or its message takes
/// no more than `u32::MAX` bytes.
pub open spec fn outcome_fits(r: OutcomeView) -> bool {
    match r {
        Ok(i) => image_fits(i),
        Err(m) => encode_utf8(m).len() <= u32::MAX,
    }
}

/// The bytes of an outcome: a map of one entry, from `Ok` to the
/// descriptor or from `Err` to the message.
pub open spec fn wire_outcome(r: OutcomeView) -> Seq<u8> {
    match r {
        Ok(i) => seq![MAP_OF_ONE] + (wire_text(ok_tag()) + wire_image(i)),
        Err(m) => seq![MAP_OF_ONE] + (wire_text(err_tag()) + wire_text(encode_utf8(m))),
    }
}

/// The outcome that begins at `pos`.
pub open spec fn parse_outcome(s: Seq<u8>, pos: int) -> Option<(OutcomeView, int)> {
    let tag = parse_text(s, pos + 1);
    if holds_at(s, pos, seq![MAP_OF_ONE]) && tag.is_some() {
        if is_ok_tag(tag->Some_0.0) {
            match parse_image(s, end_of(tag)) {
                Some((i, end)) => Some((Ok(i), end)),
                None => None,
            }
        } else if is_err_tag(tag->Some_0.0) {
            match parse_text(s, end_of(tag)) {
                Some((bytes, end)) => if valid_utf8(bytes) {
                    Some((Err(decode_utf8(bytes)), end))
                } else {
                    None
                },
                None => None,
            }
        } else {
            None
        }
    } else {
        None
    }
}

/// The outcome whose bytes stand at a position is the one that is read
/// there, and reading ends where the bytes end.
pub proof fn lemma_outcome_read_back(r: OutcomeView, s: Seq<u8>, pos: int)
    requires
        outcome_fits(r),
        holds_at(s, pos, wire_outcome(r)),
    ensures
        parse_outcome(s, pos) == Some((r, pos + wire_outcome(r).len())),
{
    match r {
        Ok(i) => {
            let w0 = wire_text(ok_tag());
            let w1 = wire_image(i);
            lemma_holds_at_concat(s, pos, seq![MAP_OF_ONE], w0 + w1);
            lemma_holds_at_concat(s, pos + 1, w0, w1);
            lemma_text_read_back(ok_tag(), s, pos + 1);
            lemma_image_read_back(i, s, pos + 1 + w0.len());
        },
        Err(m) => {
            let w0 = wire_text(err_tag());
            let w1 = wire_text(encode_utf8(m));
            lemma_holds_at_concat(s, pos, seq![MAP_OF_ONE], w0 + w1);
            lemma_holds_at_concat(s, pos + 1, w0, w1);
            lemma_text_read_back(err_tag(), s, pos + 1);
            lemma_text_read_back(encode_utf8(m), s, pos + 1 + w0.len());
            encode_utf8_valid_utf8(m);
            encode_utf8_decode_utf8(m);
        },
    }
}

/// The outcome that is read at a position stands there in its own
/// encoding, which ends where reading ends.
pub proof fn lemma_outcome_was_written(s: Seq<u8>, pos: int)
    requires
        parse_outcome(s, pos).is_some(),
    ensures
        ({
            let (r, end) = parse_outcome(s, pos)->Some_0;
            &&& outcome_fits(r)
            &&& end == pos + wire_outcome(r).len()
            &&& holds_at(s, pos, wire_outcome(r))
        }),
{
    let (r, end) = parse_outcome(s, pos)->Some_0;
    let tag = parse_text(s, pos + 1)->Some_0.0;
    let at1 = end_of(parse_text(s, pos + 1));
    lemma_text_was_written(s, pos + 1);
    if is_ok_tag(tag) {
        assert(tag =~= ok_tag());
        lemma_image_was_written(s, at1);
        let i = r->Ok_0;
        lemma_holds_at_concat(s, pos + 1, wire_text(ok_tag()), wire_image(i));
        lemma_holds_at_concat(s, pos, seq![MAP_OF_ONE], wire_text(ok_tag()) + wire_image(i));
    } else {
        assert(tag =~= err_tag());
        lemma_text_was_written(s, at1);
        let bytes = parse_text(s, at1)->Some_0.0;
        decode_utf8_encode_utf8(bytes);
        let m = r->Err_0;
        lemma_holds_at_concat(s, pos + 1, wire_text(err_tag()), wire_text(encode_utf8(m)));
        lemma_holds_at_concat(
            s,
            pos,
            seq![MAP_OF_ONE],
            wire_text(err_tag()) + wire_text(encode_utf8(m)),
        );
    }
}

} // verus!
