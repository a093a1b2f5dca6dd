use jpeg2k_sandboxed::{
    decode_response, encode_response, interpret_output, ComponentInfo, Error, ImageFormat,
    ImagePixelData, J2KImage,
};
use serde::{Serialize, Serializer};

struct WireFormat(ImageFormat);

fn name_and_index(f: ImageFormat) -> (&'static str, u32) {
    match f {
        ImageFormat::L8 => ("L8", 0),
        ImageFormat::La8 => ("La8", 1),
        ImageFormat::Rgb8 => ("Rgb8", 2),
        ImageFormat::Rgba8 => ("Rgba8", 3),
        ImageFormat::L16 => ("L16", 4),
        ImageFormat::La16 => ("La16", 5),
        ImageFormat::Rgb16 => ("Rgb16", 6),
        ImageFormat::Rgba16 => ("Rgba16", 7),
    }
}

impl Serialize for WireFormat {
    fn serialize<S: Serializer>(&self, s: S) -> Result<S::Ok, S::Error> {
        let (name, index) = name_and_index(self.0);
        s.serialize_unit_variant("ImageFormat", index, name)
    }
}

struct WirePixels<'a>(&'a ImagePixelData);

impl<'a> Serialize for WirePixels<'a> {
    fn serialize<S: Serializer>(&self, s: S) -> Result<S::Ok, S::Error> {
        let (name, index) = name_and_index(self.0.format());
        match self.0 {
            ImagePixelData::L8(v)
            | ImagePixelData::La8(v)
            | ImagePixelData::Rgb8(v)
            | ImagePixelData::Rgba8(v) => {
                s.serialize_newtype_variant("ImagePixelData", index, name, v)
            }
            ImagePixelData::L16(v)
            | ImagePixelData::La16(v)
            | ImagePixelData::Rgb16(v)
            | ImagePixelData::Rgba16(v) => {
                s.serialize_newtype_variant("ImagePixelData", index, name, v)
            }
        }
    }
}

type WireComponent = (u32, u32, u32, bool, bool);

fn by_messagepack(outcome: &Result<J2KImage, String>) -> Vec<u8> {
    let wire = match outcome {
        Ok(i) => Ok((
            i.width,
            i.height,
            WireFormat(i.format),
            WirePixels(&i.data),
            i.orig_width,
            i.orig_height,
            i.x_offset,
            i.y_offset,
            i.num_components,
            i.components
                .iter()
                .map(|c| (c.width, c.height, c.precision, c.is_alpha, c.is_signed))
                .collect::<Vec<WireComponent>>(),
        )),
        Err(m) => Err(m.clone()),
    };
    rmp_serde::to_vec(&wire).unwrap()
}

fn component(width: u32, height: u32, precision: u32, is_alpha: bool) -> ComponentInfo {
    ComponentInfo { width, height, precision, is_alpha, is_signed: false }
}

fn image(data: ImagePixelData, components: Vec<ComponentInfo>) -> J2KImage {
    J2KImage {
        width: 640,
        height: 480,
        format: data.format(),
        data,
        orig_width: 1280,
        orig_height: 70_000,
        x_offset: 0,
        y_offset: 129,
        num_components: components.len() as u32,
        components,
    }
}

fn sample_images() -> Vec<J2KImage> {
    let c = component(640, 480, 8, false);
    let a = component(640, 480, 8, true);
    let mut wide: Vec<u16> = Vec::new();
    for i in 0..70_000u32 {
        wide.push((i % 65_536) as u16);
    }
    vec![
        image(ImagePixelData::L8(vec![0, 127, 128, 255]), vec![c]),
        image(ImagePixelData::La8(vec![1, 2]), vec![c, a]),
        image(ImagePixelData::Rgb8(vec![9; 300]), vec![c, c, c]),
        image(ImagePixelData::Rgba8(vec![]), vec![c, c, c, a]),
        image(ImagePixelData::L16(vec![0, 255, 256, 65_535]), vec![component(1, 1, 16, false)]),
        image(ImagePixelData::La16(vec![300; 17]), vec![c, a]),
        image(ImagePixelData::Rgb16(wide), vec![c, c, c]),
        image(
            ImagePixelData::Rgba16(vec![1, 2, 3, 4]),
            vec![c, c, c, ComponentInfo { is_signed: true, ..a }],
        ),
    ]
}

fn sample_outcomes() -> Vec<Result<J2KImage, String>> {
    let mut all: Vec<Result<J2KImage, String>> = sample_images().into_iter().map(Ok).collect();
    all.push(Err(String::new()));
    all.push(Err("Unsupported components".to_string()));
    all.push(Err("Codec failed to encode/decode: Failed to read header".to_string()));
    all.push(Err("größer als erwartet — 画像".to_string()));
    all.push(Err("x".repeat(31)));
    all.push(Err("x".repeat(32)));
    all.push(Err("x".repeat(255)));
    all.push(Err("x".repeat(256)));
    all.push(Err("x".repeat(65_536)));
    all
}

#[test]
fn response_encoding_is_the_compact_messagepack_of_its_fields() {
    for outcome in sample_outcomes() {
        assert_eq!(encode_response(&outcome).unwrap(), by_messagepack(&outcome));
    }
}

#[test]
fn response_encoding_of_a_message_byte_by_byte() {
    let bytes = encode_response(&Err("no".to_string())).unwrap();
    assert_eq!(bytes, vec![0x81, 0xa3, b'E', b'r', b'r', 0xa2, b'n', b'o']);
}

#[test]
fn response_encoding_of_an_image_byte_by_byte() {
    let img = J2KImage {
        width: 2,
        height: 1,
        format: ImageFormat::La8,
        data: ImagePixelData::La8(vec![5, 255, 6, 0]),
        orig_width: 4,
        orig_height: 2,
        x_offset: 0,
        y_offset: 0,
        num_components: 2,
        components: vec![component(2, 1, 8, false), component(2, 1, 8, true)],
    };
    let expected = vec![
        0x81, 0xa2, b'O', b'k', 0x9a, 0x02, 0x01, 0xa3, b'L', b'a', b'8', 0x81, 0xa3, b'L', b'a',
        b'8', 0x94, 0x05, 0xcc, 0xff, 0x06, 0x00, 0x04, 0x02, 0x00, 0x00, 0x02, 0x92, 0x95, 0x02,
        0x01, 0x08, 0xc2, 0xc2, 0x95, 0x02, 0x01, 0x08, 0xc3, 0xc2,
    ];
    assert_eq!(encode_response(&Ok(img)).unwrap(), expected);
}

#[test]
fn response_round_trip() {
    for outcome in sample_outcomes() {
        let bytes = encode_response(&outcome).unwrap();
        assert_eq!(decode_response(&bytes), Ok(outcome));
    }
}

#[test]
fn response_decoding_reads_what_messagepack_wrote() {
    for outcome in sample_outcomes() {
        assert_eq!(decode_response(&by_messagepack(&outcome)), Ok(outcome));
    }
}

#[test]
fn response_decoding_rejects_what_is_no_encoding() {
    let good = encode_response(&Ok(sample_images().remove(0))).unwrap();
    assert_eq!(decode_response(&[]), Err(Error::Serialization));
    for cut in 0..good.len() {
        assert_eq!(decode_response(&good[..cut]), Err(Error::Serialization), "cut at {}", cut);
    }
    let mut longer = good.clone();
    longer.push(0xc0);
    assert_eq!(decode_response(&longer), Err(Error::Serialization));
    // a message that is not UTF-8
    assert_eq!(
        decode_response(&[0x81, 0xa3, b'E', b'r', b'r', 0xa1, 0xff]),
        Err(Error::Serialization)
    );
    // neither `Ok` nor `Err`
    assert_eq!(
        decode_response(&[0x81, 0xa2, b'N', b'o', 0xa0]),
        Err(Error::Serialization)
    );
    // a layout that does not exist
    let mut bad = good.clone();
    let at = bad.iter().position(|b| *b == b'L').unwrap();
    bad[at] = b'M';
    assert_eq!(decode_response(&bad), Err(Error::Serialization));
}

#[test]
fn response_decoding_rejects_a_sample_too_large_for_its_layout() {
    let img = image(ImagePixelData::L16(vec![256]), vec![component(1, 1, 16, false)]);
    let mut bytes = encode_response(&Ok(img)).unwrap();
    // rename the payload's layout from L16 to La8, of the same length
    let first = bytes.windows(3).position(|w| w == b"L16").unwrap();
    let second = first + 3 + bytes[first + 3..].windows(3).position(|w| w == b"L16").unwrap();
    bytes[second..second + 3].copy_from_slice(b"La8");
    assert_eq!(decode_response(&bytes), Err(Error::Serialization));
}

#[test]
fn output_with_a_consistent_image_is_handed_on() {
    for img in sample_images() {
        let bytes = encode_response(&Ok(img.clone())).unwrap();
        let got = interpret_output(&bytes).unwrap();
        assert!(got.is_well_formed());
        assert_eq!(got, img);
    }
}

#[test]
fn output_with_a_message_is_a_decode_error() {
    let bytes = encode_response(&Err("Unsupported components".to_string())).unwrap();
    let err = interpret_output(&bytes).unwrap_err();
    assert_eq!(err, Error::Decode("Unsupported components".to_string()));
    assert!(err.is_decode());
    assert!(!err.is_infrastructure());
}

#[test]
fn output_that_is_malformed_is_a_serialization_error() {
    assert_eq!(interpret_output(&[]), Err(Error::Serialization));
    assert_eq!(interpret_output(&[0xc0]), Err(Error::Serialization));
    assert_eq!(interpret_output(b"not messagepack at all"), Err(Error::Serialization));
    assert!(Error::Serialization.is_infrastructure());
}

#[test]
fn output_with_an_inconsistent_image_is_a_serialization_error() {
    let c = component(4, 4, 8, false);
    // the layout named differs from that of the payload
    let mut mismatch = image(ImagePixelData::L8(vec![]), vec![c, c, c]);
    mismatch.format = ImageFormat::Rgb8;
    assert!(!mismatch.is_well_formed());
    // the count differs from the list
    let mut miscount = image(ImagePixelData::L8(vec![1]), vec![c]);
    miscount.num_components = 2;
    assert!(!miscount.is_well_formed());
    // no component at all
    let none = image(ImagePixelData::L8(vec![]), vec![]);
    assert!(!none.is_well_formed());
    for img in [mismatch, miscount, none] {
        let bytes = encode_response(&Ok(img.clone())).unwrap();
        assert_eq!(decode_response(&bytes), Ok(Ok(img)));
        assert_eq!(interpret_output(&bytes), Err(Error::Serialization));
    }
}

#[test]
fn outputs_of_different_calls_do_not_mix() {
    let images = sample_images();
    let first = encode_response(&Ok(images[0].clone())).unwrap();
    let second = encode_response(&Ok(images[1].clone())).unwrap();
    assert_eq!(interpret_output(&first).unwrap(), images[0]);
    assert_eq!(interpret_output(&second).unwrap(), images[1]);
    assert_eq!(interpret_output(&first).unwrap(), images[0]);
    let mut both = first.clone();
    both.extend_from_slice(&second);
    assert_eq!(interpret_output(&both), Err(Error::Serialization));
}
