use jpeg2k_sandboxed::{
    answer, decode_response, respond, ComponentInfo, DecodedImage, ImageFormat, ImagePixelData,
    J2KImage, UnsupportedComponents,
};

fn comp(is_alpha: bool) -> ComponentInfo {
    ComponentInfo { width: 8, height: 6, precision: 8, is_alpha, is_signed: false }
}

fn decoded(components: Vec<ComponentInfo>, pixels: Option<ImagePixelData>) -> DecodedImage {
    DecodedImage {
        width: 8,
        height: 6,
        orig_width: 16,
        orig_height: 12,
        x_offset: 1,
        y_offset: 2,
        components,
        pixels,
    }
}

#[test]
fn descriptor_takes_the_layout_of_the_pixels() {
    let pixels = ImagePixelData::Rgb16(vec![1, 2, 3]);
    let img = J2KImage::try_from(decoded(vec![comp(false); 3], Some(pixels.clone()))).unwrap();
    assert_eq!(img.format, ImageFormat::Rgb16);
    assert_eq!(img.data, pixels);
    assert_eq!((img.width, img.height), (8, 6));
    assert_eq!((img.orig_width, img.orig_height), (16, 12));
    assert_eq!((img.x_offset, img.y_offset), (1, 2));
    assert_eq!(img.num_components, 3);
    assert_eq!(img.components, vec![comp(false); 3]);
    assert!(img.is_well_formed());
}

#[test]
fn descriptor_without_pixels_guesses_the_layout() {
    let expected = [
        (1, ImageFormat::L8, ImagePixelData::L8(vec![])),
        (2, ImageFormat::La8, ImagePixelData::La8(vec![])),
        (3, ImageFormat::Rgb8, ImagePixelData::Rgb8(vec![])),
        (4, ImageFormat::Rgba8, ImagePixelData::Rgba8(vec![])),
    ];
    for (count, format, data) in expected {
        let img = J2KImage::try_from(decoded(vec![comp(false); count], None)).unwrap();
        assert_eq!(img.format, format);
        assert_eq!(img.data, data);
        assert!(img.data.is_empty());
        assert_eq!(img.num_components as usize, count);
        assert!(img.is_well_formed());
    }
}

#[test]
fn descriptor_of_no_components_is_refused() {
    assert_eq!(
        J2KImage::try_from(decoded(vec![], None)),
        Err(UnsupportedComponents { count: 0 })
    );
    assert_eq!(
        J2KImage::try_from(decoded(vec![], Some(ImagePixelData::L8(vec![1])))),
        Err(UnsupportedComponents { count: 0 })
    );
}

#[test]
fn descriptor_of_five_components_is_refused() {
    let err = J2KImage::try_from(decoded(vec![comp(false); 5], None)).unwrap_err();
    assert_eq!(err, UnsupportedComponents { count: 5 });
    assert_eq!(err.message(), "Unsupported components");
}

#[test]
fn header_only_descriptor_matches_the_full_one() {
    let components = vec![comp(false), comp(false), comp(false), comp(true)];
    let pixels = ImagePixelData::Rgba8(vec![7; 8 * 6 * 4]);
    let full = J2KImage::try_from(decoded(components.clone(), Some(pixels))).unwrap();
    let header = J2KImage::try_from(decoded(components, None)).unwrap();
    assert_eq!(header.width, full.width);
    assert_eq!(header.height, full.height);
    assert_eq!(header.orig_width, full.orig_width);
    assert_eq!(header.orig_height, full.orig_height);
    assert_eq!(header.num_components, full.num_components);
    assert_eq!(header.components, full.components);
    assert_eq!(header.data.len(), 0);
    assert_eq!(full.data.len(), 8 * 6 * 4);
}

#[test]
fn formats_know_their_channels_and_width() {
    let all = [
        (ImageFormat::L8, 1, false),
        (ImageFormat::La8, 2, false),
        (ImageFormat::Rgb8, 3, false),
        (ImageFormat::Rgba8, 4, false),
        (ImageFormat::L16, 1, true),
        (ImageFormat::La16, 2, true),
        (ImageFormat::Rgb16, 3, true),
        (ImageFormat::Rgba16, 4, true),
    ];
    for (format, channels, wide) in all {
        assert_eq!(format.channels(), channels);
        assert_eq!(format.is_wide(), wide);
        assert_eq!(ImagePixelData::empty(format).format(), format);
        assert!(ImagePixelData::empty(format).is_empty());
    }
    assert_eq!(ImageFormat::guess_for(0), None);
    assert_eq!(ImageFormat::guess_for(3), Some(ImageFormat::Rgb8));
    assert_eq!(ImageFormat::guess_for(5), None);
}

#[test]
fn answer_is_the_descriptor_or_the_complaint() {
    let found = decoded(vec![comp(false); 3], Some(ImagePixelData::Rgb8(vec![1, 2, 3])));
    let expected = J2KImage::try_from(found.clone()).unwrap();
    assert_eq!(answer(Ok(found.clone())), Ok(expected.clone()));
    assert_eq!(
        answer(Ok(decoded(vec![comp(false); 6], None))),
        Err("Unsupported components".to_string())
    );
    assert_eq!(answer(Err("Unknown format: x".to_string())), Err("Unknown format: x".to_string()));

    let bytes = respond(Ok(found)).unwrap();
    assert_eq!(decode_response(&bytes), Ok(Ok(expected)));
    let bytes = respond(Err("bad".to_string())).unwrap();
    assert_eq!(decode_response(&bytes), Ok(Err("bad".to_string())));
    let bytes = respond(Ok(decoded(vec![], None))).unwrap();
    assert_eq!(decode_response(&bytes), Ok(Err("Unsupported components".to_string())));
}

#[test]
fn payload_must_hold_every_sample_of_the_image() {
    let full = J2KImage::try_from(decoded(
        vec![comp(false); 3],
        Some(ImagePixelData::Rgb8(vec![0; 8 * 6 * 3])),
    ))
    .unwrap();
    assert!(full.has_all_samples());
    let short = J2KImage::try_from(decoded(
        vec![comp(false); 3],
        Some(ImagePixelData::Rgb8(vec![0; 8 * 6 * 3 - 1])),
    ))
    .unwrap();
    assert!(!short.has_all_samples());
    let header = J2KImage::try_from(decoded(vec![comp(false); 3], None)).unwrap();
    assert!(!header.has_all_samples());
    let mut huge = header.clone();
    huge.width = u32::MAX;
    huge.height = u32::MAX;
    assert!(!huge.has_all_samples());
    let mut flat = header;
    flat.width = 0;
    assert!(flat.has_all_samples());
}
