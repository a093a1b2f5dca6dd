use jpeg2k_sandboxed::{
    decode_request, encode_request, DecodeArea, DecodeImageRequest, DecodeParameters, Error,
};

type WireArea = (u32, u32, u32, u32);
type WireParams = (u32, bool, u32, Option<WireArea>);
type WireRequest = (Option<WireParams>, bool, Vec<u8>);

fn as_tuple(req: &DecodeImageRequest) -> WireRequest {
    let params = req.params.map(|p| {
        (p.reduce, p.strict, p.layers, p.area.map(|a| (a.start_x, a.start_y, a.end_x, a.end_y)))
    });
    (params, req.only_header, req.data.clone())
}

fn sample_requests() -> Vec<DecodeImageRequest> {
    let area = DecodeArea { start_x: 10, start_y: 300, end_x: 70_000, end_y: u32::MAX };
    let params = DecodeParameters { reduce: 2, strict: true, layers: 200, area: Some(area) };
    let plain = DecodeParameters { reduce: 0, strict: false, layers: 0, area: None };
    let mut ramp: Vec<u8> = Vec::new();
    for i in 0..70_000u32 {
        ramp.push((i % 256) as u8);
    }
    vec![
        DecodeImageRequest::new(vec![]),
        DecodeImageRequest::new(vec![0, 1, 127, 128, 255]),
        DecodeImageRequest::new_with(vec![0xff, 0x4f, 0xff, 0x51], params),
        DecodeImageRequest::new_with(vec![7; 15], plain).only_header(),
        DecodeImageRequest::new_with(vec![7; 16], plain),
        DecodeImageRequest::new_with(vec![200; 65_535], params),
        DecodeImageRequest::new_with(vec![1; 65_536], params).only_header(),
        DecodeImageRequest::new(ramp),
    ]
}

#[test]
fn request_constructors_fill_the_fields() {
    let req = DecodeImageRequest::new(vec![1, 2, 3]);
    assert_eq!(req.params, None);
    assert!(!req.only_header);
    assert_eq!(req.data, vec![1, 2, 3]);

    let params = DecodeParameters { reduce: 1, strict: true, layers: 3, area: None };
    let req = DecodeImageRequest::new_with(vec![9], params);
    assert_eq!(req.params, Some(params));
    assert!(!req.only_header);
    assert_eq!(req.data, vec![9]);

    let header = req.only_header();
    assert!(header.only_header);
    assert_eq!(header.params, req.params);
    assert_eq!(header.data, req.data);
    assert!(!req.only_header);
}

#[test]
fn request_params_fall_back_to_the_standard_ones() {
    let req = DecodeImageRequest::new(vec![]);
    assert_eq!(
        req.params(),
        DecodeParameters { reduce: 0, strict: false, layers: 0, area: None }
    );
    assert_eq!(req.params(), DecodeParameters::default());
    let params = DecodeParameters { reduce: 4, strict: true, layers: 1, area: None };
    assert_eq!(DecodeImageRequest::new_with(vec![], params).params(), params);
}

#[test]
fn request_encoding_is_the_compact_messagepack_of_its_fields() {
    for req in sample_requests() {
        let expected = rmp_serde::to_vec(&as_tuple(&req)).unwrap();
        assert_eq!(encode_request(&req).unwrap(), expected);
    }
}

#[test]
fn request_encoding_of_a_small_request_byte_by_byte() {
    let req = DecodeImageRequest::new(vec![1, 200]);
    assert_eq!(encode_request(&req).unwrap(), vec![0x93, 0xc0, 0xc2, 0x92, 0x01, 0xcc, 0xc8]);
    let params = DecodeParameters {
        reduce: 1,
        strict: true,
        layers: 256,
        area: Some(DecodeArea { start_x: 0, start_y: 127, end_x: 128, end_y: 65_536 }),
    };
    let req = DecodeImageRequest::new_with(vec![], params).only_header();
    assert_eq!(
        encode_request(&req).unwrap(),
        vec![
            0x93, 0x94, 0x01, 0xc3, 0xcd, 0x01, 0x00, 0x94, 0x00, 0x7f, 0xcc, 0x80, 0xce, 0x00,
            0x01, 0x00, 0x00, 0xc3, 0x90
        ]
    );
}

#[test]
fn request_round_trip() {
    for req in sample_requests() {
        let bytes = encode_request(&req).unwrap();
        assert_eq!(decode_request(&bytes), Ok(req));
    }
}

#[test]
fn request_decoding_agrees_with_messagepack() {
    for req in sample_requests() {
        let bytes = rmp_serde::to_vec(&as_tuple(&req)).unwrap();
        let back: WireRequest = rmp_serde::from_slice(&bytes).unwrap();
        assert_eq!(back, as_tuple(&req));
        assert_eq!(decode_request(&bytes), Ok(req));
    }
}

#[test]
fn request_decoding_rejects_what_is_no_encoding() {
    let good = encode_request(&DecodeImageRequest::new(vec![1, 2, 3])).unwrap();
    assert_eq!(decode_request(&[]), Err(Error::Serialization));
    assert_eq!(decode_request(&good[..good.len() - 1]), Err(Error::Serialization));
    let mut longer = good.clone();
    longer.push(0);
    assert_eq!(decode_request(&longer), Err(Error::Serialization));
    // a number that is not in its shortest form
    assert_eq!(
        decode_request(&[0x93, 0xc0, 0xc2, 0x91, 0xcc, 0x01]),
        Err(Error::Serialization)
    );
    // a byte of the image that is no byte
    assert_eq!(
        decode_request(&[0x93, 0xc0, 0xc2, 0x91, 0xcd, 0x01, 0x00]),
        Err(Error::Serialization)
    );
    // a flag that is no boolean
    assert_eq!(decode_request(&[0x93, 0xc0, 0x01, 0x90]), Err(Error::Serialization));
    // two fields only
    assert_eq!(decode_request(&[0x92, 0xc0, 0xc2]), Err(Error::Serialization));
}
