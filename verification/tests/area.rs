use jpeg2k_sandboxed::{DecodeArea, ParseAreaError};

#[test]
fn area_with_four_fields() {
    let area = DecodeArea::parse("10:20:30:40").unwrap();
    assert_eq!(area, DecodeArea { start_x: 10, start_y: 20, end_x: 30, end_y: 40 });
}

#[test]
fn area_with_two_fields_pads_with_zero() {
    let area = DecodeArea::parse("5:6").unwrap();
    assert_eq!(area, DecodeArea { start_x: 5, start_y: 6, end_x: 0, end_y: 0 });
}

#[test]
fn area_with_a_letter_is_rejected() {
    assert_eq!(DecodeArea::parse("a:1:2:3"), Err(ParseAreaError { field: 0 }));
}

#[test]
fn area_names_the_first_bad_field() {
    assert_eq!(DecodeArea::parse("1:2:x:y"), Err(ParseAreaError { field: 2 }));
    assert_eq!(DecodeArea::parse("1::3:4"), Err(ParseAreaError { field: 1 }));
    assert_eq!(DecodeArea::parse("1:2:3:"), Err(ParseAreaError { field: 3 }));
}

#[test]
fn area_of_empty_text_is_rejected() {
    assert_eq!(DecodeArea::parse(""), Err(ParseAreaError { field: 0 }));
}

#[test]
fn area_ignores_what_follows_the_fourth_field() {
    let area = DecodeArea::parse("1:2:3:4:junk:5").unwrap();
    assert_eq!(area, DecodeArea { start_x: 1, start_y: 2, end_x: 3, end_y: 4 });
}

#[test]
fn area_takes_the_largest_number_and_no_larger() {
    let area = DecodeArea::parse("4294967295:0:0:0").unwrap();
    assert_eq!(area.start_x, u32::MAX);
    assert_eq!(DecodeArea::parse("4294967296:0:0:0"), Err(ParseAreaError { field: 0 }));
    assert_eq!(
        DecodeArea::parse("0:99999999999999999999999999:0:0"),
        Err(ParseAreaError { field: 1 })
    );
}

#[test]
fn area_takes_a_plus_sign_and_leading_zeros() {
    let area = DecodeArea::parse("+7:007:+0:00").unwrap();
    assert_eq!(area, DecodeArea { start_x: 7, start_y: 7, end_x: 0, end_y: 0 });
    assert_eq!(DecodeArea::parse("+"), Err(ParseAreaError { field: 0 }));
    assert_eq!(DecodeArea::parse("-1"), Err(ParseAreaError { field: 0 }));
    assert_eq!(DecodeArea::parse("1 :2"), Err(ParseAreaError { field: 0 }));
}

#[test]
fn area_fields_agree_with_the_integer_parser() {
    for text in ["0", "12", "+12", "", "+", "-3", "1x", "٣", "4294967295", "4294967296"] {
        let expected = text.parse::<u32>().ok();
        let got = DecodeArea::parse(text).ok().map(|a| a.start_x);
        assert_eq!(got, expected, "field {:?}", text);
    }
}

#[test]
fn area_parses_through_from_str() {
    let area: DecodeArea = "1:2:3:4".parse().unwrap();
    assert_eq!(area, DecodeArea::new(1, 2, 3, 4));
    assert!("1:b".parse::<DecodeArea>().is_err());
}

#[test]
fn area_default_is_all_zero() {
    assert_eq!(DecodeArea::default(), DecodeArea::new(0, 0, 0, 0));
}

#[test]
fn area_parser_does_not_check_the_order_of_corners() {
    let area = DecodeArea::parse("30:40:10:20").unwrap();
    assert_eq!(area, DecodeArea::new(30, 40, 10, 20));
}

#[test]
fn area_from_str_agrees_with_parse() {
    for text in ["10:20:30:40", "5:6", "a:1:2:3", "", "1:2:x", "1:2:3:4:5", "+1:02", "7:8:9:"] {
        assert_eq!(text.parse::<DecodeArea>(), DecodeArea::parse(text), "text {:?}", text);
    }
    assert_eq!("1:b".parse::<DecodeArea>(), Err(ParseAreaError { field: 1 }));
}
