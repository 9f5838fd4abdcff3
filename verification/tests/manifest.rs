use wow_hardware_fishbot::geometry::Rect;
use wow_hardware_fishbot::manifest::{
    parse_i32, parse_manifest_line, split_commas, ManifestError, NumberError,
};

#[test]
fn integers_parse_like_the_standard_library() {
    let cases: [&str; 16] = [
        "0", "42", "-42", "+7", "007", "-0", "2147483647", "-2147483648", "2147483648",
        "-2147483649", "", "-", "+", "1x", "99999999999x", " 1",
    ];
    for case in cases {
        let expected = case.parse::<i32>().map_err(|e| match e.kind() {
            std::num::IntErrorKind::Empty => NumberError::Empty,
            std::num::IntErrorKind::InvalidDigit => NumberError::InvalidDigit,
            std::num::IntErrorKind::PosOverflow => NumberError::TooLarge,
            std::num::IntErrorKind::NegOverflow => NumberError::TooSmall,
            other => panic!("unexpected kind {other:?}"),
        });
        assert_eq!(parse_i32(case.as_bytes()), expected, "input {case:?}");
    }
}

#[test]
fn commas_split_like_str_split() {
    for line in ["a,b,,c", "", ",", "x", "a,b,c,1,2,3,4,"] {
        let expected: Vec<Vec<u8>> = line.split(',').map(|f| f.as_bytes().to_vec()).collect();
        assert_eq!(split_commas(line.as_bytes()), expected);
    }
}

#[test]
fn manifest_line_with_seven_columns() {
    let row = parse_manifest_line(b"shot1.png,eval,1,812,455,40,38").unwrap();
    assert_eq!(row.file, b"shot1.png".to_vec());
    assert_eq!(row.split, b"eval".to_vec());
    assert_eq!(row.present, b"1".to_vec());
    assert_eq!(row.target, Rect::new(812, 455, 40, 38));
}

#[test]
fn manifest_line_errors() {
    assert_eq!(
        parse_manifest_line(b"a,b,c,1,2,3").unwrap_err(),
        ManifestError::WrongColumnCount
    );
    assert_eq!(
        parse_manifest_line(b"a,b,c,1,2,3,4,5").unwrap_err(),
        ManifestError::WrongColumnCount
    );
    assert_eq!(
        parse_manifest_line(b"a,b,0,1,x,3,y").unwrap_err(),
        ManifestError::BadNumber { field: 4, kind: NumberError::InvalidDigit }
    );
    assert_eq!(
        parse_manifest_line(b"a,b,0,,0,0,0").unwrap_err(),
        ManifestError::BadNumber { field: 3, kind: NumberError::Empty }
    );
    assert_eq!(
        parse_manifest_line(b"a,b,0,0,0,0,9999999999").unwrap_err(),
        ManifestError::BadNumber { field: 6, kind: NumberError::TooLarge }
    );
}
