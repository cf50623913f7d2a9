use siskin::{CloudError, DataMode, PcdHeader};

fn parse(text: &str) -> Result<(PcdHeader, usize), CloudError> {
    PcdHeader::parse(text.as_bytes())
}

fn names(tokens: &[Vec<u8>]) -> Vec<String> {
    tokens
        .iter()
        .map(|t| String::from_utf8(t.clone()).unwrap())
        .collect()
}

#[test]
fn a_full_header_is_read() {
    let text = "# .PCD v.7 - Point Cloud Data file format\nVERSION .7\nFIELDS x y z rgb\nSIZE 4 4 4 4\nTYPE F F F U\nCOUNT 1 1 1 1\nWIDTH 213\nHEIGHT 2\nVIEWPOINT 0 0 0 1 0 0 0\nPOINTS 426\nDATA ascii\n0.9 0 0 4.2e+06\n";
    let (header, body) = parse(text).unwrap();
    assert_eq!(header.version, b".7".to_vec());
    assert_eq!(names(&header.fields), vec!["x", "y", "z", "rgb"]);
    assert_eq!(header.size, vec![4, 4, 4, 4]);
    assert_eq!(names(&header.field_type), vec!["F", "F", "F", "U"]);
    assert_eq!(header.count, vec![1, 1, 1, 1]);
    assert_eq!(header.width, 213);
    assert_eq!(header.height, 2);
    assert_eq!(header.data, b"ascii".to_vec());
    assert_eq!(header.mode(), Some(DataMode::Ascii));
    assert_eq!(&text.as_bytes()[body..], b"0.9 0 0 4.2e+06\n");
}

#[test]
fn the_three_modes_are_told_apart() {
    assert_eq!(parse("DATA ascii\n").unwrap().0.mode(), Some(DataMode::Ascii));
    assert_eq!(parse("DATA binary\n").unwrap().0.mode(), Some(DataMode::Binary));
    assert_eq!(
        parse("DATA binary_compressed\n").unwrap().0.mode(),
        Some(DataMode::BinaryCompressed)
    );
    assert_eq!(parse("DATA zip\n").unwrap().0.mode(), None);
    assert_eq!(parse("DATA binary\r\n").unwrap().0.mode(), None);
}

#[test]
fn an_empty_header_declares_nothing() {
    let header = PcdHeader::new();
    assert!(header.version.is_empty());
    assert!(header.fields.is_empty());
    assert!(header.size.is_empty());
    assert!(header.field_type.is_empty());
    assert!(header.count.is_empty());
    assert_eq!((header.width, header.height), (0, 0));
    assert_eq!(header.mode(), None);
}

#[test]
fn the_body_starts_after_the_data_line() {
    let (_, body) = parse("WIDTH 1\nDATA binary\nabc").unwrap();
    assert_eq!(body, 20);
    let (_, body) = parse("DATA binary").unwrap();
    assert_eq!(body, 11);
}

#[test]
fn lines_after_the_data_line_are_not_read() {
    let (header, _) = parse("WIDTH 3\nDATA ascii\nWIDTH 9\nSIZE x\n").unwrap();
    assert_eq!(header.width, 3);
}

#[test]
fn unknown_keys_and_empty_lines_are_passed_over() {
    let (header, _) = parse("\nPOINTS many\nVIEWPOINT\nwidth 4\nWIDTH 2\n\nDATA binary\n").unwrap();
    assert_eq!(header.width, 2);
}

#[test]
fn a_later_line_replaces_an_earlier_one() {
    let (header, _) = parse("FIELDS x y\nFIELDS z\nWIDTH 1\nWIDTH 5\nDATA binary\n").unwrap();
    assert_eq!(names(&header.fields), vec!["z"]);
    assert_eq!(header.width, 5);
}

#[test]
fn further_values_of_a_single_valued_key_are_ignored() {
    let (header, _) = parse("VERSION .7 draft\nWIDTH 5 6\nHEIGHT 2 x\nDATA ascii now\n").unwrap();
    assert_eq!(header.version, b".7".to_vec());
    assert_eq!((header.width, header.height), (5, 2));
    assert_eq!(header.mode(), Some(DataMode::Ascii));
}

#[test]
fn a_list_key_without_values_gives_an_empty_list() {
    let (header, _) = parse("FIELDS\nSIZE\nTYPE\nCOUNT\nDATA binary\n").unwrap();
    assert!(header.fields.is_empty());
    assert!(header.size.is_empty());
    assert!(header.field_type.is_empty());
    assert!(header.count.is_empty());
}

#[test]
fn two_spaces_make_an_empty_token() {
    let (header, _) = parse("FIELDS x  y\nDATA binary\n").unwrap();
    assert_eq!(names(&header.fields), vec!["x", "", "y"]);
    assert_eq!(parse("SIZE 4  4\nDATA binary\n").unwrap_err(), CloudError::FormatError);
}

#[test]
fn numbers_are_unsigned_decimals() {
    let (header, _) = parse("SIZE +4 007 0\nDATA binary\n").unwrap();
    assert_eq!(header.size, vec![4, 7, 0]);
    for bad in ["-4", "4.0", "0x4", "four", "+", "", "4e2", "99999999999999999999999999"] {
        let text = format!("WIDTH {}\nDATA binary\n", bad);
        assert_eq!(parse(&text).unwrap_err(), CloudError::FormatError, "{:?}", bad);
    }
}

#[test]
fn the_largest_number_is_accepted() {
    let text = format!("WIDTH {}\nDATA binary\n", usize::MAX);
    assert_eq!(parse(&text).unwrap().0.width, usize::MAX);
    let text = format!("WIDTH {}0\nDATA binary\n", usize::MAX);
    assert_eq!(parse(&text).unwrap_err(), CloudError::FormatError);
}

#[test]
fn a_key_without_its_value_is_malformed() {
    for line in ["VERSION", "WIDTH", "HEIGHT", "DATA"] {
        let text = format!("{}\nDATA binary\n", line);
        assert_eq!(parse(&text).unwrap_err(), CloudError::FormatError, "{:?}", line);
    }
}

#[test]
fn a_header_without_a_data_line_is_malformed() {
    assert_eq!(parse("").unwrap_err(), CloudError::FormatError);
    assert_eq!(parse("VERSION .7\nWIDTH 3\n").unwrap_err(), CloudError::FormatError);
}

#[test]
fn error_messages() {
    assert_eq!(CloudError::FormatError.message(), "the point-cloud file is malformed");
    assert_eq!(
        CloudError::InvalidInput.message(),
        "the input is outside what the operation accepts"
    );
}
