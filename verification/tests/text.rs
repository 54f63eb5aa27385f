use desktop_environment::text::{contains_text, eq_ignore_ascii_case, parse_u32, NumberError};

#[test]
fn case_is_ignored_for_ascii_letters_only() {
    assert!(eq_ignore_ascii_case("\\\\.\\DISPLAY3", "\\\\.\\display3"));
    assert!(eq_ignore_ascii_case("", ""));
    assert!(!eq_ignore_ascii_case("display", "display1"));
    assert!(!eq_ignore_ascii_case("\u{c9}", "\u{e9}"));
    assert!(!eq_ignore_ascii_case("[", "{"));
    assert!(!eq_ignore_ascii_case("@", "`"));
}

#[test]
fn parts_are_found_without_gaps() {
    assert!(contains_text("a frame is late", "frame"));
    assert!(contains_text("aab", "ab"));
    assert!(contains_text("anything", ""));
    assert!(contains_text("", ""));
    assert!(!contains_text("fr ame", "frame"));
    assert!(!contains_text("", "x"));
    assert!(!contains_text("short", "shorter"));
}

#[test]
fn numbers_are_read_like_the_standard_library_reads_them() {
    let texts = [
        "",
        "+",
        "-",
        "0",
        "-0",
        "+0",
        "++1",
        "16",
        "+16",
        "-16",
        " 16",
        "16 ",
        "007",
        "1_000",
        "0x10",
        "4294967295",
        "4294967296",
        "42949672950",
        "4294967295x",
        "4294967296x",
        "99999999999999999999999999",
        "x99999999999999999999999999",
        "+4294967296",
        "\u{0661}",
        "12\u{e9}",
    ];
    for text in texts {
        let read = parse_u32(text);
        match text.parse::<u32>() {
            Ok(number) => assert_eq!(read, Ok(number), "{text}"),
            Err(error) => {
                assert_eq!(read.unwrap_err().message(), error.to_string(), "{text}");
            }
        }
    }
}

#[test]
fn each_fault_of_a_number_has_its_own_error() {
    assert_eq!(parse_u32(""), Err(NumberError::Empty));
    assert_eq!(parse_u32("12a"), Err(NumberError::InvalidDigit));
    assert_eq!(parse_u32("4294967296"), Err(NumberError::TooLarge));
    assert_eq!(NumberError::Empty.message(), "cannot parse integer from empty string");
    assert_eq!(NumberError::InvalidDigit.message(), "invalid digit found in string");
    assert_eq!(NumberError::TooLarge.message(), "number too large to fit in target type");
}

#[test]
fn decimal_notation_reads_back() {
    for number in [0, 1, 9, 10, 16, 99, 100, 65_535, 4_294_967_295] {
        assert_eq!(parse_u32(&format!("{number}")), Ok(number));
    }
}
