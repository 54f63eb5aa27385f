use desktop_environment::wide::{pwstr_to_string, utf16_to_string, wide_null, NullWideString};

#[test]
fn wide_text_ends_with_a_null() {
    assert_eq!(wide_null(""), vec![0]);
    assert_eq!(wide_null("A\u{e9}"), vec![0x41, 0xe9, 0]);
    assert_eq!(wide_null("\u{1f600}"), vec![0xd83d, 0xde00, 0]);
}

#[test]
fn wide_text_agrees_with_the_standard_library() {
    for text in ["", "plain", "\u{7ff}\u{800}\u{ffff}", "\u{10000}\u{10ffff}", "a\0b"] {
        let expected: Vec<u16> = text.encode_utf16().chain(Some(0)).collect();
        assert_eq!(wide_null(text), expected);
    }
}

#[test]
fn wide_text_reads_back() {
    for text in ["", "\\\\.\\DISPLAY1", "\u{d7ff}\u{e000}\u{fffd}", "x\u{1f600}y\u{10ffff}"] {
        assert_eq!(utf16_to_string(&wide_null(text)), text);
    }
}

#[test]
fn text_after_a_null_is_not_read_back() {
    assert_eq!(utf16_to_string(&wide_null("a\0b")), "a");
}

#[test]
fn buffers_are_read_up_to_the_first_null() {
    assert_eq!(utf16_to_string(&[0x41, 0x42, 0, 0x43]), "AB");
    assert_eq!(utf16_to_string(&[0x41, 0x42]), "AB");
    assert_eq!(utf16_to_string(&[0, 0x41]), "");
    assert_eq!(utf16_to_string(&[]), "");
}

#[test]
fn unpaired_surrogates_are_replaced() {
    assert_eq!(utf16_to_string(&[0x41, 0xd83d]), "A\u{fffd}");
    assert_eq!(utf16_to_string(&[0xde00, 0x41]), "\u{fffd}A");
    assert_eq!(utf16_to_string(&[0xd83d, 0xd83d, 0xde00]), "\u{fffd}\u{1f600}");
    assert_eq!(utf16_to_string(&[0xd83d, 0x41]), "\u{fffd}A");
    assert_eq!(utf16_to_string(&[0xd83d, 0, 0xde00]), "\u{fffd}");
}

#[test]
fn reading_agrees_with_the_standard_library() {
    let units = [0x41, 0x7f, 0xd7ff, 0xd800, 0xdbff, 0xdc00, 0xdfff, 0xe000, 0xffff];
    for a in units {
        for b in units {
            for c in units {
                let buffer = [a, b, c];
                assert_eq!(utf16_to_string(&buffer), String::from_utf16_lossy(&buffer));
                assert_eq!(
                    pwstr_to_string(Some(&buffer)),
                    Ok(String::from_utf16_lossy(&buffer))
                );
            }
        }
    }
}

#[test]
fn there_is_no_text_behind_a_null_pointer() {
    assert_eq!(pwstr_to_string(None), Err(NullWideString));
    assert_eq!(NullWideString.message(), "received null wide string");
    assert_eq!(pwstr_to_string(Some(&[])), Ok(String::new()));
}
