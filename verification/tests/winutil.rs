use windows_sandbox::winutil::{format_last_error, from_wide_lossy, terminated, to_wide, white_space};

#[test]
fn wide_text_is_utf16_with_a_terminator() {
    assert_eq!(to_wide(""), vec![0]);
    assert_eq!(to_wide("ab"), vec![0x61, 0x62, 0]);
    assert_eq!(to_wide("\u{1f980}"), vec![0xD83E, 0xDD80, 0]);
    let text = "a\u{7ff}\u{800}\u{ffff}\u{10000}\u{10ffff} z";
    let mut expected: Vec<u16> = text.encode_utf16().collect();
    expected.push(0);
    assert_eq!(to_wide(text), expected);
}

#[test]
fn terminator_is_appended_to_units() {
    assert_eq!(terminated(vec![0xD800, 0x41]), vec![0xD800, 0x41, 0]);
}

#[test]
fn wide_text_is_read_back() {
    let text = "C:\\\u{e9}\u{4e2d}\u{1f980}";
    let mut units = to_wide(text);
    units.pop();
    let read: String = from_wide_lossy(&units).into_iter().collect();
    assert_eq!(read, text);
}

#[test]
fn unpaired_surrogates_are_replaced() {
    let samples: [&[u16]; 7] = [
        &[0xD800],
        &[0xDC00],
        &[0xD800, 0x41],
        &[0xDC00, 0xD800],
        &[0xD800, 0xD800, 0xDC00],
        &[0x41, 0xDBFF, 0xDFFF, 0x42],
        &[],
    ];
    for units in samples {
        let read: String = from_wide_lossy(&units.to_vec()).into_iter().collect();
        assert_eq!(read, String::from_utf16_lossy(units));
    }
}

#[test]
fn white_space_is_that_of_unicode() {
    for number in 0..=0x10FFFFu32 {
        if let Some(c) = char::from_u32(number) {
            assert_eq!(white_space(c), c.is_whitespace());
        }
    }
}

#[test]
fn message_is_trimmed() {
    let mut message = to_wide("  Access is denied.\r\n\u{3000}");
    message.pop();
    assert_eq!(format_last_error(5, Some(message)), "Access is denied.");
    let mut blank = to_wide(" \t");
    blank.pop();
    assert_eq!(format_last_error(5, Some(blank)), "");
}

#[test]
fn missing_message_gives_the_code() {
    assert_eq!(format_last_error(5, None), "Win32 error 5");
    assert_eq!(format_last_error(0, Some(Vec::new())), "Win32 error 0");
    assert_eq!(format_last_error(u32::MAX, None), "Win32 error 4294967295");
}
