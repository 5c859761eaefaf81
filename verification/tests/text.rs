use chart_render::text::{
    append_decimal, chars_of, contains, is_white_space, same_text, split_whitespace, trim,
};

#[test]
fn white_space_is_that_of_unicode() {
    for u in 0..=0x10ffffu32 {
        if let Some(c) = char::from_u32(u) {
            assert_eq!(is_white_space(c), c.is_whitespace(), "U+{:04X}", u);
        }
    }
}

#[test]
fn splitting_agrees_with_the_standard_library() {
    let texts = [
        "",
        " ",
        "one",
        " one",
        "one ",
        "one two",
        "  one \t two\n\nthree\u{3000}four ",
        "a\u{a0}b\u{200a}c\u{2028}\u{85}d",
        "über\u{1680}größe 越",
        "-y -f rawvideo -c:v rawvideo",
    ];
    for text in texts {
        let expected: Vec<String> = text.split_whitespace().map(|w| w.to_string()).collect();
        assert_eq!(split_whitespace(text), expected);
    }
}

#[test]
fn joining_at_white_space_joins_the_words() {
    let left = "a bc ";
    let right = "d  e";
    let joined = format!("{}{}", left, right);
    let mut expected = split_whitespace(left);
    expected.extend(split_whitespace(right));
    assert_eq!(split_whitespace(&joined), expected);
    assert_eq!(split_whitespace("abcd"), vec!["abcd".to_string()]);
    for word in split_whitespace("  x  yz ") {
        assert!(!word.is_empty());
        assert!(!word.chars().any(is_white_space));
    }
}

#[test]
fn trimming_agrees_with_the_standard_library() {
    for text in ["", "  ", "x", " x", "x ", "\t\"a b\"\r\n", "\u{3000}a\u{2009}"] {
        assert_eq!(trim(text), text.trim());
        assert_eq!(split_whitespace(&trim(text)), split_whitespace(text));
    }
}

#[test]
fn search_agrees_with_the_standard_library() {
    let hay = " DEV.LS h264 (encoders: libx264 h264_nvenc h264_qsv)";
    for needle in ["h264_nvenc", "h264_qsv", "hevc_qsv", "", "h264_qsv)", "h264_qsv))", " DEV"] {
        assert_eq!(contains(hay, needle), hay.contains(needle));
    }
    assert!(contains("", ""));
    assert!(!contains("", "a"));
    assert!(contains("aab", "ab"));
}

#[test]
fn equal_texts() {
    assert!(same_text("CRF", "CRF"));
    assert!(!same_text("CRF", "crf"));
    assert!(!same_text("CRF", "CRFx"));
    assert!(same_text("", ""));
}

#[test]
fn characters_in_order() {
    assert_eq!(chars_of("aé越"), vec!['a', 'é', '越']);
}

#[test]
fn decimal_agrees_with_the_standard_library() {
    for n in [0u32, 7, 9, 10, 42, 60, 1080, 1920, 96000, u32::MAX] {
        let mut out = "n=".to_string();
        append_decimal(&mut out, n);
        assert_eq!(out, format!("n={}", n));
    }
}
