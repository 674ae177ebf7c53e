use hyprdeck::text::{
    chars_of, parse_i64, parse_u32, parse_u64, replace_all, split_lines, split_words, text_less,
    trim,
};

fn s(v: &[char]) -> String {
    v.iter().collect()
}

#[test]
fn text_lines_words_trim() {
    let v = chars_of("a\r\nb\n\nc\r");
    let lines: Vec<String> = split_lines(&v).iter().map(|l| s(l)).collect();
    assert_eq!(lines, "a\r\nb\n\nc\r".lines().collect::<Vec<_>>());
    let v = chars_of(" one\u{a0}two\tthree  ");
    let words: Vec<String> = split_words(&v).iter().map(|w| s(w)).collect();
    assert_eq!(words, vec!["one", "two", "three"]);
    assert_eq!(s(&trim(&chars_of("\u{3000} x y \n"))), "x y");
}

#[test]
fn text_numbers_match_std() {
    for t in ["0", "+7", "-7", "", "+", "4294967295", "4294967296", "12a", "007"] {
        let v = chars_of(t);
        assert_eq!(parse_u32(&v), t.parse::<u32>().ok(), "{t}");
        assert_eq!(parse_u64(&v), t.parse::<u64>().ok(), "{t}");
        assert_eq!(
            parse_i64(&v).map_err(|e| e.message()),
            t.parse::<i64>().map_err(|e| e.to_string()),
            "{t}"
        );
    }
    for t in [
        "-9223372036854775808",
        "-9223372036854775809",
        "9223372036854775807",
        "-",
        "-+1",
        "99999999999999999999x",
        "x99999999999999999999",
        "-99999999999999999999x",
        "1 ",
        "\u{663}",
    ] {
        assert_eq!(
            parse_i64(&chars_of(t)).map_err(|e| e.message()),
            t.parse::<i64>().map_err(|e| e.to_string()),
            "{t}"
        );
    }
}

#[test]
fn text_order_and_replace() {
    assert!(text_less(&chars_of("B"), &chars_of("a")));
    assert!(text_less(&chars_of("ab"), &chars_of("abc")));
    assert!(!text_less(&chars_of("abc"), &chars_of("abc")));
    assert_eq!(
        s(&replace_all(&chars_of("a\\040b\\040"), &chars_of("\\040"), &chars_of(" "))),
        "a b "
    );
}
