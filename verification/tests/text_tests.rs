use mac_changer::text::{
    byte_len, can_cut_at, chars_of, contains_part, cut_head, decimal_text, has_start, insert_sorted,
    is_listed, same_text, split_fields, split_lines, split_words, string_of, strip_chars, text_precedes,
    trim, trim_char,
};

fn corpus() -> Vec<&'static str> {
    vec![
        "",
        " ",
        "a",
        "\n",
        "\r\n",
        "a\nb",
        "a\r\nb\r",
        "a\n\nb\n",
        "\n\n",
        "  lead and trail \t",
        "\u{a0}nbsp\u{2003}em space\u{3000}",
        "link/ether 02:11:22:33:44:55 brd ff:ff:ff:ff:ff:ff",
        "one,two,,three,",
        "\"quoted\",\"\"\"x\"",
        "tabs\tand\u{b}vertical\u{c}feeds\r",
        "Grüße aus Köln",
        "DRIVER=e1000e\nPCI_ID=8086:15B8\n",
        "x\r\r\ny",
        "trailing\r\n\r\n",
    ]
}

fn texts(v: Vec<Vec<char>>) -> Vec<String> {
    v.iter().map(|w| w.iter().collect::<String>()).collect()
}

#[test]
fn chars_and_strings_convert_both_ways() {
    for s in corpus() {
        let chars = chars_of(s);
        assert_eq!(chars, s.chars().collect::<Vec<char>>());
        assert_eq!(string_of(&chars), s);
        assert_eq!(byte_len(s), s.len());
    }
}

#[test]
fn lines_are_cut_as_by_the_standard_library() {
    for s in corpus() {
        let expected: Vec<String> = s.lines().map(|l| l.to_string()).collect();
        assert_eq!(texts(split_lines(&chars_of(s))), expected, "lines of {:?}", s);
    }
}

#[test]
fn words_are_cut_as_by_the_standard_library() {
    for s in corpus() {
        let expected: Vec<String> = s.split_whitespace().map(|l| l.to_string()).collect();
        assert_eq!(texts(split_words(&chars_of(s))), expected, "words of {:?}", s);
    }
}

#[test]
fn trimming_is_as_in_the_standard_library() {
    for s in corpus() {
        assert_eq!(string_of(&trim(&chars_of(s))), s.trim(), "trim of {:?}", s);
        assert_eq!(string_of(&trim_char(&chars_of(s), '"')), s.trim_matches('"'));
        assert_eq!(string_of(&trim_char(&chars_of(s), ',')), s.trim_matches(','));
    }
}

#[test]
fn fields_are_cut_at_every_separator() {
    for s in corpus() {
        let expected: Vec<String> = s.split(',').map(|l| l.to_string()).collect();
        assert_eq!(texts(split_fields(&chars_of(s), &vec![','])), expected);
        let expected: Vec<String> = s.split(|c| c == ':' || c == '-').map(|l| l.to_string()).collect();
        assert_eq!(texts(split_fields(&chars_of(s), &vec![':', '-'])), expected);
    }
    assert_eq!(texts(split_fields(&chars_of("a:b-c"), &vec![':', '-'])), vec!["a", "b", "c"]);
    assert_eq!(texts(split_fields(&chars_of(""), &vec![':'])), vec![""]);
    assert_eq!(texts(split_fields(&chars_of("::"), &vec![':'])), vec!["", "", ""]);
}

#[test]
fn stripping_removes_the_given_characters() {
    for s in corpus() {
        assert_eq!(
            string_of(&strip_chars(&chars_of(s), &vec![':', '-', '.'])),
            s.replace([':', '-', '.'], "")
        );
    }
    assert_eq!(string_of(&strip_chars(&chars_of("00:1a-2b.3c"), &vec![':', '-', '.'])), "001a2b3c");
}

#[test]
fn searching_is_as_in_the_standard_library() {
    let parts = ["", "a", "ether", "link/ether", "\n", "b\r", ",,", "DRIVER=", "zzz"];
    for s in corpus() {
        for p in parts {
            assert_eq!(contains_part(&chars_of(s), &chars_of(p)), s.contains(p), "{:?} in {:?}", p, s);
            assert_eq!(has_start(&chars_of(s), &chars_of(p)), s.starts_with(p));
        }
    }
}

#[test]
fn texts_are_ordered_as_strings_are() {
    let all = corpus();
    for a in &all {
        for b in &all {
            assert_eq!(text_precedes(a, b), a < b, "{:?} < {:?}", a, b);
            assert_eq!(same_text(a, b), a == b);
        }
    }
    assert!(text_precedes("DE", "US"));
    assert!(text_precedes("US", "USA"));
    assert!(!text_precedes("US", "US"));
    assert!(text_precedes("Z", "a"));
    assert!(text_precedes("z", "é"));
}

#[test]
fn sorted_insertion_keeps_order_and_drops_repeats() {
    let mut list: Vec<String> = Vec::new();
    for c in ["US", "DE", "CN", "US", "TW", "DE", "AT"] {
        insert_sorted(&mut list, c.to_string());
    }
    assert_eq!(list, vec!["AT", "CN", "DE", "TW", "US"]);
    assert!(is_listed(&list, "TW"));
    assert!(!is_listed(&list, "tw"));
}

#[test]
fn numbers_are_written_in_base_ten() {
    for n in [0usize, 1, 9, 10, 11, 99, 100, 101, 12345, usize::MAX] {
        assert_eq!(decimal_text(n), n.to_string());
    }
}

#[test]
fn heads_are_cut_at_character_boundaries() {
    assert!(can_cut_at("00:1a:2b:3c", 8));
    assert_eq!(cut_head("00:1a:2b:3c", 8), "00:1a:2b");
    assert!(can_cut_at("12345678", 8));
    assert!(!can_cut_at("1234567", 8));
    assert!(!can_cut_at("1234567é", 8));
    assert!(can_cut_at("123456é", 8));
    assert_eq!(cut_head("123456é9", 8), "123456é");
    assert!(can_cut_at("", 0));
}
