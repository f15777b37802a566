use pipeshare::text::{
    begins, chars_of, copy_strings, head, holds, is_blank, joined, place, position, split_at_each,
    split_lines, split_words, string_of, strings_of, stripped, tail, trimmed,
};

fn strings(slices: Vec<&[char]>) -> Vec<String> {
    slices.iter().map(|s| s.iter().collect()).collect()
}

#[test]
fn white_space_is_that_of_the_standard_library() {
    for code in 0..=0x10FFFFu32 {
        if let Some(c) = char::from_u32(code) {
            assert_eq!(is_blank(&[c]), c.is_whitespace(), "U+{:04X}", code);
        }
    }
    let expected: Vec<u32> = vec![
        0x9, 0xa, 0xb, 0xc, 0xd, 0x20, 0x85, 0xa0, 0x1680, 0x2000, 0x2001, 0x2002, 0x2003, 0x2004,
        0x2005, 0x2006, 0x2007, 0x2008, 0x2009, 0x200a, 0x2028, 0x2029, 0x202f, 0x205f, 0x3000,
    ];
    let found: Vec<u32> = (0..=0x10FFFFu32)
        .filter(|code| char::from_u32(*code).map_or(false, |c| is_blank(&[c])))
        .collect();
    assert_eq!(found, expected);
}

#[test]
fn characters_and_strings_go_both_ways() {
    for text in ["", "a", "Grüße — 日本", "\u{1f600}\n"] {
        assert_eq!(string_of(&chars_of(text)), text);
        assert_eq!(chars_of(text), text.chars().collect::<Vec<char>>());
    }
}

#[test]
fn trimming_takes_white_space_off_both_ends() {
    for text in ["", " ", " a", "a ", "\t a b \r\n", "\u{3000}x\u{a0}", "none"] {
        assert_eq!(string_of(trimmed(&chars_of(text))), text.trim());
    }
}

#[test]
fn stripping_takes_one_character_off_both_ends() {
    for text in ["", "\"", "\"Firefox\"", "\"\"a\"b\"\"", "plain", " \"x\" "] {
        assert_eq!(string_of(stripped(&chars_of(text), '"')), text.trim_matches('"'));
    }
}

#[test]
fn blank_texts_hold_white_space_only() {
    assert!(is_blank(&chars_of("")));
    assert!(is_blank(&chars_of(" \t\n")));
    assert!(!is_blank(&chars_of(" x ")));
}

#[test]
fn fields_are_cut_at_a_character() {
    for text in ["", ":", "a", "a:b", "a:b:c", ":b", "a:"] {
        let chars = chars_of(text);
        assert_eq!(string_of(head(&chars, ':')), text.split(':').next().unwrap());
        assert_eq!(
            tail(&chars, ':').map(string_of),
            text.split_once(':').map(|(_, rest)| rest.to_string())
        );
    }
    assert_eq!(position(&chars_of("a:b"), ':'), 1);
    assert_eq!(position(&chars_of("ab"), ':'), 2);
}

#[test]
fn lines_end_with_a_line_feed_or_both_characters() {
    for text in ["", "\n", "a", "a\n", "a\nb", "a\r\nb\r\n", "a\r", "\r\n", "a\n\nb", "a\r\r\nb", "\n\r"] {
        let expected: Vec<String> = text.lines().map(String::from).collect();
        assert_eq!(strings(split_lines(&chars_of(text))), expected, "{:?}", text);
    }
}

#[test]
fn pieces_are_one_more_than_the_separators() {
    for text in ["", "\n", "a", "a\nb", "\na\n"] {
        let expected: Vec<String> = text.split('\n').map(String::from).collect();
        assert_eq!(strings(split_at_each(&chars_of(text), '\n')), expected, "{:?}", text);
    }
}

#[test]
fn words_are_runs_without_white_space() {
    for text in ["", "  ", "a", " a  b\tc\n", "12\tmodule-null-sink\targs"] {
        let expected: Vec<String> = text.split_whitespace().map(String::from).collect();
        assert_eq!(strings(split_words(&chars_of(text))), expected, "{:?}", text);
    }
}

#[test]
fn one_text_is_found_in_another() {
    let texts = ["", "a", "ab", "aab", "PipeShare_Mic", "xPipeShar"];
    let parts = ["", "a", "ab", "PipeShare", "b", "abc"];
    for text in texts {
        for part in parts {
            assert_eq!(holds(&chars_of(text), part), text.contains(part), "{} {}", text, part);
            assert_eq!(place(&chars_of(text), part), text.find(part).unwrap_or(text.len()));
            assert_eq!(begins(&chars_of(text), part), text.starts_with(part), "{} {}", text, part);
        }
    }
}

#[test]
fn strings_are_copied_and_joined() {
    let list = strings_of(&["a", "", "b c"]);
    assert_eq!(list, vec!["a".to_string(), String::new(), "b c".to_string()]);
    assert_eq!(copy_strings(&list), list);
    assert_eq!(joined(&list, ", "), "a, , b c");
    assert_eq!(joined(&[], ", "), "");
    assert_eq!(joined(&strings_of(&["one"]), ", "), "one");
}
