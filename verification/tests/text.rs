use task_shell::text::{
    begins_with, is_less, join, number_text, read_number, same_text, size_text, split,
};

fn strings(words: &[&str]) -> Vec<String> {
    words.iter().map(|w| w.to_string()).collect()
}

#[test]
fn join_undoes_split() {
    for text in ["", "a", "a|b", "|", "||a|", "ü|ß"] {
        assert_eq!(join(&split(text, '|'), "|"), text);
    }
    assert_eq!(split("a|b||c", '|'), strings(&["a", "b", "", "c"]));
    assert_eq!(join(&strings(&["a", "b c", ""]), " "), "a b c ");
    assert_eq!(join(&Vec::new(), " "), "");
}

#[test]
fn numbers_read_back() {
    for n in [0, 7, -1, 1234567890, i64::MAX, i64::MIN] {
        assert_eq!(number_text(n), n.to_string());
        assert_eq!(read_number(&number_text(n)), Some(n));
    }
    assert_eq!(size_text(u64::MAX), u64::MAX.to_string());
}

#[test]
fn numbers_are_read_like_integers() {
    for text in ["", "+", "-", "1.5", " 1", "1 ", "0x1", "--1", "9223372036854775808", "١"] {
        assert_eq!(read_number(text), None, "{text}");
        assert_eq!(text.parse::<i64>().ok(), None, "{text}");
    }
    for text in ["+5", "-0", "007", "9223372036854775807", "-9223372036854775808"] {
        assert_eq!(read_number(text), text.parse::<i64>().ok(), "{text}");
    }
}

#[test]
fn texts_are_ordered_like_strings() {
    let texts = ["", "a", "ab", "b", "Z", "ä", "\u{10000}", "\u{ffff}"];
    for a in texts {
        for b in texts {
            assert_eq!(is_less(a, b), a < b, "{a} {b}");
            assert_eq!(same_text(a, b), a == b);
            assert_eq!(is_less(a, b) as u8 + is_less(b, a) as u8 + same_text(a, b) as u8, 1);
        }
    }
    assert!(begins_with("!x", '!'));
    assert!(!begins_with("", '!'));
}
