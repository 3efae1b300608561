use chat_console::grammar::{after_words_index, split_at_blank, split_words, trim_chars};
use chat_console::text::{
    append_chars, from_chars, is_space_char, push_chars, same_chars, to_chars,
};

fn chars(text: &str) -> Vec<char> {
    text.chars().collect()
}

fn texts(items: Vec<Vec<char>>) -> Vec<String> {
    items.into_iter().map(|l| l.into_iter().collect()).collect()
}

#[test]
fn strings_and_characters_convert_both_ways() {
    assert_eq!(to_chars("aé日\n"), vec!['a', 'é', '日', '\n']);
    assert_eq!(to_chars(""), Vec::<char>::new());
    assert_eq!(from_chars(&vec!['a', 'é', '日', '\n']), "aé日\n");
    assert_eq!(from_chars(&vec![]), "");
    let mut out = String::from("x");
    push_chars(&mut out, &chars("yz"));
    assert_eq!(out, "xyz");
}

#[test]
fn white_space_is_what_the_standard_library_calls_so() {
    for n in 0u32..0x3100 {
        if let Some(c) = char::from_u32(n) {
            assert_eq!(is_space_char(c), c.is_whitespace(), "{:?}", c);
        }
    }
    assert!(!is_space_char('\u{feff}'));
    assert!(!is_space_char('\u{200b}'));
    assert!(!is_space_char('\u{10ffff}'));
}

#[test]
fn appends() {
    let mut out = chars("ab");
    append_chars(&mut out, &chars("cd"));
    assert_eq!(out, chars("abcd"));
}

#[test]
fn comparisons() {
    assert!(same_chars(&chars("abc"), &chars("abc")));
    assert!(same_chars(&chars(""), &chars("")));
    assert!(!same_chars(&chars("abc"), &chars("abd")));
    assert!(!same_chars(&chars("abc"), &chars("ab")));
}

#[test]
fn words_are_what_stands_between_white_space() {
    assert_eq!(texts(split_words(&chars("a bc  d"))), vec!["a", "bc", "d"]);
    assert_eq!(texts(split_words(&chars("  a\t\nb\u{3000}c  "))), vec!["a", "b", "c"]);
    assert_eq!(texts(split_words(&chars(""))), Vec::<String>::new());
    assert_eq!(texts(split_words(&chars(" \t "))), Vec::<String>::new());
    assert_eq!(texts(split_words(&chars("one"))), vec!["one"]);
}

#[test]
fn words_agree_with_the_standard_library() {
    for text in ["", " ", "a", " a ", "a  b", "\ta\u{a0}b\u{2028}c\r\n", "日本 語"] {
        let expected: Vec<String> = text.split_whitespace().map(|w| w.to_string()).collect();
        assert_eq!(texts(split_words(&chars(text))), expected);
    }
}

#[test]
fn trimming_takes_white_space_from_both_ends() {
    assert_eq!(trim_chars(&chars("  a b \n")), chars("a b"));
    assert_eq!(trim_chars(&chars("a")), chars("a"));
    assert_eq!(trim_chars(&chars("")), chars(""));
    assert_eq!(trim_chars(&chars(" \t\u{3000}")), chars(""));
    for text in ["", " ", "a", " a ", "\u{a0}a  b\u{2028}", "\n\n"] {
        assert_eq!(from_chars(&trim_chars(&chars(text))), text.trim());
    }
}

#[test]
fn the_split_is_at_the_first_blank() {
    assert_eq!(split_at_blank(&chars("a b c")), (chars("a"), chars("b c")));
    assert_eq!(split_at_blank(&chars("abc")), (chars("abc"), chars("")));
    assert_eq!(split_at_blank(&chars("abc ")), (chars("abc"), chars("")));
    assert_eq!(split_at_blank(&chars(" abc")), (chars(""), chars("abc")));
    assert_eq!(split_at_blank(&chars("")), (chars(""), chars("")));
    assert_eq!(split_at_blank(&chars("a\tb c")), (chars("a\tb"), chars("c")));
    assert_eq!(split_at_blank(&chars("a  b")), (chars("a"), chars(" b")));
}

#[test]
fn the_index_after_a_word_is_that_of_the_white_space_that_ends_it() {
    let line = chars("  ab cde\tf ");
    assert_eq!(after_words_index(&line, 0), 0);
    assert_eq!(after_words_index(&line, 1), 4);
    assert_eq!(after_words_index(&line, 2), 8);
    assert_eq!(after_words_index(&line, 3), 10);
    assert_eq!(after_words_index(&line, 4), 11);
    assert_eq!(after_words_index(&line, usize::MAX), 11);
    assert_eq!(after_words_index(&chars("ab"), 1), 2);
    assert_eq!(after_words_index(&chars(""), 1), 0);
    assert_eq!(after_words_index(&chars("   "), 1), 3);
}
