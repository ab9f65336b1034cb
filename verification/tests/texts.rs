use menus_manager::text::{
    char_is_whitespace, chars_of, ends_with, same_text, split_on, split_words, starts_with,
    string_of, text_is, trimmed,
};

fn pieces(text: &str, sep: char) -> Vec<String> {
    let chars = chars_of(text);
    split_on(&chars, sep).into_iter().map(string_of).collect()
}

fn words(text: &str) -> Vec<String> {
    let chars = chars_of(text);
    split_words(&chars).into_iter().map(string_of).collect()
}

fn trim(text: &str) -> String {
    string_of(trimmed(&chars_of(text)))
}

#[test]
fn characters_go_in_and_out_in_order() {
    assert_eq!(chars_of("a\u{e9}z"), vec!['a', '\u{e9}', 'z']);
    assert_eq!(chars_of(""), Vec::<char>::new());
    assert_eq!(string_of(&['o', 'u', 'i']), "oui");
    assert_eq!(string_of(&[]), "");
    assert_eq!(string_of(&chars_of("P\u{e2}tes \u{e0} l'ail")), "P\u{e2}tes \u{e0} l'ail");
}

#[test]
fn whitespace_is_what_unicode_says() {
    for c in ['\t', '\n', '\u{b}', '\u{c}', '\r', ' ', '\u{85}', '\u{a0}', '\u{1680}', '\u{2000}',
        '\u{2005}', '\u{200a}', '\u{2028}', '\u{2029}', '\u{202f}', '\u{205f}', '\u{3000}']
    {
        assert!(char_is_whitespace(c));
    }
    for c in ['a', '0', '#', ':', '\u{8}', '\u{e}', '\u{200b}', '\u{180e}', '\u{feff}', '\u{2060}'] {
        assert!(!char_is_whitespace(c));
    }
}

#[test]
fn whitespace_agrees_with_the_standard_library() {
    let mut n: u32 = 0;
    while n <= 0x3100 {
        if let Some(c) = char::from_u32(n) {
            assert_eq!(char_is_whitespace(c), c.is_whitespace());
        }
        n += 1;
    }
}

#[test]
fn trimming_takes_both_ends() {
    assert_eq!(trim("  a b \t"), "a b");
    assert_eq!(trim("a"), "a");
    assert_eq!(trim(""), "");
    assert_eq!(trim(" \u{a0}\r\n"), "");
    assert_eq!(trim("\u{3000}x\u{2003}"), "x");
}

#[test]
fn splitting_keeps_empty_pieces() {
    assert_eq!(pieces("250:g:flour", ':'), vec!["250", "g", "flour"]);
    assert_eq!(pieces("", ':'), vec![""]);
    assert_eq!(pieces(":", ':'), vec!["", ""]);
    assert_eq!(pieces("a::b:", ':'), vec!["a", "", "b", ""]);
    assert_eq!(pieces("no separator", ':'), vec!["no separator"]);
    assert_eq!(pieces("a\nb\n", '\n'), vec!["a", "b", ""]);
}

#[test]
fn words_are_runs_without_whitespace() {
    assert_eq!(words("for 4 persons"), vec!["for", "4", "persons"]);
    assert_eq!(words("  veggie \t yes  "), vec!["veggie", "yes"]);
    assert_eq!(words(""), Vec::<String>::new());
    assert_eq!(words(" \t "), Vec::<String>::new());
    assert_eq!(words("one"), vec!["one"]);
    assert_eq!(words("a\u{a0}b"), vec!["a", "b"]);
}

#[test]
fn comparing_texts() {
    assert!(same_text(&chars_of("oui"), &chars_of("oui")));
    assert!(!same_text(&chars_of("oui"), &chars_of("ouI")));
    assert!(!same_text(&chars_of("oui"), &chars_of("ou")));
    assert!(same_text(&[], &[]));
    assert!(text_is(&chars_of("yes"), "yes"));
    assert!(!text_is(&chars_of("Yes"), "yes"));
    assert!(starts_with(&chars_of("pasta"), &chars_of("pa")));
    assert!(starts_with(&chars_of("pasta"), &chars_of("")));
    assert!(starts_with(&chars_of("pasta"), &chars_of("pasta")));
    assert!(!starts_with(&chars_of("pasta"), &chars_of("as")));
    assert!(!starts_with(&chars_of("pa"), &chars_of("pasta")));
    assert!(ends_with(&chars_of("soup.txt"), &chars_of(".txt")));
    assert!(!ends_with(&chars_of("soup.txt.bak"), &chars_of(".txt")));
    assert!(!ends_with(&chars_of("txt"), &chars_of(".txt")));
    assert!(ends_with(&chars_of("x"), &chars_of("")));
}
