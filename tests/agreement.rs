use rsh::env::split_search_path;
use rsh::text::{split_ascii_words, trim_whitespace};

const SAMPLES: [&str; 8] = [
    "",
    "plain",
    "  two  words \n",
    "\u{b}vertical tab\u{b}",
    "\u{c}form\u{c}feed\u{c}",
    "\u{85}next line\u{2028}",
    "a:b::c:",
    "\t\r\n mixed \u{3000}\u{a0}",
];

#[test]
fn trim_agrees_with_str_trim() {
    for s in SAMPLES {
        assert_eq!(trim_whitespace(s), s.trim(), "{:?}", s);
    }
}

#[test]
fn words_agree_with_split_ascii_whitespace() {
    for s in SAMPLES {
        let expected: Vec<String> = s.split_ascii_whitespace().map(|w| w.to_string()).collect();
        assert_eq!(split_ascii_words(s), expected, "{:?}", s);
    }
}

#[test]
fn search_path_agrees_with_split() {
    for s in SAMPLES {
        let expected: Vec<String> = s.split(':').map(|w| w.to_string()).collect();
        assert_eq!(split_search_path(s), expected, "{:?}", s);
    }
}
