use snapback::text::{
    char_is_space, chars_of, find_from, index_of, last_index, matches_at, slice_of, trim_bounds,
};

const TEXTS: [&str; 12] = [
    "",
    "a",
    "abcabc",
    "aaa",
    "  padded  ",
    "\t\n x \u{3000}",
    "\u{a0}\u{2003}",
    "ñandú & señor",
    "&sid=1&mid=2",
    "a:b:c",
    "..",
    "日本語のテキスト",
];

fn char_index(s: &str, byte: usize) -> usize {
    s[..byte].chars().count()
}

#[test]
fn characters_of_a_string() {
    assert_eq!(chars_of("añ日"), vec!['a', 'ñ', '日']);
    assert_eq!(chars_of(""), Vec::<char>::new());
}

#[test]
fn white_space_is_what_the_standard_library_takes_for_it() {
    for n in 0..=0x10ffffu32 {
        if let Some(c) = char::from_u32(n) {
            assert_eq!(char_is_space(c), c.is_whitespace(), "{n:#x}");
        }
    }
}

#[test]
fn pattern_is_matched_at_an_index() {
    let s = chars_of("abcabc");
    assert!(matches_at(&s, &chars_of("abc"), 0));
    assert!(matches_at(&s, &chars_of("abc"), 3));
    assert!(!matches_at(&s, &chars_of("abc"), 1));
    assert!(!matches_at(&s, &chars_of("abc"), 4));
    assert!(!matches_at(&s, &chars_of("abc"), 100));
    assert!(matches_at(&s, &chars_of(""), 6));
    assert!(!matches_at(&s, &chars_of(""), 7));
    assert!(!matches_at(&s, &chars_of("abcabca"), 0));
}

#[test]
fn first_occurrence_agrees_with_the_standard_library() {
    for text in TEXTS {
        let s = chars_of(text);
        for pat in ["a", "abc", "&mid", " ", "", "c", "bc", ".", "テキ", "ú &"] {
            let p = chars_of(pat);
            assert_eq!(
                find_from(&s, 0, &p),
                text.find(pat).map(|b| char_index(text, b)),
                "{text:?} {pat:?}"
            );
        }
    }
}

#[test]
fn search_can_begin_anywhere() {
    let s = chars_of("abcabc");
    let p = chars_of("bc");
    assert_eq!(find_from(&s, 0, &p), Some(1));
    assert_eq!(find_from(&s, 1, &p), Some(0));
    assert_eq!(find_from(&s, 2, &p), Some(2));
    assert_eq!(find_from(&s, 5, &p), None);
    assert_eq!(find_from(&s, 6, &p), None);
    assert_eq!(find_from(&s, 6, &chars_of("")), Some(0));
}

#[test]
fn first_and_last_index_agree_with_the_standard_library() {
    for text in TEXTS {
        let s = chars_of(text);
        for c in ['a', ':', '.', ' ', '&', 'ñ', '日', 'z'] {
            assert_eq!(
                index_of(&s, 0, s.len(), c),
                text.find(c).map(|b| char_index(text, b)),
                "{text:?} {c:?}"
            );
            assert_eq!(
                last_index(&s, 0, s.len(), c),
                text.rfind(c).map(|b| char_index(text, b)),
                "{text:?} {c:?}"
            );
        }
    }
}

#[test]
fn index_is_counted_from_the_start_of_the_range() {
    let s = chars_of("a:b:c");
    assert_eq!(index_of(&s, 2, 5, ':'), Some(1));
    assert_eq!(index_of(&s, 2, 3, ':'), None);
    assert_eq!(last_index(&s, 0, 3, ':'), Some(1));
    assert_eq!(last_index(&s, 2, 5, ':'), Some(1));
    assert_eq!(last_index(&s, 4, 5, ':'), None);
    assert_eq!(index_of(&s, 3, 3, ':'), None);
}

#[test]
fn trimming_agrees_with_the_standard_library() {
    for text in TEXTS {
        let s = chars_of(text);
        let (a, b) = trim_bounds(&s, 0, s.len());
        let trimmed: String = s[a..b].iter().collect();
        assert_eq!(trimmed, text.trim(), "{text:?}");
    }
}

#[test]
fn trimming_stays_within_the_range() {
    let s = chars_of("x  y  z");
    assert_eq!(trim_bounds(&s, 1, 6), (3, 4));
    assert_eq!(trim_bounds(&s, 1, 3), (3, 3));
    assert_eq!(trim_bounds(&s, 0, 7), (0, 7));
    assert_eq!(trim_bounds(&s, 2, 2), (2, 2));
}

#[test]
fn slice_is_counted_in_characters() {
    assert_eq!(slice_of("ñandú & señor", 0, 5), "ñandú");
    assert_eq!(slice_of("ñandú & señor", 8, 13), "señor");
    assert_eq!(slice_of("abc", 1, 1), "");
    assert_eq!(slice_of("abc", 0, 3), "abc");
}
