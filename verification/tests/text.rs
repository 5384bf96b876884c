use flatpage::text::{
    chars_of, find, is_whitespace_char, leading_char, leading_whitespace, matches_at,
    replace_char, trailing_whitespace, trim_bounds,
};

fn chars(s: &str) -> Vec<char> {
    s.chars().collect()
}

#[test]
fn whitespace_is_what_std_takes_for_whitespace() {
    for n in 0..=0x10FFFFu32 {
        if let Some(c) = char::from_u32(n) {
            assert_eq!(is_whitespace_char(c), c.is_whitespace(), "U+{n:04X}");
        }
    }
}

#[test]
fn chars_of_keeps_every_character() {
    assert_eq!(chars_of(""), Vec::<char>::new());
    assert_eq!(chars_of("aß→𝄞"), vec!['a', 'ß', '→', '𝄞']);
}

#[test]
fn leading_and_trailing_whitespace_are_counted() {
    assert_eq!(leading_whitespace(&chars("")), 0);
    assert_eq!(leading_whitespace(&chars(" \t\nx y ")), 3);
    assert_eq!(leading_whitespace(&chars("   ")), 3);
    assert_eq!(trailing_whitespace(&chars("")), 0);
    assert_eq!(trailing_whitespace(&chars(" x y \r\n")), 3);
    assert_eq!(trailing_whitespace(&chars("   ")), 3);
}

#[test]
fn trim_bounds_enclose_the_trimmed_text() {
    assert_eq!(trim_bounds(&chars("")), (0, 0));
    assert_eq!(trim_bounds(&chars("   ")), (3, 3));
    assert_eq!(trim_bounds(&chars(" ab c  ")), (1, 5));
    assert_eq!(trim_bounds(&chars("abc")), (0, 3));
}

#[test]
fn leading_char_counts_one_character() {
    assert_eq!(leading_char(&chars("## foo"), '#'), 2);
    assert_eq!(leading_char(&chars(" ## foo"), '#'), 0);
    assert_eq!(leading_char(&chars("###"), '#'), 3);
    assert_eq!(leading_char(&chars(""), '#'), 0);
}

#[test]
fn matches_at_compares_in_place() {
    let s = chars("abcabc");
    assert!(matches_at(&s, &chars("abc"), 0));
    assert!(matches_at(&s, &chars("abc"), 3));
    assert!(!matches_at(&s, &chars("abc"), 1));
    assert!(!matches_at(&s, &chars("abc"), 4));
    assert!(!matches_at(&s, &chars("abc"), 7));
    assert!(matches_at(&s, &chars(""), 6));
    assert!(!matches_at(&s, &chars(""), 7));
    assert!(!matches_at(&s, &chars("abcabca"), 0));
}

#[test]
fn find_gives_the_leftmost_position() {
    assert_eq!(find(&chars("a\n---\n---"), &chars("\n---")), Some(1));
    assert_eq!(find(&chars("---"), &chars("\n---")), None);
    assert_eq!(find(&chars(""), &chars("x")), None);
    assert_eq!(find(&chars(""), &chars("")), Some(0));
    assert_eq!(find(&chars("abc"), &chars("")), Some(0));
    assert_eq!(find(&chars("aab"), &chars("ab")), Some(1));
    assert_eq!(find(&chars("ab"), &chars("abc")), None);
}

/// Every string over `alphabet` of at most `max` characters.
fn strings(alphabet: &[char], max: usize) -> Vec<String> {
    let mut all = vec![String::new()];
    let mut last = vec![String::new()];
    for _ in 0..max {
        last = last.iter().flat_map(|s| alphabet.iter().map(move |c| format!("{s}{c}"))).collect();
        all.extend(last.iter().cloned());
    }
    all
}

#[test]
fn find_agrees_with_std() {
    let words = strings(&['a', 'b'], 7);
    for s in &words {
        for pattern in words.iter().filter(|p| p.len() <= 3) {
            let expected = s.find(pattern.as_str());
            assert_eq!(find(&chars(s), &chars(pattern)), expected, "{s:?} {pattern:?}");
        }
    }
}

#[test]
fn replace_char_replaces_every_occurrence() {
    assert_eq!(replace_char(&chars("/a/b/"), '/', '^'), "^a^b^");
    assert_eq!(replace_char(&chars("abc"), '/', '^'), "abc");
    assert_eq!(replace_char(&chars(""), '/', '^'), "");
}
