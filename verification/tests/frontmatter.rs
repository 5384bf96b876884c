use flatpage::frontmatter::{split, split_frontmatter, trimmed};

#[test]
fn frontmatter_split_frontmatter_empty_page() {
    assert_eq!(split_frontmatter(""), None)
}

#[test]
fn frontmatter_split_frontmatter_no_opening_delimiter() {
    assert_eq!(split_frontmatter("foo"), None)
}

#[test]
fn frontmatter_split_frontmatter_doesnt_start_with_delimiter() {
    assert_eq!(split_frontmatter("foo\n---not a frontmatter\n---"), None)
}

#[test]
fn frontmatter_split_frontmatter_no_closing_delimiter() {
    assert_eq!(split_frontmatter("---\nnot a frontmatter"), None)
}

#[test]
fn frontmatter_split_frontmatter_empty_body() {
    assert_eq!(
        split_frontmatter("---\nmatter\n---").unwrap(),
        ("matter", "")
    )
}

#[test]
fn frontmatter_split_frontmatter_with_body() {
    assert_eq!(
        split_frontmatter("---\nmatter\n---\nbody").unwrap(),
        ("matter", "body")
    )
}

#[test]
fn lib_split_frontmatter_empty_page() {
    assert_eq!(split_frontmatter(""), None)
}

#[test]
fn lib_split_frontmatter_no_opening_delimiter() {
    assert_eq!(split_frontmatter("foo"), None)
}

#[test]
fn lib_split_frontmatter_doesnt_start_with_delimiter() {
    assert_eq!(split_frontmatter("foo\n---not a frontmatter\n---"), None)
}

#[test]
fn lib_split_frontmatter_no_closing_delimiter() {
    assert_eq!(split_frontmatter("---\nnot a frontmatter"), None)
}

#[test]
fn lib_split_frontmatter_empty_body() {
    assert_eq!(
        split_frontmatter("---\nmatter\n---").unwrap(),
        ("matter", "")
    )
}

#[test]
fn lib_split_frontmatter_with_body() {
    assert_eq!(
        split_frontmatter("---\nmatter\n---\nbody").unwrap(),
        ("matter", "body")
    )
}

#[test]
fn split_frontmatter_opening_delimiter_without_newline() {
    assert_eq!(split_frontmatter("---"), None);
    assert_eq!(split_frontmatter("--- \nmatter\n---"), None);
    assert_eq!(split_frontmatter("---\r\nmatter\r\n---"), None);
}

#[test]
fn split_frontmatter_skips_leading_whitespace() {
    assert_eq!(
        split_frontmatter(" \n\t---\nmatter\n---\nbody").unwrap(),
        ("matter", "body")
    );
}

#[test]
fn split_frontmatter_keeps_the_block_as_it_stands() {
    assert_eq!(
        split_frontmatter("---\n  a: 1 \n\n---\n\n body \n").unwrap(),
        ("  a: 1 \n", "body")
    );
}

#[test]
fn split_frontmatter_ends_the_block_at_the_first_closing_delimiter() {
    assert_eq!(
        split_frontmatter("---\na\n---\nb\n---\nc").unwrap(),
        ("a", "b\n---\nc")
    );
    assert_eq!(
        split_frontmatter("---\na\n----\nb").unwrap(),
        ("a", "-\nb")
    );
}

#[test]
fn split_frontmatter_needs_a_newline_before_the_closing_delimiter() {
    assert_eq!(split_frontmatter("---\n---"), None);
    assert_eq!(split_frontmatter("---\n---\nbody"), None);
    assert_eq!(split_frontmatter("---\n\n---").unwrap(), ("", ""));
}

#[test]
fn split_frontmatter_counts_characters_not_bytes() {
    assert_eq!(
        split_frontmatter("\u{2003}---\ntitle: Žluťoučký\n---\nkůň\u{a0}").unwrap(),
        ("title: Žluťoučký", "kůň")
    );
}

/// What std's `split_once` and `trim` make of `content`.
fn split_with_std(content: &str) -> Option<(&str, &str)> {
    let content = content.trim_start();
    let (prefix, rest) = content.split_once("---\n")?;
    if !prefix.is_empty() {
        return None;
    }
    let (matter, body) = rest.split_once("\n---")?;
    Some((matter, body.trim()))
}

/// Every string over `alphabet` of at most `max` characters.
fn strings(alphabet: &[char], max: usize) -> Vec<String> {
    let mut all = vec![String::new()];
    let mut last = vec![String::new()];
    for _ in 0..max {
        last = last.iter().flat_map(|s| alphabet.iter().map(move |c| format!("{s}{c}"))).collect();
        all.extend(last.iter().cloned());
    }
    all
}

#[test]
fn split_frontmatter_agrees_with_std_on_short_strings() {
    for content in strings(&['-', '\n', ' ', 'a'], 8) {
        assert_eq!(split_frontmatter(&content), split_with_std(&content), "{content:?}");
    }
}

#[test]
fn split_frontmatter_agrees_with_std_on_blocks() {
    for matter in strings(&['-', '\n', 'a'], 5) {
        for body in strings(&['-', '\n', ' '], 4) {
            let content = format!("---\n{matter}\n---{body}");
            assert_eq!(split_frontmatter(&content), split_with_std(&content), "{content:?}");
        }
    }
}

#[test]
fn split_without_a_block_gives_the_trimmed_content() {
    assert_eq!(split(""), (None, ""));
    assert_eq!(split("  # Foo\nBar \n"), (None, "# Foo\nBar"));
    assert_eq!(split("---\nnot closed"), (None, "---\nnot closed"));
    assert_eq!(split(" \n "), (None, ""));
}

#[test]
fn split_with_a_delimiter_further_down_gives_the_trimmed_content() {
    assert_eq!(
        split("foo\n---\ntitle: x\n---\nbar\n"),
        (None, "foo\n---\ntitle: x\n---\nbar")
    );
    assert_eq!(split("# ---\na\n---\n"), (None, "# ---\na\n---"));
}

#[test]
fn split_with_a_block_gives_the_block_and_the_body() {
    assert_eq!(split("---\ntitle: Foo\n---\n# Bar\n"), (Some("title: Foo"), "# Bar"));
}

#[test]
fn trimmed_agrees_with_std() {
    for s in strings(&[' ', '\n', 'a', '\u{3000}'], 7) {
        assert_eq!(trimmed(&s), s.trim(), "{s:?}");
    }
}

#[test]
fn split_gives_a_body_without_surrounding_whitespace() {
    for content in strings(&['-', '\n', ' ', 'a'], 8) {
        let (_, body) = split(&content);
        assert_eq!(body, body.trim(), "{content:?}");
    }
    let (_, body) = split("\u{a0}---\nx\n---\u{2003}\n b \u{3000}");
    assert_eq!(body, "b");
}

#[test]
fn split_of_a_page_put_together_gives_what_went_in() {
    for matter in strings(&['-', '\n', 'a', ' '], 5) {
        if matter.contains("\n---") {
            continue;
        }
        for body in ["", "body", " \n# Foo\n\ntext \n", "---\n---", "\n---\nx"] {
            let content = format!("---\n{matter}\n---\n{body}");
            assert_eq!(split(&content), (Some(matter.as_str()), body.trim()), "{content:?}");
        }
    }
}
