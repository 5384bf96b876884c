//! The metadata block at the head of a page.
//!
//! A page may begin with a block of metadata between two delimiter lines:
//!
//! ```text
//! ---
//! title: Foo
//! ---
//! # The body
//! ```
//!
//! The block counts only where the opening delimiter is the first thing in the
//! page after leading whitespace. A page that merely contains such a block
//! further down has no metadata.
//!
//! Turning the block into a [`Frontmatter`] is the work of a YAML deserializer,
//! which the caller hands in as a function from the block's text to the
//! record. This module decides which text that function gets and what is left
//! as the body.

use crate::text::{
    chars_of, contains, find, first_occurrence, leading_whitespace, lemma_first_occurrence_after,
    lemma_leading_stops, lemma_trim_after_whitespace, lemma_trim_is_trimmed,
    lemma_trim_start_of_text, matches_at, trim, trim_bounds, trim_start, whitespace,
};
#[allow(deprecated)]
use serde_yml::Error as YamlError;
use vstd::prelude::*;
use vstd::slice::slice_subrange;
use vstd::string::StrSliceExecFns;

verus! {

/// The metadata of a page, as deserialized from its metadata block.
#[derive(Debug)]
pub struct Frontmatter<E = ()> {
    /// The page's title, where the block gives one.
    pub title: Option<String>,
    /// The page's description, where the block gives one.
    pub description: Option<String>,
    /// The other fields of the block.
    pub extra: E,
}

/// What a [`Frontmatter`] holds.
pub ghost struct FrontmatterView<E> {
    pub title: Option<Seq<char>>,
    pub description: Option<Seq<char>>,
    pub extra: E,
}

/// The text of an optional string.
pub open spec fn text_of(s: Option<String>) -> Option<Seq<char>> {
    match s {
        Some(s) => Some(s@),
        None => None,
    }
}

impl<E> View for Frontmatter<E> {
    type V = FrontmatterView<E>;

    open spec fn view(&self) -> FrontmatterView<E> {
        FrontmatterView {
            title: text_of(self.title),
            description: text_of(self.description),
            extra: self.extra,
        }
    }
}

/// What opens a metadata block: three dashes and a newline.
pub open spec fn opening() -> Seq<char> {
    seq!['-', '-', '-', '\n']
}

/// What closes a metadata block: a newline and three dashes.
pub open spec fn closing() -> Seq<char> {
    seq!['\n', '-', '-', '-']
}

/// The YAML that stands for a page without a metadata block: an empty
/// mapping.
pub open spec fn empty_mapping() -> Seq<char> {
    seq!['{', '}']
}

/// The metadata block that `content` begins with and the body that follows
/// it, or `None` where `content` does not begin with a closed block.
///
/// The block is the text strictly between the opening delimiter and the first
/// closing delimiter after it, as it stands. The body is all that follows that
/// closing delimiter, without surrounding whitespace.
pub open spec fn block(content: Seq<char>) -> Option<(Seq<char>, Seq<char>)> {
    let text = trim_start(content);
    if opening().is_prefix_of(text) {
        let rest = text.skip(opening().len() as int);
        match first_occurrence(rest, closing()) {
            Some(end) => Some((rest.take(end), trim(rest.skip(end + closing().len())))),
            None => None,
        }
    } else {
        None
    }
}

/// The metadata block of `content`, where it begins with one.
pub open spec fn matter_of(content: Seq<char>) -> Option<Seq<char>> {
    match block(content) {
        Some((matter, _)) => Some(matter),
        None => None,
    }
}

/// The YAML text of the metadata of `content`: its metadata block, or an
/// empty mapping where it has none.
pub open spec fn metadata(content: Seq<char>) -> Seq<char> {
    match matter_of(content) {
        Some(matter) => matter,
        None => empty_mapping(),
    }
}

/// The body of `content`: what follows its metadata block, or all of it
/// where it has none, without surrounding whitespace.
pub open spec fn body_of(content: Seq<char>) -> Seq<char> {
    match block(content) {
        Some((_, body)) => body,
        None => trim(content),
    }
}

/// Whether `deserialize`, handed the metadata of `content`, may return
/// `parsed`.
pub open spec fn deserializes<E, D>(
    deserialize: D,
    content: Seq<char>,
    parsed: Result<Frontmatter<E>, YamlError>,
) -> bool where D: FnOnce(&str) -> Result<Frontmatter<E>, YamlError> {
    exists|matter: &str|
        #![trigger call_ensures(deserialize, (matter,), parsed)]
        matter@ == metadata(content) && call_ensures(deserialize, (matter,), parsed)
}

/// A page that does not begin with the opening delimiter has no metadata
/// block, whatever delimiters stand further down: all of it is body.
pub proof fn lemma_block_is_anchored(content: Seq<char>)
    requires
        !opening().is_prefix_of(trim_start(content)),
    ensures
        block(content) is None,
        matter_of(content) is None,
        body_of(content) == trim(content),
{
}

/// A page without a closed metadata block at its head is all body: its body
/// is the page without surrounding whitespace.
pub proof fn lemma_body_without_block(content: Seq<char>)
    requires
        block(content) is None,
    ensures
        matter_of(content) is None,
        metadata(content) == empty_mapping(),
        body_of(content) == trim(content),
{
}

/// The body of a page neither begins nor ends with whitespace.
pub proof fn lemma_body_is_trimmed(content: Seq<char>)
    ensures
        trim(body_of(content)) == body_of(content),
{
    match block(content) {
        Some(_) => {
            let rest = trim_start(content).skip(opening().len() as int);
            let end = first_occurrence(rest, closing())->0;
            lemma_trim_is_trimmed(rest.skip(end + closing().len()));
        },
        None => {
            lemma_trim_is_trimmed(content);
        },
    }
}

/// A page put together from a metadata block and a body splits into that
/// block and that body: where `matter` holds no closing delimiter, the page
/// that opens with the delimiter line, goes on with `matter`, the closing
/// delimiter and a newline, and ends with `body`, has the block `matter`, as it
/// stands, and the body `body` without surrounding whitespace.
pub proof fn lemma_block_round_trip(matter: Seq<char>, body: Seq<char>)
    requires
        !contains(matter, closing()),
    ensures
        block(opening() + matter + closing() + seq!['\n'] + body) == Some((matter, trim(body))),
        matter_of(opening() + matter + closing() + seq!['\n'] + body) == Some(matter),
        metadata(opening() + matter + closing() + seq!['\n'] + body) == matter,
        body_of(opening() + matter + closing() + seq!['\n'] + body) == trim(body),
{
    let content = opening() + matter + closing() + seq!['\n'] + body;
    let after = seq!['\n'] + body;
    let rest = matter + closing() + after;
    let end = matter.len() as int;
    lemma_trim_start_of_text(content);
    assert(content.skip(opening().len() as int) =~= rest);
    lemma_first_occurrence_after(matter, closing(), after);
    assert(rest.skip(end + closing().len()) =~= after);
    lemma_trim_after_whitespace('\n', body);
}

/// Splits `content` into its metadata block and its body.
pub fn split_frontmatter(content: &str) -> (r: Option<(&str, &str)>)
    ensures
        match r {
            Some((matter, body)) => block(content@) == Some((matter@, body@)),
            None => block(content@) is None,
        },
{
    let chars = chars_of(content);
    let all = chars.as_slice();
    let lead = leading_whitespace(all);
    proof {
        lemma_leading_stops(all@, whitespace());
    }
    let text = slice_subrange(all, lead, all.len());
    let open: [char; 4] = ['-', '-', '-', '\n'];
    if !matches_at(text, open.as_slice(), 0) {
        return None;
    }
    let rest = slice_subrange(text, 4, text.len());
    let close: [char; 4] = ['\n', '-', '-', '-'];
    match find(rest, close.as_slice()) {
        None => None,
        Some(end) => {
            let tail = slice_subrange(rest, end + 4, rest.len());
            let (from, to) = trim_bounds(tail);
            let start = lead + 4;
            let matter = content.substring_char(start, start + end);
            let body = content.substring_char(start + end + 4 + from, start + end + 4 + to);
            Some((matter, body))
        },
    }
}

/// `content` without surrounding whitespace.
pub fn trimmed(content: &str) -> (r: &str)
    ensures
        r@ == trim(content@),
{
    let chars = chars_of(content);
    let (from, to) = trim_bounds(chars.as_slice());
    content.substring_char(from, to)
}

/// Splits `content` into its metadata block, if it has one, and its body. A
/// page without a metadata block is all body.
pub fn split(content: &str) -> (r: (Option<&str>, &str))
    ensures
        match r.0 {
            Some(matter) => matter_of(content@) == Some(matter@),
            None => matter_of(content@) is None,
        },
        r.1@ == body_of(content@),
        block(content@) is None ==> r.0 is None && r.1@ == trim(content@),
{
    match split_frontmatter(content) {
        Some((matter, body)) => (Some(matter), body),
        None => (None, trimmed(content)),
    }
}

impl<E> Frontmatter<E> {
    /// Deserializes the metadata of `content` with `deserialize` and returns
    /// it with the body of `content`. Where `content` has no metadata block,
    /// `deserialize` is handed an empty mapping, `{}`. Fails as `deserialize`
    /// fails.
    pub fn parse<'a, D>(content: &'a str, deserialize: D) -> (r: Result<(Self, &'a str), YamlError>)
        where D: FnOnce(&str) -> Result<Frontmatter<E>, YamlError>
        requires
            forall|matter: &str|
                matter@ == metadata(content@) ==> call_requires(deserialize, (matter,)),
        ensures
            match r {
                Ok((frontmatter, body)) => deserializes(deserialize, content@, Ok(frontmatter))
                    && body@ == body_of(content@),
                Err(e) => deserializes(deserialize, content@, Err(e)),
            },
    {
        let (matter, body) = split(content);
        let matter = match matter {
            Some(matter) => matter,
            None => {
                proof {
                    reveal_strlit("{}");
                }
                assert("{}"@ == empty_mapping());
                "{}"
            },
        };
        match deserialize(matter) {
            Ok(frontmatter) => Ok((frontmatter, body)),
            Err(e) => Err(e),
        }
    }
}

} // verus!
