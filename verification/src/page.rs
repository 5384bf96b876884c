//! Pages: from the text of a file to its title, description and body, and
//! from a URL to the name of the file that holds its page.

use crate::error::Error;
use crate::frontmatter::{
    body_of, closing, deserializes, lemma_block_round_trip, metadata, opening, text_of,
    Frontmatter, FrontmatterView,
};
use crate::text::{
    chars_of, contains, find, first_occurrence, leading, leading_char, lemma_leading_stops,
    replace_char, replaced, trim, trim_bounds,
};
#[allow(deprecated)]
use serde_yml::Error as YamlError;
use vstd::prelude::*;
use vstd::slice::slice_subrange;
use vstd::string::{StrSliceExecFns, StringExecFns};

verus! {

/// A flat page. `E` holds the frontmatter fields besides `title` and
/// `description`.
#[derive(Debug)]
pub struct FlatPage<E = ()> {
    /// Title, for the html title tag, `og:title` and the like.
    pub title: String,
    /// Description, for the html meta description, `og:description` and the
    /// like.
    pub description: Option<String>,
    /// The body as raw markdown.
    pub body: String,
    /// The frontmatter fields besides `title` and `description`.
    pub extra: E,
}

/// What a [`FlatPage`] holds.
pub ghost struct PageView<E> {
    pub title: Seq<char>,
    pub description: Option<Seq<char>>,
    pub body: Seq<char>,
    pub extra: E,
}

impl<E> View for FlatPage<E> {
    type V = PageView<E>;

    open spec fn view(&self) -> PageView<E> {
        PageView {
            title: self.title@,
            description: text_of(self.description),
            body: self.body@,
            extra: self.extra,
        }
    }
}

/// The first line of `s`, without the newline, or the carriage return and
/// newline, that ends it. All of `s` where it holds no newline.
pub open spec fn first_line(s: Seq<char>) -> Seq<char> {
    match first_occurrence(s, seq!['\n']) {
        Some(end) => if end > 0 && s[end - 1] == '\r' {
            s.take(end - 1)
        } else {
            s.take(end)
        },
        None => s,
    }
}

/// The title that a markdown body gives a page: its first line, without
/// the `#` characters that it begins with and without surrounding whitespace.
pub open spec fn title_of(body: Seq<char>) -> Seq<char> {
    let line = first_line(body);
    trim(line.skip(leading(line, set!['#']) as int))
}

/// The page that a frontmatter and a body make: the title is the
/// frontmatter's, or that of the body where the frontmatter has none.
pub open spec fn resolved<E>(frontmatter: FrontmatterView<E>, body: Seq<char>) -> PageView<E> {
    PageView {
        title: match frontmatter.title {
            Some(title) => title,
            None => title_of(body),
        },
        description: frontmatter.description,
        body,
        extra: frontmatter.extra,
    }
}

/// Whether `c` is an ASCII letter or digit.
pub open spec fn is_ascii_alphanumeric(c: char) -> bool {
    ||| 'a' <= c <= 'z'
    ||| 'A' <= c <= 'Z'
    ||| '0' <= c <= '9'
}

/// Whether `c` may stand in a URL: an ASCII letter or digit, `/`, `_` or `-`.
pub open spec fn allowed_in_url(c: char) -> bool {
    is_ascii_alphanumeric(c) || c == '/' || c == '_' || c == '-'
}

/// Whether `url` addresses a file: it is not empty and holds only
/// characters that may stand in a URL.
pub open spec fn is_page_url(url: Seq<char>) -> bool {
    url.len() > 0 && forall|i: int| 0 <= i < url.len() ==> allowed_in_url(#[trigger] url[i])
}

/// The stem of the file of `url`: `url` with `^` for every `/`.
pub open spec fn stem_of_url(url: Seq<char>) -> Seq<char> {
    replaced(url, '/', '^')
}

/// The extension of a page's file, with its dot.
pub open spec fn extension() -> Seq<char> {
    seq!['.', 'm', 'd']
}

/// The name of the file of `url`: its stem and the extension.
pub open spec fn filename_of_url(url: Seq<char>) -> Seq<char> {
    stem_of_url(url) + extension()
}

/// Whether `resolve`, handed the name `file_name` of a file in the folder,
/// may return `outcome`.
pub open spec fn resolves<E, R>(
    resolve: R,
    file_name: Seq<char>,
    outcome: Result<Option<FlatPage<E>>, Error>,
) -> bool where R: FnOnce(&str) -> Result<Option<FlatPage<E>>, Error> {
    exists|name: &str|
        #![trigger call_ensures(resolve, (name,), outcome)]
        name@ == file_name && call_ensures(resolve, (name,), outcome)
}

/// A page put together from a metadata block and a body resolves to what
/// went in. Where `matter` holds no closing delimiter, the page that opens
/// with the delimiter line, goes on with `matter`, the closing delimiter and a
/// newline, and ends with `body`, hands `matter` to the deserializer as it
/// stands; and whatever record the deserializer makes of it, the page has the
/// record's description and other fields, the record's title where it has
/// one and the title of the body where it has none, and the body `body`
/// without surrounding whitespace.
pub proof fn lemma_resolve_round_trip<E>(
    matter: Seq<char>,
    body: Seq<char>,
    frontmatter: FrontmatterView<E>,
)
    requires
        !contains(matter, closing()),
    ensures
        metadata(opening() + matter + closing() + seq!['\n'] + body) == matter,
        resolved(
            frontmatter,
            body_of(opening() + matter + closing() + seq!['\n'] + body),
        ) == (PageView {
            title: match frontmatter.title {
                Some(title) => title,
                None => title_of(trim(body)),
            },
            description: frontmatter.description,
            body: trim(body),
            extra: frontmatter.extra,
        }),
{
    lemma_block_round_trip(matter, body);
}

/// Two URLs that address a file address the same file only if they are the
/// same URL.
pub proof fn lemma_page_urls_differ_in_file(a: Seq<char>, b: Seq<char>)
    requires
        is_page_url(a),
        is_page_url(b),
        filename_of_url(a) == filename_of_url(b),
    ensures
        a == b,
{
    assert(filename_of_url(a).len() == a.len() + extension().len());
    assert(filename_of_url(b).len() == b.len() + extension().len());
    assert forall|i: int| 0 <= i < a.len() implies a[i] == b[i] by {
        assert(filename_of_url(a)[i] == stem_of_url(a)[i]);
        assert(filename_of_url(b)[i] == stem_of_url(b)[i]);
    }
    assert(a =~= b);
}

/// Considers the first line of `body` to be the page title and removes the
/// markdown header prefix `#`.
pub fn title_from_markdown(body: &str) -> (title: &str)
    ensures
        title@ == title_of(body@),
{
    let chars = chars_of(body);
    let all = chars.as_slice();
    let newline: [char; 1] = ['\n'];
    let end = match find(all, newline.as_slice()) {
        Some(end) => if end > 0 && all[end - 1] == '\r' {
            end - 1
        } else {
            end
        },
        None => all.len(),
    };
    let line = slice_subrange(all, 0, end);
    assert(newline@ == seq!['\n']);
    assert(line@ == first_line(body@));
    let hashes = leading_char(line, '#');
    proof {
        lemma_leading_stops(line@, set!['#']);
    }
    let rest = slice_subrange(line, hashes, line.len());
    let (from, to) = trim_bounds(rest);
    let title = body.substring_char(hashes + from, hashes + to);
    title
}

/// Decides [`allowed_in_url`].
pub fn is_allowed_in_url(c: char) -> (b: bool)
    ensures
        b == allowed_in_url(c),
{
    ('a' <= c && c <= 'z') || ('A' <= c && c <= 'Z') || ('0' <= c && c <= '9') || c == '/' || c
        == '_' || c == '-'
}

/// Tries to convert the url into the name of the file that holds its page.
/// A url that is empty, or that holds a character besides ASCII letters and
/// digits, `/`, `_` and `-`, has no file.
pub fn url_to_filename(url: &str) -> (r: Option<String>)
    ensures
        match r {
            Some(filename) => is_page_url(url@) && filename@ == filename_of_url(url@),
            None => !is_page_url(url@),
        },
{
    let chars = chars_of(url);
    if chars.len() == 0 {
        return None;
    }
    let mut i: usize = 0;
    while i < chars.len()
        invariant
            i <= chars.len(),
            chars@ == url@,
            forall|j: int| 0 <= j < i ==> allowed_in_url(#[trigger] url@[j]),
        decreases chars.len() - i,
    {
        if !is_allowed_in_url(chars[i]) {
            return None;
        }
        i += 1;
    }
    let mut filename = replace_char(chars.as_slice(), '/', '^');
    proof {
        reveal_strlit(".md");
    }
    filename.append(".md");
    Some(filename)
}

/// The HTML that pulldown-cmark renders from `markdown`, with each of the
/// four extensions switched on or off.
pub uninterp spec fn rendered_html(
    markdown: Seq<char>,
    tables: bool,
    footnotes: bool,
    strikethrough: bool,
    tasklists: bool,
) -> Seq<char>;

/// The HTML of `markdown` as a page shows it: with tables, footnotes,
/// strikethrough and task lists.
pub open spec fn html_of(markdown: Seq<char>) -> Seq<char> {
    rendered_html(markdown, true, true, true, true)
}

/// Calls `pulldown_cmark::html::push_html` on an empty string and on the
/// events that `pulldown_cmark::Parser::new_ext` reads from `markdown` under
/// the options that the four flags choose. The rendering depends on nothing
/// but the text and the options, so the result is [`rendered_html`] of them.
#[verifier::external_body]
fn push_html(
    markdown: &str,
    tables: bool,
    footnotes: bool,
    strikethrough: bool,
    tasklists: bool,
) -> (html: String)
    ensures
        html@ == rendered_html(markdown@, tables, footnotes, strikethrough, tasklists),
{
    let mut options = pulldown_cmark::Options::empty();
    options.set(pulldown_cmark::Options::ENABLE_TABLES, tables);
    options.set(pulldown_cmark::Options::ENABLE_FOOTNOTES, footnotes);
    options.set(pulldown_cmark::Options::ENABLE_STRIKETHROUGH, strikethrough);
    options.set(pulldown_cmark::Options::ENABLE_TASKLISTS, tasklists);
    let mut html = String::new();
    pulldown_cmark::html::push_html(&mut html, pulldown_cmark::Parser::new_ext(markdown, options));
    html
}

/// Renders markdown to HTML, with tables, footnotes, strikethrough and task
/// lists.
pub fn markdown(text: &str) -> (html: String)
    ensures
        html@ == html_of(text@),
{
    let tables = true;
    let footnotes = true;
    let strikethrough = true;
    let tasklists = true;
    push_html(text, tables, footnotes, strikethrough, tasklists)
}

impl<E> FlatPage<E> {
    /// The page of a frontmatter and a body. Where the frontmatter has no
    /// title, the title is taken from the body.
    pub fn from_frontmatter(frontmatter: Frontmatter<E>, body: &str) -> (page: Self)
        ensures
            page@ == resolved(frontmatter@, body@),
    {
        let title = match frontmatter.title {
            Some(title) => title,
            None => title_from_markdown(body).to_owned(),
        };
        FlatPage {
            title,
            description: frontmatter.description,
            body: body.to_owned(),
            extra: frontmatter.extra,
        }
    }

    /// Parses a page from text, with `deserialize` to read the metadata.
    /// Fails as `deserialize` fails.
    pub fn from_content<D>(content: &str, deserialize: D) -> (r: Result<Self, YamlError>) where
        D: FnOnce(&str) -> Result<Frontmatter<E>, YamlError>,

        requires
            forall|matter: &str|
                matter@ == metadata(content@) ==> call_requires(deserialize, (matter,)),
        ensures
            match r {
                Ok(page) => exists|frontmatter: Frontmatter<E>| #[trigger]
                    deserializes(deserialize, content@, Ok(frontmatter)) && page@ == resolved(
                        frontmatter@,
                        body_of(content@),
                    ),
                Err(e) => deserializes(deserialize, content@, Err(e)),
            },
    {
        match Frontmatter::parse(content, deserialize) {
            Ok((frontmatter, body)) => Ok(FlatPage::from_frontmatter(frontmatter, body)),
            Err(e) => Err(e),
        }
    }

    /// The page of the file at `path`, whose text is `content`: `None` where
    /// the file could not be read. A file that could not be read is no
    /// error; a file whose metadata does not deserialize is one, and the
    /// error holds `path`.
    pub fn by_path<D>(path: &str, content: Option<&str>, deserialize: D) -> (r: Result<
        Option<Self>,
        Error,
    >) where D: FnOnce(&str) -> Result<Frontmatter<E>, YamlError>
        requires
            content matches Some(text) ==> forall|matter: &str|
                matter@ == metadata(text@) ==> call_requires(deserialize, (matter,)),
        ensures
            match content {
                None => r matches Ok(None),
                Some(text) => match r {
                    Ok(Some(page)) => exists|frontmatter: Frontmatter<E>| #[trigger]
                        deserializes(deserialize, text@, Ok(frontmatter)) && page@ == resolved(
                            frontmatter@,
                            body_of(text@),
                        ),
                    Ok(None) => false,
                    Err(Error::ParseFrontmatter(e, at)) => deserializes(deserialize, text@, Err(e))
                        && at@ == path@,
                    Err(_) => false,
                },
            },
    {
        match content {
            None => Ok(None),
            Some(text) => match FlatPage::from_content(text, deserialize) {
                Ok(page) => Ok(Some(page)),
                Err(e) => Err(Error::ParseFrontmatter(e, path.to_owned())),
            },
        }
    }

    /// Returns a page by its url. `resolve` looks a file of the folder up by
    /// its name, as [`FlatPage::by_path`] does for a path.
    ///
    /// A url that is empty, or that holds a character besides ASCII letters
    /// and digits, `/`, `_` and `-`, has no page, so that no url can reach a
    /// file outside the folder. The contract asks nothing of `resolve` for
    /// such a url, so `resolve` is not called for it. For any other url the
    /// page is what `resolve` makes of the url's file name.
    pub fn by_url<R>(url: &str, resolve: R) -> (r: Result<Option<Self>, Error>) where
        R: FnOnce(&str) -> Result<Option<Self>, Error>,

        requires
            is_page_url(url@) ==> forall|name: &str|
                name@ == filename_of_url(url@) ==> call_requires(resolve, (name,)),
        ensures
            is_page_url(url@) ==> resolves(resolve, filename_of_url(url@), r),
            !is_page_url(url@) ==> r matches Ok(None),
    {
        match url_to_filename(url) {
            Some(filename) => resolve(filename.as_str()),
            None => Ok(None),
        }
    }

    /// The body rendered to HTML.
    pub fn html(&self) -> (html: String)
        ensures
            html@ == html_of(self.body@),
    {
        markdown(self.body.as_str())
    }
}

} // verus!
