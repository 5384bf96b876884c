//! A store of page metadata: the titles and descriptions of the pages of one
//! folder, kept by the stems of their files.
//!
//! [`FlatPageStore::read_dir`] fills a store from the entries of a folder. It
//! reads no file itself: the caller lists the folder and hands in a function
//! that resolves a file of the folder by its name. The store holds what the
//! files held when they were resolved and is not refreshed; a page of the
//! store is read anew whenever it is asked for.

use crate::error::Error;
use crate::frontmatter::text_of;
use crate::page::{extension, filename_of_url, resolves, stem_of_url, FlatPage, PageView};
use crate::text::{chars_of, matches_at, replace_char};
use std::io::Error as IoError;
use std::path::PathBuf;
use vstd::hash_map::StringHashMap;
use vstd::prelude::*;
use vstd::string::{StrSliceExecFns, StringExecFns};

verus! {

/// Flat page metadata.
#[derive(Debug)]
pub struct FlatPageMeta {
    /// Page title.
    pub title: String,
    /// Page description.
    pub description: Option<String>,
}

/// What a [`FlatPageMeta`] holds.
pub ghost struct MetaView {
    pub title: Seq<char>,
    pub description: Option<Seq<char>>,
}

impl View for FlatPageMeta {
    type V = MetaView;

    open spec fn view(&self) -> MetaView {
        MetaView { title: self.title@, description: text_of(self.description) }
    }
}

/// The metadata of a page: its title and its description.
pub open spec fn meta_of<E>(page: PageView<E>) -> MetaView {
    MetaView { title: page.title, description: page.description }
}

impl FlatPageMeta {
    /// Keeps the title and the description of `page`.
    pub fn of<E>(page: FlatPage<E>) -> (meta: Self)
        ensures
            meta@ == meta_of(page@),
            meta.title == page.title,
            meta.description == page.description,
    {
        FlatPageMeta { title: page.title, description: page.description }
    }
}

impl From<FlatPage> for FlatPageMeta {
    fn from(page: FlatPage) -> (meta: Self) {
        FlatPageMeta::of(page)
    }
}

impl vstd::std_specs::convert::FromSpecImpl<FlatPage> for FlatPageMeta {
    open spec fn obeys_from_spec() -> bool {
        true
    }

    open spec fn from_spec(page: FlatPage) -> Self {
        FlatPageMeta { title: page.title, description: page.description }
    }
}

/// One entry of a folder, as whoever listed the folder found it.
#[derive(Debug)]
pub struct Entry {
    /// The entry's name within the folder, where the name is text.
    pub file_name: Option<String>,
    /// Whether the entry is a regular file.
    pub is_file: bool,
}

/// A store for [`FlatPageMeta`].
pub struct FlatPageStore {
    /// The folder containing flat pages.
    root: PathBuf,
    /// Maps file stems to pages metadata.
    pub pages: StringHashMap<FlatPageMeta>,
}

impl View for FlatPageStore {
    type V = Map<Seq<char>, MetaView>;

    /// The metadata that the store holds, by stem.
    closed spec fn view(&self) -> Map<Seq<char>, MetaView> {
        self.pages@.map_values(|meta: FlatPageMeta| meta@)
    }
}

/// The stem of a markdown file's name: the name without its extension `.md`.
/// A name that does not end in `.md`, or that is nothing but `.md`, is not
/// the name of a markdown file.
pub open spec fn markdown_stem(file_name: Seq<char>) -> Option<Seq<char>> {
    if file_name.len() > extension().len() && extension().is_suffix_of(file_name) {
        Some(file_name.take(file_name.len() - extension().len()))
    } else {
        None
    }
}

/// The stem under which a folder entry is kept: that of its name, where the
/// entry is a regular file whose name is text and names a markdown file.
pub open spec fn stem_of_entry(file_name: Option<Seq<char>>, is_file: bool) -> Option<Seq<char>> {
    match file_name {
        Some(name) if is_file => markdown_stem(name),
        _ => None,
    }
}

/// The name of the file of a stem.
pub open spec fn filename_of_stem(stem: Seq<char>) -> Seq<char> {
    stem + extension()
}

/// What a scan makes of one entry, on top of the metadata that it has
/// gathered. An entry that could not be inspected ends the scan with its
/// error. An entry that is no markdown file is passed over. The file of any
/// other entry is resolved, and `outcome` is what that gave: a page is kept by
/// its metadata under the entry's stem, in place of what was gathered under
/// that stem before; a file that could not be read is passed over; a failure
/// ends the scan.
pub open spec fn scan_step(
    index: Map<Seq<char>, MetaView>,
    entry: Result<Entry, IoError>,
    outcome: Result<Option<FlatPage>, Error>,
) -> Result<Map<Seq<char>, MetaView>, Error> {
    match entry {
        Err(e) => Err(Error::DirEntry(e)),
        Ok(entry) => match stem_of_entry(text_of(entry.file_name), entry.is_file) {
            None => Ok(index),
            Some(stem) => match outcome {
                Ok(Some(page)) => Ok(index.insert(stem, meta_of(page@))),
                Ok(None) => Ok(index),
                Err(e) => Err(e),
            },
        },
    }
}

/// What a scan gathers from `entries`, taken in order, where `outcomes`
/// holds for each entry what resolving its file gave: the metadata by stem,
/// or the first failure.
pub open spec fn scan(
    entries: Seq<Result<Entry, IoError>>,
    outcomes: Seq<Result<Option<FlatPage>, Error>>,
) -> Result<Map<Seq<char>, MetaView>, Error>
    decreases entries.len(),
{
    if entries.len() == 0 {
        Ok(Map::empty())
    } else {
        match scan(entries.drop_last(), outcomes.drop_last()) {
            Ok(index) => scan_step(index, entries.last(), outcomes.last()),
            Err(e) => Err(e),
        }
    }
}

/// Whether a scan resolves the file of the entry at `at`: it gets that far,
/// and the entry is a markdown file.
pub open spec fn scan_asks(
    entries: Seq<Result<Entry, IoError>>,
    outcomes: Seq<Result<Option<FlatPage>, Error>>,
    at: int,
) -> bool {
    &&& scan(entries.take(at), outcomes.take(at)) is Ok
    &&& entries[at] matches Ok(entry)
    &&& stem_of_entry(text_of(entry.file_name), entry.is_file) is Some
}

/// Whether `resolve` can be asked for each markdown file among `entries`.
pub open spec fn scan_may_ask<R>(resolve: R, entries: Seq<Result<Entry, IoError>>) -> bool where
    R: Fn(&str) -> Result<Option<FlatPage>, Error>,
{
    forall|at: int, name: &str|
        #![trigger entries[at], call_requires(resolve, (name,))]
        0 <= at < entries.len() && (entries[at] matches Ok(found) && stem_of_entry(
            text_of(found.file_name),
            found.is_file,
        ) is Some && name@ == found.file_name->0@) ==> call_requires(resolve, (name,))
}

/// Whether `outcomes` holds what `resolve` gave for the entries' files:
/// for each entry whose file a scan resolves, a value that `resolve` may return
/// for the entry's name.
pub open spec fn scan_outcomes<R>(
    resolve: R,
    entries: Seq<Result<Entry, IoError>>,
    outcomes: Seq<Result<Option<FlatPage>, Error>>,
) -> bool where R: Fn(&str) -> Result<Option<FlatPage>, Error> {
    &&& outcomes.len() == entries.len()
    &&& forall|at: int|
        0 <= at < entries.len() && #[trigger] scan_asks(entries, outcomes, at) ==> resolves(
            resolve,
            entries[at]->Ok_0.file_name->0@,
            outcomes[at],
        )
}

/// A scan that has failed stays failed: the entries after the failure do not
/// change what comes of it.
pub proof fn lemma_scan_ends_at_failure(
    entries: Seq<Result<Entry, IoError>>,
    outcomes: Seq<Result<Option<FlatPage>, Error>>,
    at: int,
)
    requires
        outcomes.len() == entries.len(),
        0 <= at <= entries.len(),
        scan(entries.take(at), outcomes.take(at)) is Err,
    ensures
        scan(entries, outcomes) == scan(entries.take(at), outcomes.take(at)),
    decreases entries.len(),
{
    if at == entries.len() {
        assert(entries.take(at) == entries);
        assert(outcomes.take(at) == outcomes);
    } else {
        assert(entries.drop_last().take(at) == entries.take(at));
        assert(outcomes.drop_last().take(at) == outcomes.take(at));
        lemma_scan_ends_at_failure(entries.drop_last(), outcomes.drop_last(), at);
    }
}

/// A scan that fails has the outcomes to show for it: where the scan of the
/// first entries fails at the last of them, and `outcomes` holds what
/// `resolve` gave up to there, the scan of all entries fails in the same way on
/// outcomes that hold what `resolve` gave.
proof fn lemma_scan_fails<R>(
    resolve: R,
    entries: Seq<Result<Entry, IoError>>,
    outcomes: Seq<Result<Option<FlatPage>, Error>>,
) where R: Fn(&str) -> Result<Option<FlatPage>, Error>
    requires
        0 < outcomes.len() <= entries.len(),
        scan(entries.take(outcomes.len() as int), outcomes) is Err,
        scan(entries.take(outcomes.len() - 1), outcomes.drop_last()) is Ok,
        forall|at: int|
            0 <= at < outcomes.len() && (entries[at] matches Ok(found) && stem_of_entry(
                text_of(found.file_name),
                found.is_file,
            ) is Some) ==> resolves(
                resolve,
                entries[at]->Ok_0.file_name->0@,
                #[trigger] outcomes[at],
            ),
    ensures
        exists|all: Seq<Result<Option<FlatPage>, Error>>|
            #![trigger scan(entries, all)]
            scan_outcomes(resolve, entries, all) && scan(entries, all) == scan(
                entries.take(outcomes.len() as int),
                outcomes,
            ),
{
    let reached = outcomes.len() as int;
    let all = Seq::new(
        entries.len(),
        |at: int|
            if at < reached {
                outcomes[at]
            } else {
                Ok::<Option<FlatPage>, Error>(None)
            },
    );
    assert(all.take(reached) == outcomes);
    lemma_scan_ends_at_failure(entries, all, reached);
    assert forall|at: int| 0 <= at < entries.len() && #[trigger] scan_asks(
        entries,
        all,
        at,
    ) implies resolves(resolve, entries[at]->Ok_0.file_name->0@, all[at]) by {
        if at >= reached {
            assert(entries.take(at).take(reached) == entries.take(reached));
            assert(all.take(at).take(reached) == all.take(reached));
            lemma_scan_ends_at_failure(entries.take(at), all.take(at), reached);
        }
    }
}

/// One more entry takes a scan one step further.
proof fn lemma_scan_next(
    entries: Seq<Result<Entry, IoError>>,
    outcomes: Seq<Result<Option<FlatPage>, Error>>,
    outcome: Result<Option<FlatPage>, Error>,
)
    requires
        outcomes.len() < entries.len(),
    ensures
        scan(entries.take(outcomes.len() as int + 1), outcomes.push(outcome)) == match scan(
            entries.take(outcomes.len() as int),
            outcomes,
        ) {
            Ok(index) => scan_step(index, entries[outcomes.len() as int], outcome),
            Err(e) => Err(e),
        },
{
    let at = outcomes.len() as int;
    assert(entries.take(at + 1).drop_last() == entries.take(at));
    assert(outcomes.push(outcome).drop_last() == outcomes);
}

/// Whether a scan keeps a page under `stem` for the entry at `at`: the entry
/// is a markdown file with that stem, and resolving it gave a page.
pub open spec fn scan_keeps(
    entries: Seq<Result<Entry, IoError>>,
    outcomes: Seq<Result<Option<FlatPage>, Error>>,
    at: int,
    stem: Seq<char>,
) -> bool {
    &&& 0 <= at < entries.len()
    &&& entries[at] matches Ok(entry)
    &&& stem_of_entry(text_of(entry.file_name), entry.is_file) == Some(stem)
    &&& outcomes[at] matches Ok(Some(_))
}

/// A scan that succeeds holds the markdown files that could be read, and
/// nothing else: a stem is held exactly if it is the stem of a regular file
/// whose name is text and ends in `.md` and whose file gave a page. What is
/// held under the stem is the metadata of the last such file.
pub proof fn lemma_scan_keeps_markdown_files(
    entries: Seq<Result<Entry, IoError>>,
    outcomes: Seq<Result<Option<FlatPage>, Error>>,
)
    requires
        outcomes.len() == entries.len(),
        scan(entries, outcomes) is Ok,
    ensures
        forall|stem: Seq<char>| #[trigger]
            scan(entries, outcomes)->Ok_0.contains_key(stem) <==> exists|at: int|
                scan_keeps(entries, outcomes, at, stem),
        forall|at: int, stem: Seq<char>|
            #![trigger scan_keeps(entries, outcomes, at, stem)]
            scan_keeps(entries, outcomes, at, stem) && (forall|later: int|
                at < later ==> !scan_keeps(entries, outcomes, later, stem)) ==> scan(
                entries,
                outcomes,
            )->Ok_0[stem] == meta_of(outcomes[at]->Ok_0->0@),
    decreases entries.len(),
{
    if entries.len() > 0 {
        let last = entries.len() - 1;
        let first = entries.drop_last();
        let gave = outcomes.drop_last();
        let index = scan(entries, outcomes)->Ok_0;
        lemma_scan_keeps_markdown_files(first, gave);
        assert forall|at: int, stem: Seq<char>| at < last implies (scan_keeps(
            entries,
            outcomes,
            at,
            stem,
        ) <==> #[trigger] scan_keeps(first, gave, at, stem)) by {
        }
        assert forall|stem: Seq<char>| #[trigger]
            index.contains_key(stem) <==> exists|at: int|
                scan_keeps(entries, outcomes, at, stem) by {
            if index.contains_key(stem) && !scan_keeps(entries, outcomes, last, stem) {
                let at = choose|at: int| scan_keeps(first, gave, at, stem);
                assert(scan_keeps(entries, outcomes, at, stem));
            }
            if exists|at: int| scan_keeps(entries, outcomes, at, stem) {
                let at = choose|at: int| scan_keeps(entries, outcomes, at, stem);
                if at < last {
                    assert(scan_keeps(first, gave, at, stem));
                }
            }
        }
        assert forall|at: int, stem: Seq<char>|
            #![trigger scan_keeps(entries, outcomes, at, stem)]
            scan_keeps(entries, outcomes, at, stem) && (forall|later: int|
                at < later ==> !scan_keeps(
                    entries,
                    outcomes,
                    later,
                    stem,
                )) implies index[stem] == meta_of(outcomes[at]->Ok_0->0@) by {
            if at < last {
                assert(!scan_keeps(entries, outcomes, last, stem));
                assert(scan_keeps(first, gave, at, stem));
            }
        }
    }
}

/// A scan keeps the file of a stem under that stem: the name that a lookup
/// by `stem` gives is the name of a markdown file with the stem `stem`.
pub proof fn lemma_stem_of_its_file(stem: Seq<char>)
    requires
        stem.len() > 0,
    ensures
        markdown_stem(filename_of_stem(stem)) == Some(stem),
{
    let name = filename_of_stem(stem);
    assert(name.skip(name.len() - extension().len()) =~= extension());
    assert(name.take(name.len() - extension().len()) =~= stem);
}

/// A lookup by the stem of a markdown file gives the name of that file, and
/// no markdown file has an empty stem.
pub proof fn lemma_file_of_its_stem(file_name: Seq<char>)
    requires
        markdown_stem(file_name) is Some,
    ensures
        markdown_stem(file_name)->0.len() > 0,
        filename_of_stem(markdown_stem(file_name)->0) == file_name,
{
    let stem = markdown_stem(file_name)->0;
    assert(filename_of_stem(stem) =~= file_name);
}

/// The file that a URL addresses is the file of the URL's stem, so a lookup
/// by URL in the store and a lookup by URL in the folder name one file.
pub proof fn lemma_url_names_the_file_of_its_stem(url: Seq<char>)
    ensures
        filename_of_url(url) == filename_of_stem(stem_of_url(url)),
{
}

/// A store and its folder agree on the pages: after a scan that succeeds,
/// the store holds the stem of a URL exactly if the folder held the file of
/// that URL as a regular file that gave a page.
pub proof fn lemma_scan_keeps_the_file_of_a_url(
    entries: Seq<Result<Entry, IoError>>,
    outcomes: Seq<Result<Option<FlatPage>, Error>>,
    url: Seq<char>,
)
    requires
        outcomes.len() == entries.len(),
        scan(entries, outcomes) is Ok,
        url.len() > 0,
    ensures
        scan(entries, outcomes)->Ok_0.contains_key(stem_of_url(url)) <==> exists|at: int|
            #![trigger entries[at]]
            0 <= at < entries.len() && (entries[at] matches Ok(entry) && entry.is_file && text_of(
                entry.file_name,
            ) == Some(filename_of_url(url)) && outcomes[at] matches Ok(Some(_))),
{
    let stem = stem_of_url(url);
    lemma_scan_keeps_markdown_files(entries, outcomes);
    lemma_stem_of_its_file(stem);
    if scan(entries, outcomes)->Ok_0.contains_key(stem) {
        let at = choose|at: int| scan_keeps(entries, outcomes, at, stem);
        lemma_file_of_its_stem(entries[at]->Ok_0.file_name->0@);
    }
    if exists|at: int|
        #![trigger entries[at]]
        0 <= at < entries.len() && (entries[at] matches Ok(entry) && entry.is_file && text_of(
            entry.file_name,
        ) == Some(filename_of_url(url)) && outcomes[at] matches Ok(Some(_))) {
        let at = choose|at: int|
            #![trigger entries[at]]
            0 <= at < entries.len() && (entries[at] matches Ok(entry) && entry.is_file && text_of(
                entry.file_name,
            ) == Some(filename_of_url(url)) && outcomes[at] matches Ok(Some(_)));
        assert(scan_keeps(entries, outcomes, at, stem));
    }
}

impl FlatPageStore {
    /// The folder that the store was made for.
    pub closed spec fn folder(&self) -> PathBuf {
        self.root
    }

    /// An empty store for the folder `root`.
    pub fn new(root: PathBuf) -> (store: Self)
        ensures
            store.folder() == root,
            store@ == Map::<Seq<char>, MetaView>::empty(),
    {
        let store = FlatPageStore { root, pages: StringHashMap::new() };
        store
    }

    /// The folder containing the flat pages.
    pub fn root(&self) -> (root: &PathBuf)
        ensures
            *root == self.folder(),
    {
        &self.root
    }

    /// The stem of the markdown file named `file_name`, or `None` where
    /// the name is not that of a markdown file.
    pub fn file_stem(file_name: &str) -> (r: Option<&str>)
        ensures
            match r {
                Some(stem) => markdown_stem(file_name@) == Some(stem@),
                None => markdown_stem(file_name@) is None,
            },
    {
        let chars = chars_of(file_name);
        let suffix: [char; 3] = ['.', 'm', 'd'];
        if chars.len() > 3 && matches_at(chars.as_slice(), suffix.as_slice(), chars.len() - 3) {
            Some(file_name.substring_char(0, chars.len() - 3))
        } else {
            None
        }
    }

    /// The stem under which a scan keeps `entry`, or `None` where it passes
    /// the entry over: it keeps the regular files whose name is text and ends
    /// in `.md`.
    pub fn entry_stem(entry: &Entry) -> (r: Option<&str>)
        ensures
            match r {
                Some(stem) => stem_of_entry(text_of(entry.file_name), entry.is_file) == Some(
                    stem@,
                ),
                None => stem_of_entry(text_of(entry.file_name), entry.is_file) is None,
            },
    {
        if !entry.is_file {
            return None;
        }
        match &entry.file_name {
            Some(name) => FlatPageStore::file_stem(name.as_str()),
            None => None,
        }
    }

    /// Creates a store from the folder `root`. `listing` is what listing the
    /// folder gave: its entries in the order in which they were found, or the
    /// failure to list it. `resolve` looks a file of the folder up by its name;
    /// it is called for the markdown files among the entries, in order, until
    /// the first failure.
    ///
    /// The store holds the metadata of every regular file whose name ends in
    /// `.md` and that could be read, under the file's stem. Where two entries
    /// have one stem, the later one counts. The scan fails where the folder
    /// could not be listed, at the first entry that could not be inspected, and
    /// at the first file that `resolve` fails on; what was gathered is then
    /// given up.
    pub fn read_dir<R>(
        root: PathBuf,
        listing: Result<Vec<Result<Entry, IoError>>, IoError>,
        resolve: R,
    ) -> (r: Result<Self, Error>) where R: Fn(&str) -> Result<Option<FlatPage>, Error>
        requires
            listing matches Ok(entries) ==> scan_may_ask(resolve, entries@),
        ensures
            match listing {
                Err(e) => r matches Err(Error::ReadDir(source, folder)) && source == e && folder
                    == root,
                Ok(entries) => exists|outcomes: Seq<Result<Option<FlatPage>, Error>>|
                    #![trigger scan(entries@, outcomes)]
                    scan_outcomes(resolve, entries@, outcomes) && match scan(entries@, outcomes) {
                        Ok(index) => r matches Ok(store) && store@ == index && store.folder()
                            == root,
                        Err(e) => r matches Err(failure) && failure == e,
                    },
            },
    {
        let entries = match listing {
            Ok(entries) => entries,
            Err(e) => {
                return Err(Error::ReadDir(e, root));
            },
        };
        let ghost all = entries@;
        let mut store = FlatPageStore::new(root);
        let ghost mut outcomes = Seq::<Result<Option<FlatPage>, Error>>::empty();
        for entry in it: entries
            invariant
                listing matches Ok(listed) && listed@ == all,
                it.seq() == all,
                outcomes.len() == it.index(),
                scan(all.take(it.index() as int), outcomes) matches Ok(index) && index == store@,
                store.folder() == root,
                scan_may_ask(resolve, all),
                forall|at: int|
                    0 <= at < it.index() && (all[at] matches Ok(found) && stem_of_entry(
                        text_of(found.file_name),
                        found.is_file,
                    ) is Some) ==> resolves(
                        resolve,
                        all[at]->Ok_0.file_name->0@,
                        #[trigger] outcomes[at],
                    ),
        {
            let ghost before = outcomes;
            match entry {
                Err(e) => {
                    proof {
                        let failed = before.push(Ok(None));
                        lemma_scan_next(all, before, Ok(None));
                        assert(failed.drop_last() == before);
                        lemma_scan_fails(resolve, all, failed);
                    }
                    return Err(Error::DirEntry(e));
                },
                Ok(entry) => {
                    match FlatPageStore::entry_stem(&entry) {
                        None => {
                            proof {
                                lemma_scan_next(all, before, Ok(None));
                                outcomes = before.push(Ok(None));
                            }
                        },
                        Some(stem) => {
                            let outcome = match &entry.file_name {
                                Some(name) => resolve(name.as_str()),
                                None => vstd::pervasive::unreached(),
                            };
                            proof {
                                lemma_scan_next(all, before, outcome);
                                outcomes = before.push(outcome);
                            }
                            match store.record(stem.to_owned(), outcome) {
                                Ok(()) => {},
                                Err(e) => {
                                    proof {
                                        assert(outcomes.drop_last() == before);
                                        lemma_scan_fails(resolve, all, outcomes);
                                    }
                                    return Err(e);
                                },
                            }
                        },
                    }
                },
            }
        }
        assert(all.take(all.len() as int) == all);
        Ok(store)
    }

    /// Takes in what resolving the file of `stem` gave. A page is kept by its
    /// metadata under `stem`, in place of what the store held there. A file
    /// that could not be read is passed over. A failure ends the scan: it comes
    /// back, and the store stays as it was.
    pub fn record(&mut self, stem: String, resolved: Result<Option<FlatPage>, Error>) -> (r: Result<
        (),
        Error,
    >)
        ensures
            final(self).folder() == old(self).folder(),
            match resolved {
                Ok(Some(page)) => r is Ok && final(self)@ == old(self)@.insert(
                    stem@,
                    meta_of(page@),
                ),
                Ok(None) => r is Ok && final(self)@ == old(self)@,
                Err(e) => r == Err::<(), Error>(e) && final(self)@ == old(self)@,
            },
    {
        match resolved {
            Ok(Some(page)) => {
                let meta = FlatPageMeta::of(page);
                self.pages.insert(stem, meta);
                Ok(())
            },
            Ok(None) => Ok(()),
            Err(e) => Err(e),
        }
    }

    /// Returns a page metadata by its url.
    pub fn meta_by_url(&self, url: &str) -> (r: Option<&FlatPageMeta>)
        ensures
            match r {
                Some(meta) => self@.contains_key(stem_of_url(url@)) && meta@ == self@[stem_of_url(
                    url@,
                )],
                None => !self@.contains_key(stem_of_url(url@)),
            },
    {
        let stem = FlatPageStore::url_to_stem(url);
        self.meta_by_stem(stem.as_str())
    }

    /// Returns a page metadata by the file stem.
    pub fn meta_by_stem(&self, stem: &str) -> (r: Option<&FlatPageMeta>)
        ensures
            match r {
                Some(meta) => self@.contains_key(stem@) && meta@ == self@[stem@],
                None => !self@.contains_key(stem@),
            },
    {
        self.pages.get(stem)
    }

    /// Returns a page by the file stem. `resolve` looks a file of the folder
    /// up by its name.
    ///
    /// A stem that the store does not hold has no page. The contract asks
    /// nothing of `resolve` for such a stem, so `resolve` is not called for
    /// it. For a stem that the store holds, the page is what `resolve` makes
    /// of the name of the stem's file, read anew: the store keeps metadata
    /// only.
    pub fn page_by_stem<E, R>(&self, stem: &str, resolve: R) -> (r: Result<
        Option<FlatPage<E>>,
        Error,
    >) where R: FnOnce(&str) -> Result<Option<FlatPage<E>>, Error>
        requires
            self@.contains_key(stem@) ==> forall|name: &str|
                name@ == filename_of_stem(stem@) ==> call_requires(resolve, (name,)),
        ensures
            self@.contains_key(stem@) ==> resolves(resolve, filename_of_stem(stem@), r),
            !self@.contains_key(stem@) ==> r matches Ok(None),
    {
        if self.pages.contains_key(stem) {
            proof {
                reveal_strlit(".md");
            }
            assert(".md"@ == extension());
            let filename = stem.to_owned().concat(".md");
            resolve(filename.as_str())
        } else {
            Ok(None)
        }
    }

    /// Returns a page by its url. `resolve` looks a file of the folder up by
    /// its name. The url stands for the stem that [`Self::url_to_stem`] gives,
    /// whatever characters it holds: only what the store holds is looked up.
    pub fn page_by_url<E, R>(&self, url: &str, resolve: R) -> (r: Result<
        Option<FlatPage<E>>,
        Error,
    >) where R: FnOnce(&str) -> Result<Option<FlatPage<E>>, Error>
        requires
            self@.contains_key(stem_of_url(url@)) ==> forall|name: &str|
                name@ == filename_of_stem(stem_of_url(url@)) ==> call_requires(resolve, (name,)),
        ensures
            self@.contains_key(stem_of_url(url@)) ==> resolves(
                resolve,
                filename_of_stem(stem_of_url(url@)),
                r,
            ),
            !self@.contains_key(stem_of_url(url@)) ==> r matches Ok(None),
    {
        let stem = FlatPageStore::url_to_stem(url);
        self.page_by_stem(stem.as_str(), resolve)
    }

    /// Converts url to file stem.
    pub fn url_to_stem(url: &str) -> (stem: String)
        ensures
            stem@ == stem_of_url(url@),
    {
        let chars = chars_of(url);
        replace_char(chars.as_slice(), '/', '^')
    }
}

} // verus!
