//! Flat pages: markdown files with an optional YAML frontmatter, addressed by
//! URL through a flat folder of files.
//!
//! The folder holds one file for each page. The name of the file is the URL of
//! the page with `^` for every `/`, and the extension `.md`: the page of `/`
//! is the file `^.md`, the page of `/foo/bar` the file `^foo^bar.md`.
//!
//! The crate is free of I/O and of YAML. It decides which file a URL stands
//! for, which part of a file is metadata and which is body, what the title of
//! a page is, and which entries of a folder a [`FlatPageStore`] keeps. Reading
//! is left to the caller, who hands in what was read or a function that reads:
//!
//! - a function that deserializes the text of a metadata block into a
//!   [`Frontmatter`], wherever a page is parsed;
//! - a function that resolves a file of the folder by its name, wherever a
//!   file is looked up.
//!
//! The contracts say what is handed to these functions and what is made of
//! whatever they return.

pub mod error;
pub mod frontmatter;
pub mod page;
pub mod store;
pub mod text;

pub use error::{Error, Result};
pub use frontmatter::Frontmatter;
pub use page::FlatPage;
pub use store::{FlatPageMeta, FlatPageStore};
