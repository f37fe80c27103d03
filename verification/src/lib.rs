//! Checks the links of a book: finds every link and image in each chapter,
//! tells web addresses from references into the book, resolves the latter
//! against the chapters and judges what the network answered for the former.

pub mod anchors;
pub mod book;
pub mod check;
pub mod classify;
pub mod config;
pub mod lines;
pub mod links;
pub mod markup;
pub mod paths;
pub mod report;
pub mod resolve;
pub mod text;
pub mod validate;

pub use config::Config;
pub use book::{Book, Chapter};
pub use check::{book_links, check_link, check_links, fetch_request};
pub use classify::{classify, LinkKind};
pub use lines::line_number;
pub use links::{collect_links, Link};
pub use validate::{validate_external_link, FetchOutcome};
pub use resolve::check_link_in_book;
pub use report::{BrokenLinks, FailureReason, LinkFailure, UnsuccessfulStatus};
