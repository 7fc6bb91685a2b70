//! Keyword classification for media release file names.
//!
//! A file name is a sequence of Unicode code points. The dictionary in
//! [`keyword`] maps keyword text to a category and a matching policy, and
//! scans a file name for the compound phrases that splitting at delimiters
//! would tear apart.

pub mod catalogue;
pub mod dictionary;
pub mod element;
pub mod keyword;
pub mod scan;
pub mod text;
pub mod token;
pub mod util;

pub use dictionary::Dictionary;
pub use element::{values_of, ElementCategory, Elements};
pub use keyword::{Keyword, KeywordManager, KeywordOptions};
pub use scan::{matched_elements, matched_spans, ScanError};
pub use text::{encode, points_of_all, str_points, string_points};
pub use token::TokenRange;
pub use util::{first_occurrence, occurs, occurs_at, search, search_slice, span_of};
