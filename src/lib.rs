//! Searches PDF documents for literal words and reports the pages they occur on.
pub mod document;
pub mod invocation;
pub mod laws;
pub mod search;
pub mod select;
pub mod text;

pub use document::page_numbers;
pub use invocation::{candidate_files, invalid_path_message, parse_invocation, usage_message, InputKind, Invocation};
pub use laws::{lemma_candidates_unique, lemma_failed_load_skipped, lemma_no_report_without_occurrence, lemma_one_report_per_page, lemma_report_repeatable};
pub use search::{page_matches, report_lines, scan_files, search_pages, FileOutcome, Hit, Match, PageText};
pub use select::{entry_path, has_pdf_extension, select_pdf_files, ListedEntry};
pub use text::{contains_word, decimal_string};
