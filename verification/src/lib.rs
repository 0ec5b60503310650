//! Streaming extraction of a work's listing and chapter pages from a
//! stream of lexical HTML tokens, the bounded-retry policy of the fetcher
//! that feeds it, and what is handed on to the document assembler.

pub mod assemble;
pub mod chapter;
pub mod fetch;
pub mod listing;
pub mod token;
