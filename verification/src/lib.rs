//! Turns a table of translations into one document for each row and application.
//!
//! A configuration names the applications and the locales that each of them needs. A
//! row of the table holds one text in several languages, each in the column of its
//! language code. For each row and each application the pipeline says which file is to
//! be written and what it holds: one tagged segment for each locale of the application
//! that the row has a text for.
//!
//! The library computes; it reads and writes no file. Its functions are verified against
//! the mathematical models that stand beside them.

pub mod config;
pub mod document;
pub mod first_index;
pub mod locale;
pub mod naming;
pub mod pipeline;
pub mod row;
