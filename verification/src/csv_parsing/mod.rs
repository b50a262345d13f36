//! Field parsers for the bibliography CSV/ODS import.
pub mod bibkey;
pub mod date;
pub mod pages;
pub mod types;
