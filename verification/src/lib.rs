pub mod text;
pub mod numeric;
pub mod pages;
pub mod csv_parsing;
pub mod latex_citations;
pub mod domain;
pub mod render;
pub mod transitive_closure;
pub mod keymap;
pub mod dto;
pub mod full_import;
pub mod validation;
pub mod import;
pub mod maintenance;
pub mod export;
pub mod latex_columns;
pub mod keyword_tree;
pub mod bibitem_export;
pub mod search;
pub mod queries;
pub mod bibitem_import;
pub mod expand;
pub mod config;
