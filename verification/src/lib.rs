//! polysh: translation of shell commands between Unix shells, PowerShell and
//! CMD.

pub mod detector;
pub mod text;
pub mod tokenizer;
pub mod translator;
pub mod mappings;
