//! The syntax tree of the view macro, and how it is parsed from tokens.

pub mod ident;
pub mod tag;
pub mod value;
pub mod attribute;
pub mod children;
pub mod doctype;
pub mod element;
