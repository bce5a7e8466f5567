//! The text pipeline of a presenter that shows plain-text slides in a terminal.
//!
//! A slide is text in a small markup language. Escapes that begin with a
//! backslash set style and colour and draw bullets, `.HD` begins a heading, and
//! a pair of `.rs` markers fences a piece of source code.
//!
//! - [`lexer`] splits source code into tokens and loses no character.
//! - [`classify`] gives each token its syntax category.
//! - [`encode`] wraps each token that has a category in the escape of its colour.
//! - [`extract`] finds the fenced code of a slide and puts its encoding in its
//!   place.
//! - [`markup`] says what the markup of a slide means.
//! - [`interpret`] interprets a slide and gives back the operations that draw
//!   it; [`display`] holds those operations.
//! - [`export`] turns a slide into a piece of a typesetting document.
//! - [`navigate`] says which slide a key leads to.
//! - [`text`] holds what the others share.
//!
//! A slide is drawn by `interpret::interpret(&extract::compile_rust(slide), true)`.

pub mod classify;
pub mod display;
pub mod encode;
pub mod export;
pub mod extract;
pub mod interpret;
pub mod lexer;
pub mod markup;
pub mod navigate;
pub mod text;
