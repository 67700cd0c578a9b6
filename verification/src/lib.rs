//! Viewport, scrolling and line layout for a text box shown in a terminal.
//!
//! A view keeps a corner (the document position drawn in its top-left cell),
//! its size in cells and a wrap flag. The functions here keep the corner and
//! the leading cursor of the view consistent, lay the visible lines out as
//! rows, work out which cells of each row are highlighted, and draw all of
//! it on a screen of the `tui` crate.
//!
//! - `cursor`, `base`, `rect`: positions, the vocabulary of scroll
//!   requests, and regions of the screen.
//! - `buffer`: the text, with the cursors and selections of each view.
//! - `viewport`, `scroll`, `state`: the viewport, what each scroll request
//!   does to it, and the view that carries the requests out.
//! - `layout`, `highlight`, `drawing`, `widget`: the rows of a view, the
//!   cells that selections and followers light, what a drawing does, and
//!   the text box that draws.
//! - `tree`, `screen`: what is taken on trust of the crates `intervaltree`
//!   and `tui`. One more function is taken on trust, in `buffer`: the one
//!   that makes a `String` of characters.

pub mod base;
pub mod buffer;
pub mod cursor;
pub mod drawing;
pub mod highlight;
pub mod layout;
pub mod rect;
pub mod screen;
pub mod scroll;
pub mod state;
pub mod tree;
pub mod viewport;
pub mod widget;
