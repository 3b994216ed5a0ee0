//! A retained-mode 2D GUI and rendering core.
//!
//! A tree of nodes, each with a [`style`] of plain values, is laid out by a
//! flexbox engine ([`layout`], [`forest`]). The [`gui`] registry keeps what
//! each node paints and whether it has a control, finds the node under the
//! pointer, moves a single highlight and says what the controls are owed.
//! Painting walks the tree in order and issues commands ([`render`]); the
//! batcher in [`quad`] places quads, drops what cannot be seen, and turns a
//! frame into the fewest draw calls that keep its paint order. Shared
//! objects with borrows that fail fast live in [`cell`].
//!
//! Nothing here touches a file, a window or the graphics backend, and
//! nothing computes in floating point: what is painted is measured in
//! [`units`] of 1/64 pixel, frames and the pointer in whole pixels. Every
//! function has a contract that Verus proves. The calls into the layout
//! engine go through the adapters in [`layout`], whose contracts are taken
//! on trust.

pub mod asset;
pub mod cell;
pub mod color;
pub mod forest;
pub mod gui;
pub mod input;
pub mod lang;
pub mod layout;
pub mod quad;
pub mod render;
pub mod sprite;
pub mod style;
pub mod two;
pub mod units;
pub mod view;
pub mod window;
