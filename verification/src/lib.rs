//! Chess rules: move legality, move application and game-state detection
//! over a fixed 64-square board, with a text encoding of positions and
//! the vocabulary of a move-recommending engine.
//!
//! Every executable function carries a contract over a mathematical model
//! of the position ([`position::PositionView`]). The definitions of
//! [`rules`] state the rules themselves, [`engine`] computes them,
//! [`laws`] proves what follows from them; [`fen`] reads and writes
//! positions as text, and [`fen_laws`] proves that what was written is
//! read back.

pub mod piece;
pub mod position;
pub mod rules;
pub mod laws;
pub mod engine;
pub mod text;
pub mod fen;
pub mod fen_laws;
pub mod uci;
