//! A chess engine library: piece-square evaluation, move bookkeeping and
//! alpha-beta search, with the rules of chess supplied by `shakmaty`.

pub mod pieces;
pub mod moves;
pub mod squares;
pub mod text;
pub mod outside;
pub mod eval;
pub mod ordering;
pub mod search;
pub mod report;
pub mod engine;
