//! A framework for writing shogi engines that speak the USI protocol:
//! board representation, move generation, rule checks, hashing and
//! protocol parsing.
#![allow(unused_imports)]

pub mod agent;
pub mod bitboard;
pub mod bits;
pub mod command;
pub mod cpu;
pub mod error;
pub mod event;
pub mod hash;
pub mod interpreter;
pub mod math;
pub mod move_orderer;
pub mod movepick;
pub mod position;
pub mod protocol;
pub mod rule;
pub mod see;
pub mod selfmatch;
pub mod shogi;
pub mod stats;
pub mod string;
pub mod superposition;

use vstd::prelude::*;

verus! {

/// Types whose values are numbered from 0; the largest number.
pub trait MaxIndex {
    /// The largest number of a value of the type.
    fn max_index() -> usize;
}

/// Runs work and reports its errors; the running itself stands outside the library.
pub struct SandBox {}

/// The move found while pondering, kept until the opponent's move is known.
#[derive(Clone, Copy, Debug)]
pub enum OnAcceptMove {
    /// A move is kept.
    Accepted(crate::command::BestMove),
    /// No move is kept yet.
    Nothing,
}

impl OnAcceptMove {
    /// Keeps `m`.
    pub fn new(m: crate::command::BestMove) -> (r: OnAcceptMove)
        ensures
            r == OnAcceptMove::Accepted(m),
    {
        OnAcceptMove::Accepted(m)
    }
}

/// A conversion from `T` that may fail with `E`.
pub trait TryFrom<T, E>: Sized {
    /// What `s` must satisfy to be converted.
    spec fn try_from_requires(s: T) -> bool;

    /// Whether `r` is what converting `s` gives.
    spec fn try_from_result(s: T, r: Result<Self, E>) -> bool;

    /// The value `s` stands for, or why it stands for none.
    fn try_from(s: T) -> (r: Result<Self, E>)
        requires
            Self::try_from_requires(s),
        ensures
            Self::try_from_result(s, r),
    ;
}

/// Looking up what `query` names.
pub trait Find<Q, R> {
    /// What `query` names, if anything.
    fn find(&self, query: &Q) -> Option<R>;
}

} // verus!
