//! The direction-reversing step search that both solves share.
//!
//! A search holds the angle it tries next, the stride it moves by, and a
//! count of iterations that ends the search when it reaches the precision.
//! After each attempt the search either keeps its stride or reverses it, which
//! also shrinks it to a tenth, and counts what the attempt is worth. Unless
//! that ends the search, it then moves on by one stride. A search that ends
//! stays at the angle of its last attempt. A search that would step out of
//! the launch cone fails.

use vstd::prelude::*;
use crate::angle::{lemma_pow10_bounds, lemma_reversed_is_a_tenth, Angle, Stride, CONE_UNITS,
    FINEST_LEVEL};
use crate::scenario::SolveError;

verus! {

/// Largest precision a search accepts.
pub const MAX_PRECISION: u8 = 127;

/// Most iterations that one attempt can count.
pub const MAX_CREDIT: u8 = 5;

/// Position and progress of a search.
#[derive(Clone, Copy, Debug, PartialEq, Eq, Structural)]
pub struct Cursor {
    /// The angle of the next attempt; once the search has ended, the angle
    /// of the last.
    pub angle: Angle,
    /// The stride by which the search last moved, or will first move.
    pub stride: Stride,
    /// Iterations counted so far.
    pub iterations: u8,
    /// Iterations at which the search ends.
    pub precision: u8,
}

impl Cursor {
    /// The cursor is one that a search can hold.
    pub open spec fn wf(self) -> bool {
        &&& self.angle.in_cone()
        &&& self.stride.wf()
        &&& 1 <= self.precision <= MAX_PRECISION
        &&& self.iterations < self.precision + MAX_CREDIT
    }

    /// The search has ended.
    pub open spec fn finished(self) -> bool {
        self.iterations >= self.precision
    }

    /// Iterations still to count.
    pub open spec fn remaining(self) -> nat {
        if self.iterations >= self.precision {
            0
        } else {
            (self.precision - self.iterations) as nat
        }
    }

    /// Units between the angle and the edge of the launch cone that the
    /// stride points to.
    pub open spec fn room(self) -> nat {
        if self.stride.descending {
            (self.angle.units + CONE_UNITS) as nat
        } else {
            (CONE_UNITS - self.angle.units) as nat
        }
    }

    /// The cursor at the start of a search.
    pub open spec fn initial(angle: Angle, descending: bool, precision: u8) -> Cursor {
        Cursor { angle, stride: Stride { descending, level: 0 }, iterations: 0, precision }
    }

    /// The cursor after an attempt that counts `credit` iterations and, if
    /// `reverse` is set, turns the search around.
    pub open spec fn moved(self, reverse: bool, credit: u8) -> Result<Cursor, SolveError> {
        let iterations = (self.iterations + credit) as u8;
        if iterations >= self.precision {
            Ok(Cursor { iterations, ..self })
        } else {
            let stride = if reverse {
                self.stride.reversed()
            } else {
                self.stride
            };
            match self.angle.advanced(stride) {
                None => Err(SolveError::Diverged),
                Some(angle) => Ok(Cursor { angle, stride, iterations, precision: self.precision }),
            }
        }
    }

    /// Starts a search at `angle` with a stride of one degree.
    pub fn start(angle: Angle, descending: bool, precision: u8) -> (r: Cursor)
        requires
            angle.in_cone(),
            1 <= precision <= MAX_PRECISION,
        ensures
            r == Cursor::initial(angle, descending, precision),
            r.wf(),
            !r.finished(),
    {
        Cursor { angle, stride: Stride::one_degree(descending), iterations: 0, precision }
    }

    /// Tells whether the search has ended.
    pub fn is_finished(&self) -> (r: bool)
        ensures
            r == self.finished(),
    {
        self.iterations >= self.precision
    }

    /// Counts `credit` iterations and, unless that ends the search, reverses
    /// the stride if asked to and moves on by one stride. On failure the
    /// cursor stays as it was.
    pub fn step(&mut self, reverse: bool, credit: u8) -> (r: Result<(), SolveError>)
        requires
            old(self).wf(),
            !old(self).finished(),
            credit <= MAX_CREDIT,
        ensures
            match old(self).moved(reverse, credit) {
                Ok(next) => r.is_ok() && *final(self) == next,
                Err(e) => r == Err::<(), SolveError>(e) && *final(self) == *old(self),
            },
            r.is_ok() ==> final(self).wf(),
    {
        let iterations = self.iterations + credit;
        if iterations >= self.precision {
            self.iterations = iterations;
            return Ok(());
        }
        let stride = if reverse {
            self.stride.reverse()
        } else {
            self.stride
        };
        match self.angle.advance(stride) {
            None => Err(SolveError::Diverged),
            Some(angle) => {
                self.angle = angle;
                self.stride = stride;
                self.iterations = iterations;
                Ok(())
            },
        }
    }
}

/// Every move brings a search nearer to its end, or leaves the cursor as it
/// was: it counts an iteration, or it keeps its direction and uses up room in
/// the launch cone, or its stride is nothing and it stays.
pub proof fn lemma_moved_progress(cursor: Cursor, reverse: bool, credit: u8)
    requires
        cursor.wf(),
        !cursor.finished(),
        credit <= MAX_CREDIT,
        reverse ==> credit >= 1,
        cursor.moved(reverse, credit).is_ok(),
    ensures
        cursor.moved(reverse, credit).unwrap().wf(),
        cursor.moved(reverse, credit).unwrap().precision == cursor.precision,
        credit >= 1 ==> cursor.moved(reverse, credit).unwrap().remaining() < cursor.remaining(),
        credit == 0 ==> cursor.moved(reverse, credit).unwrap().remaining() == cursor.remaining(),
        credit == 0 && cursor.stride.level <= FINEST_LEVEL ==> cursor.moved(
            reverse,
            credit,
        ).unwrap().room() < cursor.room(),
        credit == 0 && cursor.stride.level > FINEST_LEVEL ==> cursor.moved(reverse, credit).unwrap()
            == cursor,
{
    let next = cursor.moved(reverse, credit).unwrap();
    lemma_reversed_is_a_tenth(cursor.stride);
    if next.stride.level <= FINEST_LEVEL {
        lemma_pow10_bounds((FINEST_LEVEL - next.stride.level) as nat);
    }
}

} // verus!
