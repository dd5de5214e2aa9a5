//! Handing out moves in random order.
use vstd::prelude::*;
use crate::error::LimitSizeError;
use crate::math::{Prng, xorshift_step, draw_of};

verus! {

/// The most moves a position can have.
pub const MOVE_MAX: u16 = 593;

/// Hands out the moves pushed into it.
pub trait MovePicker<T> {
    /// Adds `m`; the number held, or the limit once it is reached.
    fn push(&mut self, m: T) -> Result<u16, LimitSizeError>;
    /// Forgets every move.
    fn reset(&mut self);
    /// The number of moves held.
    fn len(&self) -> usize;
    /// The next move, if any is left.
    fn next(&mut self) -> Option<T>;
}

/// Hands out its moves in an order drawn from a generator: each move given
/// out is drawn among those not given out yet.
pub struct RandomPicker<T> {
    rnd: Prng,
    mvs: Vec<T>,
    current: u16,
    count: u16,
}

impl<T> RandomPicker<T> {
    /// The counts are consistent.
    #[verifier::type_invariant]
    closed spec fn wf(&self) -> bool {
        &&& self.current <= self.count <= MOVE_MAX
        &&& self.count <= self.mvs@.len()
    }

    /// Takes the storage out, leaving an empty picker with the same generator.
    fn take_moves(&mut self) -> (v: Vec<T>)
        ensures
            v@ == old(self).mvs@,
            final(self).current == 0,
            final(self).count == 0,
            final(self).rnd == old(self).rnd,
    {
        proof { use_type_invariant(&*self); }
        self.current = 0;
        self.count = 0;
        let mut v: Vec<T> = Vec::new();
        std::mem::swap(&mut v, &mut self.mvs);
        v
    }

    /// Puts `v` back as the storage, with `count` moves held and `current` given out.
    fn put_moves(&mut self, v: Vec<T>, current: u16, count: u16)
        requires
            old(self).current == 0,
            old(self).count == 0,
            current <= count <= MOVE_MAX,
            count <= v@.len(),
        ensures
            final(self).mvs@ == v@,
            final(self).current == current,
            final(self).count == count,
            final(self).rnd == old(self).rnd,
    {
        let mut v = v;
        std::mem::swap(&mut v, &mut self.mvs);
        self.count = count;
        self.current = current;
    }
}

impl<T: Copy> RandomPicker<T> {
    /// The moves held, in their current order (those given out first).
    pub closed spec fn moves(&self) -> Seq<T> {
        self.mvs@.subrange(0, self.count as int)
    }

    /// How many moves were given out.
    pub closed spec fn given(&self) -> nat {
        self.current as nat
    }

    /// The state of the generator.
    pub closed spec fn rnd_state(&self) -> u64 {
        self.rnd.state()
    }


    /// `after` and `r` are what adding `m` to this picker gives: refused with the
    /// limit and nothing changed once `MOVE_MAX` moves are held, else `m` goes at
    /// the end and the new number held is returned.
    pub open spec fn pushed(&self, after: RandomPicker<T>, m: T, r: Result<u16, LimitSizeError>) -> bool {
        &&& self.moves().len() == MOVE_MAX ==> r == Err::<u16, LimitSizeError>(LimitSizeError(MOVE_MAX as usize))
            && after == *self
        &&& self.moves().len() < MOVE_MAX ==> r == Ok::<u16, LimitSizeError>((self.moves().len() + 1) as u16)
            && after.moves() == self.moves().push(m)
            && after.given() == self.given()
            && after.rnd_state() == self.rnd_state()
    }

    /// `after` is this picker with every move forgotten.
    pub open spec fn reset_to(&self, after: RandomPicker<T>) -> bool {
        &&& after.moves() == Seq::<T>::empty()
        &&& after.given() == 0
        &&& after.rnd_state() == self.rnd_state()
    }

    /// `after` and `r` are what drawing the next move gives: the move at the place
    /// drawn from the generator among those not given out yet changes places with
    /// the first of them and is returned; none, and nothing changed, once all
    /// were given out.
    pub open spec fn drawn(&self, after: RandomPicker<T>, r: Option<T>) -> bool {
        &&& self.given() >= self.moves().len() ==> r == None::<T> && after == *self
        &&& self.given() < self.moves().len() ==> ({
            let i = self.given() as int;
            let j = i + draw_of(xorshift_step(self.rnd_state())) % ((self.moves().len() - i) as u64);
            let s = self.moves();
            &&& after.moves() == s.update(i, s[j]).update(j, s[i])
            &&& after.given() == self.given() + 1
            &&& after.rnd_state() == xorshift_step(self.rnd_state())
            &&& r == Some(s[j])
        })
    }

    /// A picker with no move, drawing from `r`.
    pub fn new(r: Prng) -> (p: RandomPicker<T>)
        ensures
            p.moves() == Seq::<T>::empty(),
            p.given() == 0,
            p.rnd_state() == r.state(),
    {
        let p = RandomPicker { rnd: r, mvs: Vec::new(), current: 0, count: 0 };
        proof {
            assert(p.mvs@.subrange(0, 0) =~= Seq::<T>::empty());
        }
        p
    }

    /// Adds `m` at the end; refused once `MOVE_MAX` moves are held.
    pub fn push(&mut self, m: T) -> (r: Result<u16, LimitSizeError>)
        ensures
            old(self).pushed(*final(self), m, r),
    {
        proof { use_type_invariant(&*self); }
        if self.count == MOVE_MAX {
            return Err(LimitSizeError(self.count as usize));
        }
        let ghost before = self.moves();
        let count = self.count;
        let current = self.current;
        let mut mvs = self.take_moves();
        if (count as usize) < mvs.len() {
            mvs.set(count as usize, m);
        } else {
            mvs.push(m);
        }
        self.put_moves(mvs, current, count + 1);
        proof {
            assert(self.moves() =~= before.push(m));
        }
        Ok(count + 1)
    }

    /// Forgets every move.
    pub fn reset(&mut self)
        ensures
            old(self).reset_to(*final(self)),
    {
        proof { use_type_invariant(&*self); }
        self.current = 0;
        self.count = 0;
        proof {
            assert(self.mvs@.subrange(0, 0) =~= Seq::<T>::empty());
        }
    }

    /// The number of moves held.
    pub fn len(&self) -> (r: usize)
        ensures
            r == self.moves().len(),
    {
        proof { use_type_invariant(self); }
        self.count as usize
    }

    /// The next move: the one drawn among those not given out yet (at the
    /// place drawn from the generator, counted from the first of them),
    /// which changes places with the first of them; none once all were
    /// given out.
    pub fn next(&mut self) -> (r: Option<T>)
        ensures
            old(self).drawn(*final(self), r),
    {
        proof { use_type_invariant(&*self); }
        if self.current >= self.count {
            return None;
        }
        let ghost s = self.moves();
        let index = self.current;
        let d = self.rnd.rnd((self.count - index) as u64);
        let swap_index = (d as u16) + index;
        let count = self.count;
        let mut mvs = self.take_moves();
        let a = mvs[index as usize];
        let b = mvs[swap_index as usize];
        mvs.set(index as usize, b);
        mvs.set(swap_index as usize, a);
        self.put_moves(mvs, index + 1, count);
        proof {
            assert(self.moves() =~= s.update(index as int, s[swap_index as int]).update(swap_index as int, s[index as int]));
        }
        Some(b)
    }

    /// The moves held, in their current order.
    pub fn into_vec(self) -> (r: Vec<T>)
        ensures
            r@ == self.moves(),
    {
        proof { use_type_invariant(&self); }
        let mut v: Vec<T> = Vec::new();
        let mut i: u16 = 0;
        while i < self.count
            invariant
                i <= self.count,
                self.count <= self.mvs@.len(),
                v@ == self.mvs@.subrange(0, i as int),
            decreases self.count - i,
        {
            v.push(self.mvs[i as usize]);
            proof {
                assert(v@ =~= self.mvs@.subrange(0, i + 1));
            }
            i = i + 1;
        }
        v
    }
}

impl<T: Copy> MovePicker<T> for RandomPicker<T> {
    fn push(&mut self, m: T) -> (r: Result<u16, LimitSizeError>)
        ensures
            old(self).pushed(*final(self), m, r),
    {
        RandomPicker::push(self, m)
    }

    fn reset(&mut self)
        ensures
            old(self).reset_to(*final(self)),
    {
        RandomPicker::reset(self)
    }

    fn len(&self) -> (r: usize)
        ensures
            r == self.moves().len(),
    {
        RandomPicker::len(self)
    }

    fn next(&mut self) -> (r: Option<T>)
        ensures
            old(self).drawn(*final(self), r),
    {
        RandomPicker::next(self)
    }
}

} // verus!
