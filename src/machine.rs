use vstd::prelude::*;

use crate::transition::{Transition, TransitionError, TransitionOutcome};

verus! {

/// A stack of states whose last element, the top, is the active state.
/// The stack is never empty.
pub struct StateMachine<T> {
    stack: Vec<T>,
}

impl<T> View for StateMachine<T> {
    type V = Seq<T>;

    /// The states from the bottom to the top.
    closed spec fn view(&self) -> Seq<T> {
        self.stack@
    }
}

impl<T> StateMachine<T> {
    /// The stack holds at least one state.
    pub open spec fn wf(&self) -> bool {
        self@.len() >= 1
    }

    /// The machine that holds `stack` as its states, the last on top.
    pub closed spec fn spec_new_many(stack: Vec<T>) -> Self {
        StateMachine { stack }
    }

    /// The vec of states that `consume` hands back.
    pub closed spec fn spec_consume(self) -> Vec<T> {
        self.stack
    }

    /// Creates a machine with the given state as its only one.
    pub fn new(initial: T) -> (r: Self)
        ensures
            r.wf(),
            r@ == seq![initial],
    {
        StateMachine { stack: vec![initial] }
    }

    /// Creates a machine with the given states; the last element of the vec is the
    /// topmost state.
    pub fn new_many(stack: Vec<T>) -> (r: Self)
        requires
            stack@.len() >= 1,
        ensures
            r.wf(),
            r@ == stack@,
            r == Self::spec_new_many(stack),
    {
        StateMachine { stack }
    }

    /// The active state: the top of the stack.
    pub fn active(&self) -> (r: &T)
        requires
            self.wf(),
        ensures
            *r == self@.last(),
    {
        let n: usize = self.stack.len();
        &self.stack[n - 1]
    }

    /// The active state, mutably.
    pub fn active_mut(&mut self) -> (r: &mut T)
        requires
            old(self).wf(),
        ensures
            *r == old(self)@.last(),
            final(self)@ == old(self)@.update(old(self)@.len() - 1, *final(r)),
            final(self).wf(),
    {
        let n: usize = self.stack.len();
        &mut self.stack[n - 1]
    }

    /// The active state, and all the states under it in stack order.
    pub fn split_last(&self) -> (r: (&T, &[T]))
        requires
            self.wf(),
        ensures
            *r.0 == self@.last(),
            r.1@ == self@.drop_last(),
    {
        let n: usize = self.stack.len();
        let (under, top) = self.stack.as_slice().split_at(n - 1);
        (&top[0], under)
    }

    /// The active state, and all the states under it in stack order, mutably.
    pub fn split_last_mut(&mut self) -> (r: (&mut T, &mut [T]))
        requires
            old(self).wf(),
        ensures
            *r.0 == old(self)@.last(),
            r.1@ == old(self)@.drop_last(),
            final(self)@ == final(r.1)@.push(*final(r.0)),
    {
        let n: usize = self.stack.len();
        let (under, top) = self.stack.as_mut_slice().split_at_mut(n - 1);
        let last = top.first_mut().unwrap();
        (last, under)
    }

    /// Applies the given transition to the stack; see `Transition::apply`.
    /// On an error the stack is left unchanged.
    pub fn apply(&mut self, transition: Transition<T>) -> (r: Result<
        TransitionOutcome<T>,
        TransitionError,
    >)
        requires
            old(self).wf(),
        ensures
            transition.result_of(old(self)@, r),
            final(self)@ == transition.spec_apply(old(self)@),
            r is Err ==> final(self)@ == old(self)@,
            final(self).wf(),
    {
        let r = transition.apply(&mut self.stack);
        proof {
            transition.lemma_apply_keeps_states(old(self)@);
        }
        r
    }

    /// Borrows the states, bottom first.
    pub fn get_stack(&self) -> (r: &[T])
        ensures
            r@ == self@,
    {
        self.stack.as_slice()
    }

    /// Mutably borrows the states, bottom first. A slice keeps its length, but the
    /// contract does not say so: a verified caller cannot count on `wf` afterwards.
    pub fn get_stack_mut(&mut self) -> (r: &mut [T])
        ensures
            r@ == old(self)@,
            final(self)@ == final(r)@,
    {
        self.stack.as_mut_slice()
    }

    /// Mutably borrows the vec of states itself. The caller must leave at least
    /// one state in it: the other methods require `wf` again.
    pub fn get_stack_direct(&mut self) -> (r: &mut Vec<T>)
        ensures
            r@ == old(self)@,
            final(self)@ == final(r)@,
    {
        &mut self.stack
    }

    /// The states from the topmost (active) to the bottommost.
    pub fn iter(&self) -> (r: Vec<&T>)
        ensures
            r@.len() == self@.len(),
            forall|k: int| 0 <= k < r@.len() ==> *r@[k] == self@[r@.len() - 1 - k],
    {
        let n: usize = self.stack.len();
        let mut r: Vec<&T> = Vec::with_capacity(n);
        let mut i: usize = n;
        while i > 0
            invariant
                i <= n == self@.len(),
                r@.unref() == self@.subrange(i as int, n as int).reverse(),
            decreases i,
        {
            i = i - 1;
            let ghost before = r@;
            let e: &T = &self.stack[i];
            r.push(e);
            assert(before.unref() == self@.subrange(i + 1, n as int).reverse());
            assert forall|k: int| 0 <= k < r@.len() implies *r@[k] == self@.subrange(
                i as int,
                n as int,
            ).reverse()[k] by {
                if k < before.len() {
                    assert(*before[k] == before.unref()[k]);
                }
            }
            assert(r@.unref() =~= self@.subrange(i as int, n as int).reverse());
        }
        assert(self@.subrange(0, n as int) =~= self@);
        assert forall|k: int| 0 <= k < r@.len() implies *r@[k] == self@[r@.len() - 1 - k] by {
            assert(*r@[k] == r@.unref()[k]);
        }
        r
    }

    /// The states from the topmost (active) to the bottommost, mutably.
    pub fn iter_mut(&mut self) -> (r: Vec<&mut T>)
        ensures
            r@.len() == old(self)@.len(),
            forall|k: int| 0 <= k < r@.len() ==> *r@[k] == old(self)@[r@.len() - 1 - k],
            final(self)@ == Seq::new(r@.len(), |j: int| *final(r@[r@.len() - 1 - j])),
    {
        let ghost n = old(self)@.len();
        let whole: &mut [T] = self.stack.as_mut_slice();
        let ghost whole_final = final(whole)@;
        let mut rest: &mut [T] = whole;
        let mut r: Vec<&mut T> = Vec::new();
        while rest.len() > 0
            invariant
                n == old(self)@.len(),
                r@.len() <= n,
                rest@ == old(self)@.subrange(0, n - r@.len()),
                forall|k: int| 0 <= k < r@.len() ==> *r@[k] == old(self)@[n - 1 - k],
                whole_final == final(rest)@ + Seq::new(
                    r@.len(),
                    |j: int| *final(r@[r@.len() - 1 - j]),
                ),
            decreases rest@.len(),
        {
            let m: usize = rest.len();
            let (under, top) = rest.split_at_mut(m - 1);
            let e: &mut T = top.first_mut().unwrap();
            let ghost before = r@;
            r.push(e);
            rest = under;
            assert(forall|k: int| 0 <= k < before.len() ==> r@[k] == before[k]);
        }
        // the remainder is empty and stays so; this settles its final value
        let end = rest.first_mut();
        r
    }

    /// Hands back the states, bottom first.
    pub fn consume(self) -> (r: Vec<T>)
        ensures
            r@ == self@,
            r == self.spec_consume(),
    {
        self.stack
    }

    /// How many states the stack holds; never zero.
    pub fn len(&self) -> (r: usize)
        requires
            self.wf(),
        ensures
            r == self@.len(),
            r >= 1,
    {
        self.stack.len()
    }

    /// Whether the stack is empty, which it never is.
    pub fn is_empty(&self) -> (r: bool)
        requires
            self.wf(),
        ensures
            r == (self@.len() == 0),
            !r,
    {
        false
    }
}

/// Handing a machine's states out and building a machine from them gives back
/// the same machine, and building a machine from states and handing them out
/// gives back the same states, in the same order.
pub proof fn lemma_states_round_trip<T>(m: StateMachine<T>, v: Vec<T>)
    ensures
        StateMachine::spec_new_many(m.spec_consume()) == m,
        StateMachine::spec_new_many(v).spec_consume() == v,
        StateMachine::spec_new_many(v)@ == v@,
        m.spec_consume()@ == m@,
{
}

} // verus!
