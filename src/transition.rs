use vstd::prelude::*;

verus! {

/// A transition between states: a request to change a stack of states,
/// described but not yet applied.
pub enum Transition<T> {
    /// Leave the stack as it is.
    Nothing,
    /// Push this state on top.
    Push(T),
    /// Pop the current state.
    Pop,
    /// Replace the current state with a new one.
    Swap(T),
    /// The general form: pop this many states off the top, then push these ones
    /// in order. The last element of the vec becomes the new active state.
    PopNAndPush(usize, Vec<T>),
}

/// What happened to the stack after a transition was applied.
#[derive(Debug, PartialEq, Eq, Clone)]
pub enum TransitionOutcome<T> {
    /// Nothing happened.
    Nothing,
    /// States were pushed and nothing was removed.
    Pushed,
    /// States were removed and nothing was pushed, revealing the state under them.
    /// The vec holds the removed states in stack order: its last element was the top.
    Revealed(Vec<T>),
    /// States were removed and others pushed in their place. The vec holds the
    /// removed states in stack order; the number is how many states were pushed,
    /// less one.
    SwappedIn(Vec<T>, usize),
}

/// Why a transition could not be applied.
#[derive(Debug, Clone, Copy, PartialEq, Eq)]
pub enum TransitionError {
    /// Tried to pop more states than the stack can give up.
    PoppedTooMany {
        /// How many states the transition asked to pop.
        popcnt: usize,
        /// How many states it was allowed to pop: the length of the stack when
        /// the transition also pushes, the length less one when it does not.
        available: usize,
    },
}

/// The decimal digits of `n`, most significant first, without leading zeros.
pub open spec fn decimal(n: nat) -> Seq<char>
    decreases n,
{
    let digit = seq!['0', '1', '2', '3', '4', '5', '6', '7', '8', '9'][(n % 10) as int];
    if n < 10 {
        seq![digit]
    } else {
        decimal(n / 10).push(digit)
    }
}

impl TransitionError {
    /// The sentence that `describe` gives for this error.
    pub open spec fn message(self) -> Seq<char> {
        match self {
            TransitionError::PoppedTooMany { popcnt, available } => popped_too_many_text(
                popcnt,
                available,
            ),
        }
    }

    /// A sentence that describes the error.
    pub fn describe(&self) -> (r: String)
        ensures
            r@ == self.message(),
    {
        match self {
            TransitionError::PoppedTooMany { popcnt, available } => popped_too_many_message(
                *popcnt,
                *available,
            ),
        }
    }
}

/// The sentence for an attempt to pop `popcnt` states where `available` could go.
pub open spec fn popped_too_many_text(popcnt: usize, available: usize) -> Seq<char> {
    "Tried to pop "@ + decimal(popcnt as nat) + " states, but could only pop "@ + decimal(
        available as nat,
    )
}

/// Relies on `std::format!`, whose `{}` writes an unsigned integer in decimal
/// digits without sign, padding or leading zeros.
#[verifier::external_body]
fn popped_too_many_message(popcnt: usize, available: usize) -> (r: String)
    ensures
        r@ == popped_too_many_text(popcnt, available),
{
    format!("Tried to pop {} states, but could only pop {}", popcnt, available)
}

impl<T> TransitionOutcome<T> {
    /// The states that left the stack, in stack order.
    pub open spec fn removed_states(self) -> Seq<T> {
        match self {
            TransitionOutcome::Revealed(v) => v@,
            TransitionOutcome::SwappedIn(v, _) => v@,
            _ => Seq::empty(),
        }
    }
}

impl<T> Transition<T> {
    /// How many states the transition pops off the top.
    pub open spec fn pop_count(self) -> nat {
        match self {
            Transition::Nothing => 0,
            Transition::Push(_) => 0,
            Transition::Pop => 1,
            Transition::Swap(_) => 1,
            Transition::PopNAndPush(n, _) => n as nat,
        }
    }

    /// The states the transition pushes, bottom first.
    pub open spec fn to_push(self) -> Seq<T> {
        match self {
            Transition::Nothing => Seq::empty(),
            Transition::Push(s) => seq![s],
            Transition::Pop => Seq::empty(),
            Transition::Swap(s) => seq![s],
            Transition::PopNAndPush(_, v) => v@,
        }
    }

    /// How many states the transition may pop from a stack of `len` states:
    /// at least one state must stay unless something is pushed in its place.
    pub open spec fn allowed_pops(self, len: nat) -> int {
        if self.to_push().len() == 0 {
            len - 1
        } else {
            len as int
        }
    }

    /// Whether the transition can be applied to a stack of `len` states.
    pub open spec fn fits(self, len: nat) -> bool {
        self is Nothing || self.pop_count() <= self.allowed_pops(len)
    }

    /// The states that the transition takes off the stack `s`.
    pub open spec fn popped(self, s: Seq<T>) -> Seq<T> {
        s.subrange(s.len() - self.pop_count(), s.len() as int)
    }

    /// The stack after the transition is applied to `s`; a transition that
    /// does not fit leaves it as it was.
    pub open spec fn spec_apply(self, s: Seq<T>) -> Seq<T> {
        if self is Nothing || !self.fits(s.len()) {
            s
        } else {
            s.subrange(0, s.len() - self.pop_count()) + self.to_push()
        }
    }

    /// Whether `r` is what applying the transition to the stack `s` returns.
    pub open spec fn result_of(
        self,
        s: Seq<T>,
        r: Result<TransitionOutcome<T>, TransitionError>,
    ) -> bool {
        if self is Nothing {
            r == Ok::<TransitionOutcome<T>, TransitionError>(TransitionOutcome::Nothing)
        } else if !self.fits(s.len()) {
            r == Err::<TransitionOutcome<T>, TransitionError>(
                TransitionError::PoppedTooMany {
                    popcnt: self.pop_count() as usize,
                    available: self.allowed_pops(s.len()) as usize,
                },
            )
        } else {
            match r {
                Ok(o) => if self.to_push().len() == 0 {
                    o is Revealed && o.removed_states() == self.popped(s)
                } else if self.pop_count() == 0 {
                    o is Pushed
                } else {
                    &&& o matches TransitionOutcome::SwappedIn(_, k)
                    &&& o.removed_states() == self.popped(s)
                    &&& k == self.to_push().len() - 1
                },
                Err(_) => false,
            }
        }
    }

    /// Applying a transition to a stack that holds a state leaves a stack that
    /// holds a state.
    pub proof fn lemma_apply_keeps_states(self, s: Seq<T>)
        requires
            s.len() >= 1,
        ensures
            self.spec_apply(s).len() >= 1,
    {
    }

    /// Whether the transition can be applied to `s` without an arithmetic
    /// underflow: only a transition that pushes nothing needs a state to keep.
    pub open spec fn can_measure(self, s: Seq<T>) -> bool {
        self is Nothing || self.to_push().len() > 0 || s.len() >= 1
    }

    /// Applies the transition to the given stack. On an error the stack is
    /// left unchanged.
    pub fn apply(self, stack: &mut Vec<T>) -> (r: Result<TransitionOutcome<T>, TransitionError>)
        requires
            self.can_measure(old(stack)@),
        ensures
            self.result_of(old(stack)@, r),
            final(stack)@ == self.spec_apply(old(stack)@),
            r is Err ==> final(stack)@ == old(stack)@,
    {
        let ghost t = self;
        let (pop_count, mut to_push): (usize, Vec<T>) = match self {
            Transition::Nothing => return Ok(TransitionOutcome::Nothing),
            Transition::Push(s) => (0, vec![s]),
            Transition::Pop => (1, Vec::new()),
            Transition::Swap(s) => (1, vec![s]),
            Transition::PopNAndPush(count, states) => (count, states),
        };
        assert(pop_count == t.pop_count() && to_push@ == t.to_push());

        // at least one state has to stay unless something replaces it
        let allowed_popcnt: usize = if to_push.len() == 0 {
            stack.len() - 1
        } else {
            stack.len()
        };
        if pop_count > allowed_popcnt {
            return Err(
                TransitionError::PoppedTooMany { popcnt: pop_count, available: allowed_popcnt },
            );
        }
        let len: usize = stack.len();
        let removed: Vec<T> = stack.split_off(len - pop_count);

        if to_push.len() == 0 {
            assert(stack@ =~= t.spec_apply(old(stack)@));
            Ok(TransitionOutcome::Revealed(removed))
        } else {
            let pushed: usize = to_push.len();
            stack.append(&mut to_push);
            if removed.len() == 0 {
                Ok(TransitionOutcome::Pushed)
            } else {
                Ok(TransitionOutcome::SwappedIn(removed, pushed - 1))
            }
        }
    }
}

/// The stack after each of `ts` has been applied to `s` in turn; a transition
/// that does not fit leaves the stack as it was.
pub open spec fn spec_apply_all<T>(ts: Seq<Transition<T>>, s: Seq<T>) -> Seq<T>
    decreases ts.len(),
{
    if ts.len() == 0 {
        s
    } else {
        spec_apply_all(ts.drop_first(), ts[0].spec_apply(s))
    }
}

/// However many transitions are applied to a stack that holds a state, one after
/// another, the stack still holds a state after each of them.
pub proof fn lemma_apply_all_keeps_states<T>(ts: Seq<Transition<T>>, s: Seq<T>)
    requires
        s.len() >= 1,
    ensures
        spec_apply_all(ts, s).len() >= 1,
    decreases ts.len(),
{
    if ts.len() > 0 {
        ts[0].lemma_apply_keeps_states(s);
        lemma_apply_all_keeps_states(ts.drop_first(), ts[0].spec_apply(s));
    }
}

/// A transition that does not fit leaves the stack exactly as it was.
pub proof fn lemma_failed_apply_keeps_stack<T>(t: Transition<T>, s: Seq<T>)
    requires
        !t.fits(s.len()),
    ensures
        t.spec_apply(s) == s,
        forall|r: Result<TransitionOutcome<T>, TransitionError>| #[trigger]
            t.result_of(s, r) ==> r is Err,
{
}

/// After `PopNAndPush(n, v)` is applied, the active state is the last of `v`
/// when `v` holds states, and otherwise the state that stood `n` places below
/// the old top.
pub proof fn lemma_pop_n_and_push_active<T>(n: usize, v: Vec<T>, s: Seq<T>)
    requires
        Transition::PopNAndPush(n, v).fits(s.len()),
    ensures
        v@.len() > 0 ==> Transition::PopNAndPush(n, v).spec_apply(s).last() == v@.last(),
        v@.len() == 0 ==> Transition::PopNAndPush(n, v).spec_apply(s).last() == s[s.len() - 1
            - n],
{
}

} // verus!
