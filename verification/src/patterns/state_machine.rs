use vstd::prelude::*;

verus! {

/// A state of a linear state machine: whether it is done with the machine's data and the
/// machine may move on to the next state.
pub trait TState<TData>: core::fmt::Debug {
    /// Whether the state is done with `data`.
    spec fn valid_spec(&self, data: TData) -> bool;

    /// What checking the state leaves of `data`.
    spec fn checked_data(&self, data: TData) -> TData;

    fn is_valid(&self, data: &mut TData) -> (r: bool)
        ensures
            r == self.valid_spec(*old(data)),
            *final(data) == self.checked_data(*old(data)),
    ;
}

/// The single transition of each state of a linear machine.
pub trait TTransit: Sized {
    /// The state this one moves to.
    spec fn transit_spec(&self) -> Self;

    /// The state this one moves to.
    fn transit(&self) -> (r: Self)
        ensures
            r == self.transit_spec(),
    ;
}

/// What one `update` of a linear machine did.
#[derive(Clone, Copy, PartialEq, Eq, Structural, Debug)]
pub enum StepOutcome {
    /// The precheck state at this position was valid; the machine moved to its target.
    Precheck(usize),
    /// The current state was valid; the machine moved to its target.
    Advanced,
    /// Nothing was valid; the machine stayed where it was.
    Stayed,
}

/// Trying the precheck states from position `i` on, in order, each check seeing the data the
/// previous one left: the position of the first valid one, if any, and the data afterwards.
pub open spec fn precheck_scan<D, S: TState<D>>(prechecks: Seq<S>, data: D, i: int) -> (
    Option<int>,
    D,
)
    decreases prechecks.len() - i,
{
    if i < 0 || i >= prechecks.len() {
        (None, data)
    } else if prechecks[i].valid_spec(data) {
        (Some(i), prechecks[i].checked_data(data))
    } else {
        precheck_scan(prechecks, prechecks[i].checked_data(data), i + 1)
    }
}

/// One step of a linear machine in state `current` over `data`: the outcome, the new state,
/// the data afterwards and whether the next step is due a precheck. When a precheck is due,
/// the first valid precheck state moves the machine to its target; otherwise the current
/// state is tried and, when valid, moves to its target.
pub open spec fn machine_step<D, S: TState<D> + TTransit>(
    data: D,
    current: S,
    must_precheck: bool,
    prechecks: Seq<S>,
) -> (StepOutcome, S, D, bool) {
    let (hit, d1) = if must_precheck {
        precheck_scan(prechecks, data, 0)
    } else {
        (None, data)
    };
    match hit {
        Some(i) => (StepOutcome::Precheck(i as usize), prechecks[i].transit_spec(), d1, false),
        None => if current.valid_spec(d1) {
            (StepOutcome::Advanced, current.transit_spec(), current.checked_data(d1), true)
        } else {
            (StepOutcome::Stayed, current, current.checked_data(d1), true)
        },
    }
}

/// A scan that finds a valid precheck state finds one at a position inside the list.
proof fn lemma_scan_hit_in_range<D, S: TState<D>>(prechecks: Seq<S>, data: D, i: int)
    ensures
        precheck_scan(prechecks, data, i).0 matches Some(k) ==> 0 <= i <= k < prechecks.len(),
    decreases prechecks.len() - i,
{
    if 0 <= i < prechecks.len() && !prechecks[i].valid_spec(data) {
        lemma_scan_hit_in_range(prechecks, prechecks[i].checked_data(data), i + 1);
    }
}

/// After a step, the next step is due a precheck exactly when no precheck state fired in this
/// one: a completed (or failed) try of the current state always hands the next step back to
/// the prechecks, and only a fired precheck skips them once. A fired precheck happens only
/// when one was due, at a position inside the list, and moves the machine to that state's
/// target; an advance moves the current state to its target; staying keeps it.
pub proof fn law_precheck_due_unless_one_fired<D, S: TState<D> + TTransit>(
    data: D,
    current: S,
    must_precheck: bool,
    prechecks: Seq<S>,
)
    requires
        prechecks.len() <= usize::MAX,
    ensures
        ({
            let (r, next, _d, due) = machine_step(data, current, must_precheck, prechecks);
            &&& due <==> !(r is Precheck)
            &&& r is Precheck ==> must_precheck
            &&& r matches StepOutcome::Precheck(i) ==> i < prechecks.len() && next
                == prechecks[i as int].transit_spec()
            &&& r is Advanced ==> next == current.transit_spec()
            &&& r is Stayed ==> next == current
        }),
{
    lemma_scan_hit_in_range(prechecks, data, 0);
}

/// Two steps in a row: when the first one did not fire a precheck (it advanced or stayed),
/// the second one starts with the prechecks, so a precheck state that is valid on the data
/// the first step left fires before the current state is tried again.
pub proof fn law_step_after_advance_prechecks<D, S: TState<D> + TTransit>(
    data: D,
    current: S,
    must_precheck: bool,
    prechecks: Seq<S>,
)
    requires
        prechecks.len() <= usize::MAX,
        !(machine_step(data, current, must_precheck, prechecks).0 is Precheck),
        precheck_scan(prechecks, machine_step(data, current, must_precheck, prechecks).2, 0).0 is Some,
    ensures
        ({
            let (_r, next, d, due) = machine_step(data, current, must_precheck, prechecks);
            machine_step(d, next, due, prechecks).0 is Precheck
        }),
{
    law_precheck_due_unless_one_fired(data, current, must_precheck, prechecks);
}

/// A linear state machine: each state has one target. Precheck states are tried, in order,
/// once after every completed step; the current state is tried otherwise.
pub struct LinearMachine<D, S> {
    data: D,
    current_state: S,
    must_precheck: bool,
    prechecks: Vec<S>,
}

impl<D, S: TState<D> + TTransit> LinearMachine<D, S> {
    pub closed spec fn spec_data(&self) -> D {
        self.data
    }

    pub closed spec fn spec_current(&self) -> S {
        self.current_state
    }

    /// Whether the next `update` starts with the precheck states.
    pub closed spec fn spec_must_precheck(&self) -> bool {
        self.must_precheck
    }

    pub closed spec fn spec_prechecks(&self) -> Seq<S> {
        self.prechecks@
    }

    /// A machine over `data` in `initial`, with precheck states `prechecks`; its first
    /// `update` starts with the prechecks.
    pub fn new(data: D, initial: S, prechecks: Vec<S>) -> (m: Self)
        ensures
            m.spec_data() == data,
            m.spec_current() == initial,
            m.spec_must_precheck(),
            m.spec_prechecks() == prechecks@,
    {
        LinearMachine { data, current_state: initial, must_precheck: true, prechecks }
    }

    pub fn data(&self) -> (r: &D)
        ensures
            *r == self.spec_data(),
    {
        &self.data
    }

    pub fn current_state(&self) -> (r: &S)
        ensures
            *r == self.spec_current(),
    {
        &self.current_state
    }

    /// One step, as `machine_step` states: when a precheck is due, the precheck states are
    /// tried in order and the first valid one moves the machine to its target, and the next
    /// step skips the prechecks; otherwise, or when none is valid, the current state is tried
    /// and moves to its target when valid, and the next step is due a precheck again.
    pub fn update(&mut self) -> (r: StepOutcome)
        ensures
            final(self).spec_prechecks() == old(self).spec_prechecks(),
            (r, final(self).spec_current(), final(self).spec_data(), final(self).spec_must_precheck())
                == machine_step(
                old(self).spec_data(),
                old(self).spec_current(),
                old(self).spec_must_precheck(),
                old(self).spec_prechecks(),
            ),
            final(self).spec_must_precheck() <==> !(r is Precheck),
            r is Precheck ==> old(self).spec_must_precheck(),
            r matches StepOutcome::Precheck(i) ==> i < old(self).spec_prechecks().len()
                && final(self).spec_current() == old(self).spec_prechecks()[i as int].transit_spec(),
            r is Advanced ==> final(self).spec_current() == old(self).spec_current().transit_spec(),
            r is Stayed ==> final(self).spec_current() == old(self).spec_current(),
    {
        proof {
            assert(old(self).spec_prechecks().len() == old(self).prechecks.len());
            law_precheck_due_unless_one_fired(
                old(self).spec_data(),
                old(self).spec_current(),
                old(self).spec_must_precheck(),
                old(self).spec_prechecks(),
            );
        }
        if self.must_precheck {
            let mut i: usize = 0;
            while i < self.prechecks.len()
                invariant
                    i <= self.prechecks@.len(),
                    self.prechecks@ == old(self).prechecks@,
                    self.current_state == old(self).current_state,
                    self.must_precheck,
                    old(self).must_precheck,
                    precheck_scan(self.prechecks@, self.data, i as int) == precheck_scan(
                        old(self).prechecks@,
                        old(self).data,
                        0,
                    ),
                decreases self.prechecks@.len() - i,
            {
                if self.prechecks[i].is_valid(&mut self.data) {
                    self.current_state = self.prechecks[i].transit();
                    self.must_precheck = false;
                    return StepOutcome::Precheck(i);
                }
                i = i + 1;
            }
        }
        self.must_precheck = true;
        if !self.current_state.is_valid(&mut self.data) {
            return StepOutcome::Stayed;
        }
        self.current_state = self.current_state.transit();
        StepOutcome::Advanced
    }
}

} // verus!
