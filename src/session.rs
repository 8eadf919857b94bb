//! Running the requests of the install sets in turn: a failed request does
//! not stop the others, but it keeps its set's freshness marker from being
//! written, and the whole run reports the first failure.

use vstd::prelude::*;
use crate::Error;
use crate::cache::SetPlan;

verus! {

/// The first of the failures recorded in turn.
pub struct Failures {
    first: Option<Error>,
}

impl Failures {
    pub closed spec fn failed(&self) -> bool {
        self.first is Some
    }

    /// The message of the first failure.
    pub closed spec fn first_message(&self) -> Seq<u8> {
        match self.first {
            Some(e) => e.spec_message(),
            None => seq![],
        }
    }

    pub fn new() -> (r: Failures)
        ensures
            !r.failed(),
    {
        Failures { first: None }
    }

    /// Records one result; only the first failure is kept.
    pub fn record(&mut self, result: Result<(), Error>)
        ensures
            final(self).failed() == (old(self).failed() || result is Err),
            old(self).failed() ==> final(self).first_message() == old(self).first_message(),
            !old(self).failed() ==> (result matches Err(e) ==> final(self).first_message()
                == e.spec_message()),
        no_unwind
    {
        match self.first {
            None => {
                if let Err(e) = result {
                    self.first = Some(e);
                }
            },
            Some(_) => {},
        }
    }

    /// `Ok` if nothing failed, else the first failure.
    pub fn finish(self) -> (r: Result<(), Error>)
        ensures
            r is Err <==> self.failed(),
            r matches Err(e) ==> e.spec_message() == self.first_message(),
    {
        match self.first {
            Some(e) => Err(e),
            None => Ok(()),
        }
    }
}

/// The progress of one install set through its plan.
pub struct SetRun {
    run: Vec<bool>,
    touch_marker: bool,
    next: usize,
    failures: Failures,
}

impl SetRun {
    #[verifier::type_invariant]
    spec fn wf(self) -> bool {
        self.next <= self.run@.len()
    }

    /// For each request, whether the plan builds it.
    pub closed spec fn planned(&self) -> Seq<bool> {
        self.run@
    }

    /// How many requests have been handed out or passed over.
    pub closed spec fn position(&self) -> int {
        self.next as int
    }

    pub closed spec fn marker_planned(&self) -> bool {
        self.touch_marker
    }

    pub closed spec fn failed(&self) -> bool {
        self.failures.failed()
    }

    pub closed spec fn first_message(&self) -> Seq<u8> {
        self.failures.first_message()
    }

    /// Starts a set on its plan. A dry run builds nothing, so it writes no
    /// marker.
    pub fn new(plan: SetPlan, dry_run: bool) -> (r: SetRun)
        ensures
            r.planned() == plan.run@,
            r.marker_planned() == (plan.touch_marker && !dry_run),
            r.position() == 0,
            !r.failed(),
    {
        SetRun {
            run: plan.run,
            touch_marker: plan.touch_marker && !dry_run,
            next: 0,
            failures: Failures::new(),
        }
    }

    /// The next request that the plan builds, in order; `None` once there is
    /// none left.
    pub fn next_request(&mut self) -> (r: Option<usize>)
        ensures
            final(self).planned() == old(self).planned(),
            final(self).marker_planned() == old(self).marker_planned(),
            final(self).failed() == old(self).failed(),
            final(self).first_message() == old(self).first_message(),
            match r {
                Some(k) => {
                    &&& old(self).position() <= k < old(self).planned().len()
                    &&& old(self).planned()[k as int]
                    &&& forall|j: int|
                        old(self).position() <= j < k ==> !#[trigger] old(self).planned()[j]
                    &&& final(self).position() == k + 1
                },
                None => {
                    &&& forall|j: int|
                        old(self).position() <= j < old(self).planned().len()
                            ==> !#[trigger] old(self).planned()[j]
                    &&& final(self).position() == old(self).planned().len()
                },
            },
    {
        proof {
            use_type_invariant(&*self);
        }
        let start = self.next;
        while self.next < self.run.len()
            invariant
                start <= self.next,
                self.run@ == old(self).run@,
                self.touch_marker == old(self).touch_marker,
                self.failures == old(self).failures,
                start == old(self).next,
                self.next <= self.run@.len(),
                forall|j: int| start <= j < self.next ==> !#[trigger] self.run@[j],
            decreases self.run@.len() - self.next,
        {
            let k = self.next;
            self.next = self.next + 1;
            if self.run[k] {
                return Some(k);
            }
        }
        None
    }

    /// Records the result of building a request.
    pub fn record(&mut self, result: Result<(), Error>)
        ensures
            final(self).planned() == old(self).planned(),
            final(self).marker_planned() == old(self).marker_planned(),
            final(self).position() == old(self).position(),
            final(self).failed() == (old(self).failed() || result is Err),
            old(self).failed() ==> final(self).first_message() == old(self).first_message(),
            !old(self).failed() ==> (result matches Err(e) ==> final(self).first_message()
                == e.spec_message()),
    {
        proof {
            use_type_invariant(&*self);
        }
        self.failures.record(result);
    }

    /// Whether to write the freshness marker now that the requests have run:
    /// the plan asks for it and none of them failed.
    pub fn marker_due(&self) -> (r: bool)
        ensures
            r == (self.marker_planned() && !self.failed()),
    {
        self.touch_marker && self.failures.first.is_none()
    }

    /// `Ok` if no request failed, else the first failure.
    pub fn finish(self) -> (r: Result<(), Error>)
        ensures
            r is Err <==> self.failed(),
            r matches Err(e) ==> e.spec_message() == self.first_message(),
    {
        self.failures.finish()
    }
}

} // verus!
