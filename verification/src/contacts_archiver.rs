//! The background export job: one job slot, tracked by a small state
//! machine with cooperative, polling-based cancellation.
//!
//! The driver of the slot performs the waiting and the spawning; every
//! decision — whether a start spawns a run, whether a stage may proceed,
//! what completion and failure write — is made here, one atomic step at a
//! time, so a reader may interleave freely with the running task.

use vstd::prelude::*;

use crate::archive_json::{encode_contacts_json, json_of_contacts};
use crate::contact_model::Contact;

verus! {

/// The job slot's lifecycle. `Failed` is terminal and carries a reason,
/// observable the same way `Complete` is.
#[derive(Clone, Copy, PartialEq, Eq, Structural, Debug)]
pub enum Status {
    Waiting,
    Running,
    Complete,
    Failed,
}

/// The mathematical value of an `Archiver`.
pub struct ArchiverView {
    pub status: Status,
    pub progress: u8,
    pub json: Option<Seq<char>>,
    pub failure: Option<Seq<char>>,
}

/// What a start attempt does: only a Waiting slot transitions to Running
/// (with progress reset); any other status refuses to spawn a second run.
pub open spec fn run_step(a: ArchiverView) -> (ArchiverView, bool) {
    match a.status {
        Status::Waiting => (
            ArchiverView {
                status: Status::Running,
                progress: 0,
                json: a.json,
                failure: a.failure,
            },
            true,
        ),
        _ => (a, false),
    }
}

/// What one stage boundary does: a Running slot advances progress by 10,
/// capped at 100; any other status aborts the stage with no effect.
pub open spec fn advance_step(a: ArchiverView) -> (ArchiverView, bool) {
    if a.status == Status::Running {
        (
            ArchiverView {
                status: a.status,
                progress: if a.progress <= 90 {
                    (a.progress + 10) as u8
                } else {
                    100u8
                },
                json: a.json,
                failure: a.failure,
            },
            true,
        )
    } else {
        (a, false)
    }
}

/// What completion does: a Running slot stores the artifact and becomes
/// Complete; any other status writes nothing.
pub open spec fn finish_step(a: ArchiverView, data: Seq<char>) -> (ArchiverView, bool) {
    if a.status == Status::Running {
        (
            ArchiverView {
                status: Status::Complete,
                progress: a.progress,
                json: Some(data),
                failure: a.failure,
            },
            true,
        )
    } else {
        (a, false)
    }
}

/// What a task failure does: a Running slot records the reason and becomes
/// Failed; any other status records nothing.
pub open spec fn fail_step(a: ArchiverView, reason: Seq<char>) -> (ArchiverView, bool) {
    if a.status == Status::Running {
        (
            ArchiverView {
                status: Status::Failed,
                progress: a.progress,
                json: a.json,
                failure: Some(reason),
            },
            true,
        )
    } else {
        (a, false)
    }
}

/// What a reset does: the slot returns to Waiting unconditionally; a
/// previously produced artifact is deliberately not cleared.
pub open spec fn reset_step(a: ArchiverView) -> ArchiverView {
    ArchiverView { status: Status::Waiting, progress: a.progress, json: a.json, failure: a.failure }
}

/// Starting twice spawns at most one run: a successful start leaves the
/// slot Running, where a second start attempt is a refused no-op.
pub proof fn lemma_run_once(a: ArchiverView)
    ensures
        run_step(a).1 ==> !run_step(run_step(a).0).1,
        run_step(a).1 ==> run_step(run_step(a).0).0 == run_step(a).0,
{
}

/// A reset cancels the in-flight run cooperatively: the slot reads Waiting,
/// and from then on neither a stage step nor completion nor failure has any
/// effect, so the aborted run never writes an artifact.
pub proof fn lemma_reset_cancels(a: ArchiverView, data: Seq<char>, reason: Seq<char>)
    ensures
        reset_step(a).status == Status::Waiting,
        reset_step(a).json == a.json,
        !advance_step(reset_step(a)).1 && advance_step(reset_step(a)).0 == reset_step(a),
        !finish_step(reset_step(a), data).1 && finish_step(reset_step(a), data).0 == reset_step(a),
        !fail_step(reset_step(a), reason).1 && fail_step(reset_step(a), reason).0 == reset_step(a),
{
}

/// Progress is monotone within a run and never exceeds 100.
pub proof fn lemma_progress_monotone(a: ArchiverView)
    requires
        a.progress <= 100,
    ensures
        advance_step(a).0.progress >= a.progress,
        advance_step(a).0.progress <= 100,
{
}

/// A run started on a Waiting slot reaches 100 in exactly ten stage steps,
/// each of which finds the slot Running when nothing intervenes.
pub proof fn lemma_ten_stages_reach_full(a: ArchiverView)
    requires
        a.status == Status::Waiting,
    ensures
        ten_stages(run_step(a).0).progress == 100,
        ten_stages(run_step(a).0).status == Status::Running,
{
}

/// Ten consecutive stage steps.
pub open spec fn ten_stages(a: ArchiverView) -> ArchiverView {
    let a1 = advance_step(a).0;
    let a2 = advance_step(a1).0;
    let a3 = advance_step(a2).0;
    let a4 = advance_step(a3).0;
    let a5 = advance_step(a4).0;
    let a6 = advance_step(a5).0;
    let a7 = advance_step(a6).0;
    let a8 = advance_step(a7).0;
    let a9 = advance_step(a8).0;
    advance_step(a9).0
}

/// The export job slot. Fields mirror the independently readable pieces of
/// state; no reader needs a lock.
pub struct Archiver {
    status: Status,
    progress_percentage: u8,
    json_data: Option<String>,
    failure: Option<String>,
}

impl View for Archiver {
    type V = ArchiverView;

    closed spec fn view(&self) -> ArchiverView {
        ArchiverView {
            status: self.status,
            progress: self.progress_percentage,
            json: self.json_data.deep_view(),
            failure: self.failure.deep_view(),
        }
    }
}

impl Archiver {
    /// Progress is an advisory percentage: it never exceeds 100, at any
    /// program point.
    #[verifier::type_invariant]
    spec fn progress_bounded(self) -> bool {
        self.progress_percentage <= 100
    }

    /// A fresh slot: Waiting, no progress, no artifact, no failure.
    pub fn new() -> (a: Self)
        ensures
            a@.status == Status::Waiting,
            a@.progress == 0,
            a@.json is None,
            a@.failure is None,
    {
        Archiver {
            status: Status::Waiting,
            progress_percentage: 0,
            json_data: None,
            failure: None,
        }
    }

    /// Attempts to start a run. Returns whether the caller now owns a fresh
    /// run and must drive it; a duplicate trigger is refused.
    pub fn run(&mut self) -> (spawned: bool)
        ensures
            final(self)@ == run_step(old(self)@).0,
            spawned == run_step(old(self)@).1,
    {
        proof {
            use_type_invariant(&*self);
        }
        match self.status {
            Status::Waiting => {
                self.status = Status::Running;
                self.progress_percentage = 0;
                true
            },
            _ => false,
        }
    }

    /// One stage boundary of the running task: rechecks the status, and
    /// only a still-Running task advances. Returns whether to continue.
    pub fn advance_stage(&mut self) -> (proceed: bool)
        ensures
            final(self)@ == advance_step(old(self)@).0,
            proceed == advance_step(old(self)@).1,
    {
        proof {
            use_type_invariant(&*self);
        }
        match self.status {
            Status::Running => {
                if self.progress_percentage <= 90 {
                    self.progress_percentage = self.progress_percentage + 10;
                } else {
                    self.progress_percentage = 100;
                }
                true
            },
            _ => false,
        }
    }

    /// Completion of the running task: stores the artifact wholesale and
    /// becomes Complete. A task cancelled meanwhile writes nothing.
    pub fn finish(&mut self, data: String) -> (done: bool)
        ensures
            final(self)@ == finish_step(old(self)@, data@).0,
            done == finish_step(old(self)@, data@).1,
    {
        proof {
            use_type_invariant(&*self);
        }
        match self.status {
            Status::Running => {
                self.json_data = Some(data);
                self.status = Status::Complete;
                true
            },
            _ => false,
        }
    }

    /// Completion from a snapshot of the record set: the artifact the run
    /// stores is exactly the JSON serialization of the snapshot.
    pub fn complete_with(&mut self, contacts: &Vec<Contact>) -> (done: bool)
        ensures
            final(self)@ == finish_step(old(self)@, json_of_contacts(contacts.deep_view())).0,
            done == finish_step(old(self)@, json_of_contacts(contacts.deep_view())).1,
    {
        let data = encode_contacts_json(contacts);
        self.finish(data)
    }

    /// Failure of the running task: records the reason and becomes Failed,
    /// observable the same way Complete is.
    pub fn fail(&mut self, reason: String) -> (noted: bool)
        ensures
            final(self)@ == fail_step(old(self)@, reason@).0,
            noted == fail_step(old(self)@, reason@).1,
    {
        proof {
            use_type_invariant(&*self);
        }
        match self.status {
            Status::Running => {
                self.failure = Some(reason);
                self.status = Status::Failed;
                true
            },
            _ => false,
        }
    }

    /// Signals cancellation: the slot reads Waiting at once; the running
    /// task notices at its next stage boundary. A stale artifact stays
    /// until the next completed run replaces it.
    pub fn reset(&mut self)
        ensures
            final(self)@ == reset_step(old(self)@),
    {
        proof {
            use_type_invariant(&*self);
        }
        self.status = Status::Waiting;
    }

    /// Non-blocking read of the status.
    pub fn status(&self) -> (s: Status)
        ensures
            s == self@.status,
    {
        self.status
    }

    /// Non-blocking read of the progress percentage, an advisory value in
    /// 0..=100.
    pub fn progress_percent(&self) -> (p: u8)
        ensures
            p == self@.progress,
            p <= 100,
    {
        proof {
            use_type_invariant(&*self);
        }
        self.progress_percentage
    }

    /// Non-blocking read of the artifact of the last completed run, if any.
    pub fn json_data(&self) -> (r: Option<String>)
        ensures
            r.deep_view() == self@.json,
    {
        match &self.json_data {
            Some(s) => Some(s.clone()),
            None => None,
        }
    }

    /// Non-blocking read of the reason of the last failed run, if any.
    pub fn failure_reason(&self) -> (r: Option<String>)
        ensures
            r.deep_view() == self@.failure,
    {
        match &self.failure {
            Some(s) => Some(s.clone()),
            None => None,
        }
    }
}

} // verus!
