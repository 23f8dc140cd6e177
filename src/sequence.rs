use vstd::prelude::*;

use crate::structures::{Connector, ExitCode, PipeLine};

verus! {

/// When the pipeline after a connector runs.
#[derive(Clone, Copy, Debug, PartialEq, Eq, Structural)]
pub enum Link {
    /// Whatever the previous pipeline returned (`;` and the end of a list).
    Always,
    /// Only if the status so far is 0 (`&&`).
    IfSuccess,
    /// Only if the status so far is not 0 (`||`).
    IfFailure,
}

pub open spec fn link_of(c: &Connector) -> Link {
    match c {
        Connector::Continue(_) => Link::Always,
        Connector::And(_) => Link::IfSuccess,
        Connector::Or(_) => Link::IfFailure,
        Connector::ListTerm(_) => Link::Always,
    }
}

pub open spec fn pipeline_of(c: &Connector) -> &PipeLine {
    match c {
        Connector::Continue(p) => p,
        Connector::And(p) => p,
        Connector::Or(p) => p,
        Connector::ListTerm(p) => p,
    }
}

impl Connector {
    /// When the pipeline after this one runs.
    pub fn link(&self) -> (r: Link)
        ensures
            r == link_of(self),
    {
        match self {
            Connector::Continue(_) => Link::Always,
            Connector::And(_) => Link::IfSuccess,
            Connector::Or(_) => Link::IfFailure,
            Connector::ListTerm(_) => Link::Always,
        }
    }

    /// The pipeline this connector wraps.
    pub fn pipeline(&self) -> (r: &PipeLine)
        ensures
            r == pipeline_of(self),
    {
        match self {
            Connector::Continue(p) => p,
            Connector::And(p) => p,
            Connector::Or(p) => p,
            Connector::ListTerm(p) => p,
        }
    }
}

/// Whether `link` lets the next pipeline run when the status so far is `status`.
pub open spec fn allows(link: Link, status: i32) -> bool {
    match link {
        Link::Always => true,
        Link::IfSuccess => status == 0,
        Link::IfFailure => status != 0,
    }
}

/// One step of a sequence: the status so far and whether the current
/// pipeline runs, then what the pipeline returns if it does.
pub open spec fn step(state: (i32, bool), link: Link, result: i32) -> (i32, bool) {
    let status = if state.1 {
        result
    } else {
        state.0
    };
    (status, allows(link, status))
}

/// The state after the first `k` pipelines of a sequence whose connectors
/// have `links`, where pipeline `i` returns `results[i]` when it runs.
pub open spec fn state_after(links: Seq<Link>, results: Seq<i32>, k: nat) -> (i32, bool)
    decreases k,
{
    if k == 0 {
        (0, true)
    } else {
        step(state_after(links, results, (k - 1) as nat), links[k - 1], results[k - 1])
    }
}

/// Whether pipeline `k` runs.
pub open spec fn runs(links: Seq<Link>, results: Seq<i32>, k: int) -> bool {
    state_after(links, results, k as nat).1
}

/// The status of the whole sequence.
pub open spec fn sequence_status(links: Seq<Link>, results: Seq<i32>) -> i32 {
    state_after(links, results, links.len()).0
}

/// Walks a sequence of pipelines, deciding which run and folding their
/// statuses into the sequence's status.
pub struct Sequencer {
    pub status: ExitCode,
    pub run_next: bool,
}

impl Sequencer {
    /// The state before the first pipeline: status 0, and it runs.
    pub fn new() -> (r: Sequencer)
        ensures
            (r.status, r.run_next) == state_after(Seq::empty(), Seq::empty(), 0),
    {
        Sequencer { status: 0, run_next: true }
    }

    /// Moves past one pipeline. `outcome` is its status if it ran; it runs
    /// exactly when `run_next` was set.
    pub fn advance(&mut self, link: Link, outcome: Option<ExitCode>)
        requires
            outcome is Some == old(self).run_next,
        ensures
            (final(self).status, final(self).run_next) == step(
                (old(self).status, old(self).run_next),
                link,
                match outcome {
                    Some(s) => s,
                    None => 0,
                },
            ),
    {
        if let Some(s) = outcome {
            self.status = s;
        }
        self.run_next = match link {
            Link::Always => true,
            Link::IfSuccess => self.status == 0,
            Link::IfFailure => self.status != 0,
        };
    }
}

/// The status after reaping one more child: the exit code of a child that
/// exited replaces it; a child that ended otherwise leaves it.
pub fn reaped_status(current: ExitCode, exited: Option<ExitCode>) -> (r: ExitCode)
    ensures
        r == match exited {
            Some(code) => code,
            None => current,
        },
{
    match exited {
        Some(code) => code,
        None => current,
    }
}

/// The status of a launched pipeline: a builtin in the last stage decides
/// it; otherwise the reaped children do.
pub fn pipeline_status(last_builtin: Option<ExitCode>, reaped: ExitCode) -> (r: ExitCode)
    ensures
        r == match last_builtin {
            Some(code) => code,
            None => reaped,
        },
{
    match last_builtin {
        Some(code) => code,
        None => reaped,
    }
}

/// After `a ; b`, `b` runs whatever `a` returned.
pub proof fn lemma_continue_always_runs(links: Seq<Link>, results: Seq<i32>, k: int)
    requires
        0 < k < links.len(),
        links.len() == results.len(),
        links[k - 1] == Link::Always,
    ensures
        runs(links, results, k),
{
}

/// When the last pipeline runs, its status is the sequence's status.
pub proof fn lemma_last_run_decides(links: Seq<Link>, results: Seq<i32>)
    requires
        links.len() > 0,
        links.len() == results.len(),
        runs(links, results, links.len() - 1),
    ensures
        sequence_status(links, results) == results[links.len() - 1],
{
}

/// In `a && b`, when `a` runs and fails, `b` does not run and the status
/// stays `a`'s.
pub proof fn lemma_and_short_circuits(links: Seq<Link>, results: Seq<i32>, k: int)
    requires
        0 < k < links.len(),
        links.len() == results.len(),
        links[k - 1] == Link::IfSuccess,
        runs(links, results, k - 1),
        results[k - 1] != 0,
    ensures
        !runs(links, results, k),
        state_after(links, results, (k + 1) as nat).0 == results[k - 1],
{
    assert(state_after(links, results, k as nat).0 == results[k - 1]);
}

/// In `a || b`, when `a` runs and succeeds, `b` does not run and the status
/// stays `a`'s.
pub proof fn lemma_or_short_circuits(links: Seq<Link>, results: Seq<i32>, k: int)
    requires
        0 < k < links.len(),
        links.len() == results.len(),
        links[k - 1] == Link::IfFailure,
        runs(links, results, k - 1),
        results[k - 1] == 0,
    ensures
        !runs(links, results, k),
        state_after(links, results, (k + 1) as nat).0 == 0,
{
    assert(state_after(links, results, k as nat).0 == 0);
}

} // verus!
