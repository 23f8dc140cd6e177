use msh::sequence::{pipeline_status, reaped_status, Link, Sequencer};
use msh::structures::{Command, Connector, Executable, Pipe, PipeLine, Str};

/// Runs a sequence whose pipelines would return `results`, and gives the
/// statuses of those that ran and the final status.
fn drive(links: &[Link], results: &[i32]) -> (Vec<usize>, i32) {
    let mut seq = Sequencer::new();
    let mut ran = Vec::new();
    for (i, link) in links.iter().enumerate() {
        let outcome = if seq.run_next {
            ran.push(i);
            Some(results[i])
        } else {
            None
        };
        seq.advance(*link, outcome);
    }
    (ran, seq.status)
}

fn cmd(name: &str) -> Command {
    Command {
        exe: Executable::File { command_name: Str::Raw(name.to_string()), arguments: vec![] },
        redirect_in: None,
        redirect_out: None,
        redirect_err: None,
    }
}

#[test]
fn continue_runs_next_whatever_the_status() {
    let (ran, status) = drive(&[Link::Always, Link::Always], &[1, 0]);
    assert_eq!(ran, vec![0, 1]);
    assert_eq!(status, 0);
    let (ran, status) = drive(&[Link::Always, Link::Always], &[0, 7]);
    assert_eq!(ran, vec![0, 1]);
    assert_eq!(status, 7);
}

#[test]
fn and_skips_after_failure() {
    let (ran, status) = drive(&[Link::IfSuccess, Link::Always], &[3, 0]);
    assert_eq!(ran, vec![0]);
    assert_eq!(status, 3);
}

#[test]
fn and_runs_after_success() {
    let (ran, status) = drive(&[Link::IfSuccess, Link::Always], &[0, 5]);
    assert_eq!(ran, vec![0, 1]);
    assert_eq!(status, 5);
}

#[test]
fn or_skips_after_success() {
    let (ran, status) = drive(&[Link::IfFailure, Link::Always], &[0, 9]);
    assert_eq!(ran, vec![0]);
    assert_eq!(status, 0);
}

#[test]
fn or_runs_after_failure() {
    let (ran, status) = drive(&[Link::IfFailure, Link::Always], &[2, 0]);
    assert_eq!(ran, vec![0, 1]);
    assert_eq!(status, 0);
}

#[test]
fn skipped_status_carries_through_chain() {
    // a && b || c with a failing: b skipped, c runs on a's failure.
    let (ran, status) = drive(&[Link::IfSuccess, Link::IfFailure, Link::Always], &[4, 0, 0]);
    assert_eq!(ran, vec![0, 2]);
    assert_eq!(status, 0);
}

#[test]
fn empty_sequence_is_success() {
    let (ran, status) = drive(&[], &[]);
    assert!(ran.is_empty());
    assert_eq!(status, 0);
}

#[test]
fn connector_links() {
    let p = || PipeLine(vec![Pipe::PipeLineTerm(cmd("true"))]);
    assert_eq!(Connector::Continue(p()).link(), Link::Always);
    assert_eq!(Connector::And(p()).link(), Link::IfSuccess);
    assert_eq!(Connector::Or(p()).link(), Link::IfFailure);
    assert_eq!(Connector::ListTerm(p()).link(), Link::Always);
    assert_eq!(Connector::And(p()).pipeline().0.len(), 1);
}

#[test]
fn reaping_keeps_last_exit_code() {
    assert_eq!(reaped_status(0, Some(3)), 3);
    assert_eq!(reaped_status(3, None), 3);
    assert_eq!(reaped_status(3, Some(0)), 0);
}

#[test]
fn builtin_in_last_stage_decides_pipeline_status() {
    assert_eq!(pipeline_status(Some(1), 0), 1);
    assert_eq!(pipeline_status(None, 4), 4);
}
