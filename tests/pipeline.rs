use msh::error::ShellError;
use msh::pipeline::PipelineBuilder;
use msh::structures::{Command, Executable, Pipe, PipeLine, Str};

fn cmd(name: &str) -> Command {
    Command {
        exe: Executable::File { command_name: Str::Raw(name.to_string()), arguments: vec![] },
        redirect_in: None,
        redirect_out: None,
        redirect_err: None,
    }
}

#[test]
fn single_stage_uses_given_streams() {
    let mut b = PipelineBuilder::new(1, 0, 1);
    assert!(!b.needs_pipe());
    let w = b.launch(None);
    assert_eq!((w.stdin, w.stdout), (0, 1));
    assert!(w.to_close.is_empty());
    assert!(w.release.is_empty());
    assert!(b.is_done());
    assert_eq!(b.pending_read(), None);
}

#[test]
fn two_stages_share_one_pipe() {
    // printf 'x\ny\n' | builtin-echo: the first stage writes into the pipe,
    // the second reads from it and writes to the pipeline's stdout.
    let mut b = PipelineBuilder::new(2, 0, 1);
    assert!(b.needs_pipe());
    let w0 = b.launch(Some((10, 11)));
    assert_eq!((w0.stdin, w0.stdout), (0, 11));
    assert_eq!(w0.to_close, vec![10]);
    assert_eq!(w0.release, vec![11]);
    assert_eq!(b.pending_read(), Some(10));
    assert!(!b.needs_pipe());
    let w1 = b.launch(None);
    assert_eq!((w1.stdin, w1.stdout), (10, 1));
    assert!(w1.to_close.is_empty());
    assert_eq!(w1.release, vec![10]);
    assert!(b.is_done());
}

#[test]
fn every_pipe_descriptor_is_released_once() {
    let pipes = [(3, 4), (5, 6), (4, 7)];
    let n = pipes.len() + 1;
    let mut b = PipelineBuilder::new(n, 0, 1);
    let mut opened = Vec::new();
    let mut released = Vec::new();
    let mut k = 0;
    while !b.is_done() {
        let pipe = if b.needs_pipe() {
            let p = pipes[k];
            k += 1;
            opened.push(p.0);
            opened.push(p.1);
            Some(p)
        } else {
            None
        };
        let w = b.launch(pipe);
        released.extend(w.release);
    }
    assert_eq!(b.pending_read(), None);
    opened.sort();
    released.sort();
    assert_eq!(opened, released);
}

#[test]
fn commands_of_runnable_pipeline() {
    let p = PipeLine(vec![Pipe::Stdout(cmd("printf")), Pipe::PipeLineTerm(cmd("builtin-echo"))]);
    let cs = p.commands().ok().unwrap();
    assert_eq!(cs.len(), 2);
}

#[test]
fn empty_pipeline_is_malformed() {
    let p = PipeLine(vec![]);
    assert!(matches!(p.commands(), Err(ShellError::MalformedPipeline)));
}

#[test]
fn unterminated_pipeline_is_malformed() {
    let p = PipeLine(vec![Pipe::Stdout(cmd("ls"))]);
    assert!(matches!(p.commands(), Err(ShellError::MalformedPipeline)));
    let q = PipeLine(vec![Pipe::PipeLineTerm(cmd("ls")), Pipe::PipeLineTerm(cmd("wc"))]);
    assert!(matches!(q.commands(), Err(ShellError::MalformedPipeline)));
}

#[test]
fn stderr_join_is_rejected() {
    let p = PipeLine(vec![Pipe::Both(cmd("make")), Pipe::PipeLineTerm(cmd("less"))]);
    assert!(matches!(p.commands(), Err(ShellError::Unsupported(_))));
}
