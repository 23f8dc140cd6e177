use vstd::prelude::*;

use crate::error::ShellError;
use crate::structures::{Command, Pipe, PipeLine};

verus! {

/// A pipe as the system hands it out: (read end, write end).
pub type PipeFds = (i32, i32);

/// The descriptor stage `k` reads from.
pub open spec fn stage_in(k: int, stdin: i32, pipes: Seq<PipeFds>) -> i32 {
    if k == 0 {
        stdin
    } else {
        pipes[k - 1].0
    }
}

/// The descriptor stage `k` of `n` writes to.
pub open spec fn stage_out(k: int, n: int, stdout: i32, pipes: Seq<PipeFds>) -> i32 {
    if k == n - 1 {
        stdout
    } else {
        pipes[k].1
    }
}

/// The pipe descriptors opened just before stage `k` is launched.
pub open spec fn opened_at(k: int, n: int, pipes: Seq<PipeFds>) -> Set<i32> {
    if k < n - 1 {
        set![pipes[k].0, pipes[k].1]
    } else {
        Set::empty()
    }
}

/// What the process that runs stage `k` must close: the read end of the
/// pipe it writes into, which belongs to the next stage.
pub open spec fn stage_close(k: int, n: int, pipes: Seq<PipeFds>) -> Set<i32> {
    if k < n - 1 {
        set![pipes[k].0]
    } else {
        Set::empty()
    }
}

/// What the interpreter closes once stage `k` is launched: the write end the
/// stage took and the read end it inherited.
pub open spec fn parent_release(k: int, n: int, pipes: Seq<PipeFds>) -> Set<i32> {
    (if k < n - 1 {
        set![pipes[k].1]
    } else {
        Set::<i32>::empty()
    }).union(
        if k > 0 {
            set![pipes[k - 1].0]
        } else {
            Set::<i32>::empty()
        },
    )
}

/// The pipe descriptors the interpreter still holds after launching the
/// first `k` stages and closing what each launch released.
pub open spec fn held_after(k: nat, n: int, pipes: Seq<PipeFds>) -> Set<i32>
    decreases k,
{
    if k == 0 {
        Set::empty()
    } else {
        held_after((k - 1) as nat, n, pipes).union(opened_at(k - 1, n, pipes)).difference(
            parent_release(k - 1, n, pipes),
        )
    }
}

/// Each pipe's ends differ from each other, from the pipeline's own streams
/// and from the read end still held when it was created: the system never
/// hands out a descriptor that is open.
pub open spec fn pipes_fresh(pipes: Seq<PipeFds>, stdin: i32, stdout: i32) -> bool {
    forall|k: int|
        0 <= k < pipes.len() ==> {
            &&& #[trigger] pipes[k].0 != pipes[k].1
            &&& pipes[k].0 != stdin && pipes[k].0 != stdout
            &&& pipes[k].1 != stdin && pipes[k].1 != stdout
            &&& k > 0 ==> pipes[k].0 != pipes[k - 1].0 && pipes[k].1 != pipes[k - 1].0
        }
}

/// The pipes created for the first `k` stages of `n`.
pub open spec fn pipes_for(k: int, n: int) -> int {
    if k < n - 1 {
        k
    } else {
        n - 1
    }
}

proof fn lemma_held_shape(k: nat, n: int, pipes: Seq<PipeFds>, stdin: i32, stdout: i32)
    requires
        1 <= n,
        k <= n,
        pipes.len() >= pipes_for(k as int, n),
        pipes_fresh(pipes, stdin, stdout),
    ensures
        held_after(k, n, pipes) == (if 0 < k < n {
            set![pipes[k - 1].0]
        } else {
            Set::<i32>::empty()
        }),
    decreases k,
{
    if k > 0 {
        let j = (k - 1) as int;
        lemma_held_shape((k - 1) as nat, n, pipes, stdin, stdout);
        if j < n - 1 {
            assert(pipes[j].0 != pipes[j].1);
        }
        assert(held_after(k, n, pipes) =~= (if 0 < k < n {
            set![pipes[k - 1].0]
        } else {
            Set::<i32>::empty()
        }));
    }
}

/// Once all `n` stages are launched, the interpreter holds none of the
/// pipeline's pipe descriptors: every one it opened it has also closed.
pub proof fn lemma_no_pipe_survives(n: int, pipes: Seq<PipeFds>, stdin: i32, stdout: i32)
    requires
        1 <= n,
        pipes.len() == n - 1,
        pipes_fresh(pipes, stdin, stdout),
    ensures
        held_after(n as nat, n, pipes) == Set::<i32>::empty(),
{
    lemma_held_shape(n as nat, n, pipes, stdin, stdout);
}

/// The close-list of stage `k` is exactly the set of pipe descriptors open
/// in the interpreter when the stage is launched, less the two the stage
/// itself uses.
pub proof fn lemma_close_list_exact(k: int, n: int, pipes: Seq<PipeFds>, stdin: i32, stdout: i32)
    requires
        0 <= k < n,
        pipes.len() == n - 1,
        pipes_fresh(pipes, stdin, stdout),
    ensures
        stage_close(k, n, pipes) == held_after(k as nat, n, pipes).union(
            opened_at(k, n, pipes),
        ).difference(set![stage_in(k, stdin, pipes), stage_out(k, n, stdout, pipes)]),
{
    lemma_held_shape(k as nat, n, pipes, stdin, stdout);
    if k < n - 1 {
        assert(pipes[k].0 != pipes[k].1);
    }
    assert(stage_close(k, n, pipes) =~= held_after(k as nat, n, pipes).union(
        opened_at(k, n, pipes),
    ).difference(set![stage_in(k, stdin, pipes), stage_out(k, n, stdout, pipes)]));
}

proof fn lemma_short_to_set(s: Seq<i32>)
    requires
        s.len() <= 2,
    ensures
        s.len() == 0 ==> s.to_set() == Set::<i32>::empty(),
        s.len() == 1 ==> s.to_set() == set![s[0]],
        s.len() == 2 ==> s.to_set() == set![s[0], s[1]],
{
    if s.len() == 0 {
        assert(s.to_set() =~= Set::<i32>::empty());
    } else if s.len() == 1 {
        assert(s.contains(s[0]));
        assert(s.to_set() =~= set![s[0]]);
    } else {
        assert(s.contains(s[0]));
        assert(s.contains(s[1]));
        assert(s.to_set() =~= set![s[0], s[1]]);
    }
}

/// How one stage is wired.
pub struct StageWiring {
    /// The stage's standard input.
    pub stdin: i32,
    /// The stage's standard output.
    pub stdout: i32,
    /// What the process running the stage closes before it runs.
    pub to_close: Vec<i32>,
    /// What the interpreter closes once the stage is launched.
    pub release: Vec<i32>,
}

/// Wires the stages of one pipeline, one at a time, to the pipes created
/// between them.
pub struct PipelineBuilder {
    stages: usize,
    next: usize,
    stdin: i32,
    stdout: i32,
    prev_read: Option<i32>,
    pipes: Ghost<Seq<PipeFds>>,
}

impl PipelineBuilder {
    pub closed spec fn stage_count(&self) -> int {
        self.stages as int
    }

    /// How many stages have been launched.
    pub closed spec fn launched(&self) -> int {
        self.next as int
    }

    pub closed spec fn input(&self) -> i32 {
        self.stdin
    }

    pub closed spec fn output(&self) -> i32 {
        self.stdout
    }

    /// The pipes created so far, in order.
    pub closed spec fn pipes(&self) -> Seq<PipeFds> {
        self.pipes@
    }

    /// The pipe descriptors the interpreter holds right now.
    pub closed spec fn held(&self) -> Set<i32> {
        match self.prev_read {
            Some(fd) => set![fd],
            None => Set::empty(),
        }
    }

    pub closed spec fn wf(&self) -> bool {
        &&& 1 <= self.stages
        &&& self.next <= self.stages
        &&& self.pipes@.len() == pipes_for(self.next as int, self.stages as int)
        &&& pipes_fresh(self.pipes@, self.stdin, self.stdout)
        &&& self.prev_read == if 0 < self.next < self.stages {
            Some(self.pipes@[self.next - 1].0)
        } else {
            None
        }
    }

    /// A builder for `stages` stages that read from `stdin` at the start
    /// and write to `stdout` at the end.
    pub fn new(stages: usize, stdin: i32, stdout: i32) -> (r: PipelineBuilder)
        requires
            stages >= 1,
        ensures
            r.wf(),
            r.stage_count() == stages,
            r.launched() == 0,
            r.input() == stdin,
            r.output() == stdout,
            r.pipes() == Seq::<PipeFds>::empty(),
            r.held() == Set::<i32>::empty(),
    {
        PipelineBuilder { stages, next: 0, stdin, stdout, prev_read: None, pipes: Ghost(Seq::empty()) }
    }

    /// Whether the next stage writes into a new pipe.
    pub fn needs_pipe(&self) -> (r: bool)
        requires
            self.wf(),
        ensures
            r == (self.launched() + 1 < self.stage_count()),
    {
        self.next < self.stages - 1
    }

    /// Whether every stage has been launched.
    pub fn is_done(&self) -> (r: bool)
        requires
            self.wf(),
        ensures
            r == (self.launched() == self.stage_count()),
    {
        self.next == self.stages
    }

    /// The read end the next stage inherits, which a new pipe may not reuse.
    pub fn pending_read(&self) -> (r: Option<i32>)
        requires
            self.wf(),
        ensures
            r matches Some(fd) ==> self.held() == set![fd],
            r is None ==> self.held() == Set::<i32>::empty(),
    {
        self.prev_read
    }

    /// Wires the next stage. `pipe` is the pipe created for it when it is
    /// not the last stage.
    pub fn launch(&mut self, pipe: Option<PipeFds>) -> (w: StageWiring)
        requires
            old(self).wf(),
            old(self).launched() < old(self).stage_count(),
            pipe is Some == (old(self).launched() + 1 < old(self).stage_count()),
            pipe matches Some(p) ==> {
                &&& p.0 != p.1
                &&& p.0 != old(self).input() && p.0 != old(self).output()
                &&& p.1 != old(self).input() && p.1 != old(self).output()
                &&& !old(self).held().contains(p.0) && !old(self).held().contains(p.1)
            },
        ensures
            final(self).wf(),
            final(self).stage_count() == old(self).stage_count(),
            final(self).input() == old(self).input(),
            final(self).output() == old(self).output(),
            final(self).launched() == old(self).launched() + 1,
            final(self).pipes() == match pipe {
                Some(p) => old(self).pipes().push(p),
                None => old(self).pipes(),
            },
            w.stdin == stage_in(old(self).launched(), old(self).input(), final(self).pipes()),
            w.stdout == stage_out(
                old(self).launched(),
                old(self).stage_count(),
                old(self).output(),
                final(self).pipes(),
            ),
            w.to_close@.to_set() == stage_close(
                old(self).launched(),
                old(self).stage_count(),
                final(self).pipes(),
            ),
            w.release@.to_set() == parent_release(
                old(self).launched(),
                old(self).stage_count(),
                final(self).pipes(),
            ),
            final(self).held() == held_after(
                final(self).launched() as nat,
                final(self).stage_count(),
                final(self).pipes(),
            ),
    {
        let k = self.next;
        let ghost old_pipes = self.pipes@;
        let stdin = match self.prev_read {
            Some(fd) => fd,
            None => self.stdin,
        };
        let mut to_close: Vec<i32> = Vec::new();
        let mut release: Vec<i32> = Vec::new();
        let stdout = match pipe {
            Some(p) => {
                to_close.push(p.0);
                release.push(p.1);
                self.pipes = Ghost(self.pipes@.push(p));
                p.1
            },
            None => self.stdout,
        };
        if let Some(fd) = self.prev_read {
            release.push(fd);
        }
        self.prev_read = match pipe {
            Some(p) => Some(p.0),
            None => None,
        };
        self.next = k + 1;
        proof {
            let ps = self.pipes@;
            let n = self.stages as int;
            assert forall|j: int| 0 <= j < ps.len() implies #[trigger] ps[j].0 != ps[j].1 && ps[j].0
                != self.stdin && ps[j].0 != self.stdout && ps[j].1 != self.stdin && ps[j].1
                != self.stdout && (j > 0 ==> ps[j].0 != ps[j - 1].0 && ps[j].1 != ps[j - 1].0) by {
                if j < old_pipes.len() {
                    assert(ps[j] == old_pipes[j]);
                    if j > 0 {
                        assert(ps[j - 1] == old_pipes[j - 1]);
                    }
                }
            }
            lemma_short_to_set(to_close@);
            lemma_short_to_set(release@);
            assert(to_close@.to_set() =~= stage_close(k as int, n, ps));
            assert(release@.to_set() =~= parent_release(k as int, n, ps));
            lemma_held_shape((k + 1) as nat, n, ps, self.stdin, self.stdout);
            assert(self.held() =~= held_after((k + 1) as nat, n, ps));
        }
        StageWiring { stdin, stdout, to_close, release }
    }
}

pub open spec fn command_of(p: &Pipe) -> &Command {
    match p {
        Pipe::Stdout(c) => c,
        Pipe::Both(c) => c,
        Pipe::PipeLineTerm(c) => c,
    }
}

/// A pipeline the engine runs: at least one stage, the last one terminal and
/// every other one joining only its standard output to the next.
pub open spec fn runnable(stages: Seq<Pipe>) -> bool {
    &&& stages.len() > 0
    &&& stages.last() is PipeLineTerm
    &&& forall|i: int| 0 <= i < stages.len() - 1 ==> #[trigger] stages[i] is Stdout
}

/// Whether some stage asks to join standard error into the pipe.
pub open spec fn joins_stderr(stages: Seq<Pipe>) -> bool {
    exists|i: int| 0 <= i < stages.len() && #[trigger] stages[i] is Both
}

impl PipeLine {
    /// The commands of the stages, first stage first, if the pipeline is
    /// runnable. Joining standard error into a pipe is not supported.
    pub fn commands(&self) -> (r: Result<Vec<&Command>, ShellError>)
        ensures
            runnable(self.0@) ==> (r matches Ok(v) && v@.len() == self.0@.len() && forall|i: int|
                0 <= i < v@.len() ==> *v@[i] == *command_of(&self.0@[i])),
            !runnable(self.0@) && joins_stderr(self.0@) ==> r matches Err(ShellError::Unsupported(_)),
            !runnable(self.0@) && !joins_stderr(self.0@) ==> r matches Err(
                ShellError::MalformedPipeline,
            ),
    {
        let n = self.0.len();
        let mut out: Vec<&Command> = Vec::new();
        let mut shaped = n > 0;
        let mut i: usize = 0;
        while i < n
            invariant
                n == self.0@.len(),
                i <= n,
                out@.len() == i,
                forall|j: int| 0 <= j < i ==> *out@[j] == *command_of(&self.0@[j]),
                shaped == (n > 0 && forall|j: int|
                    0 <= j < i ==> if j == n - 1 {
                        self.0@[j] is PipeLineTerm
                    } else {
                        self.0@[j] is Stdout
                    }),
                forall|j: int| 0 <= j < i ==> !(#[trigger] self.0@[j] is Both),
            decreases n - i,
        {
            match &self.0[i] {
                Pipe::Stdout(c) => {
                    if i == n - 1 {
                        shaped = false;
                    }
                    out.push(c);
                },
                Pipe::PipeLineTerm(c) => {
                    if i != n - 1 {
                        shaped = false;
                    }
                    out.push(c);
                },
                Pipe::Both(_) => {
                    assert(joins_stderr(self.0@));
                    assert(!(self.0@[i as int] is Stdout));
                    if i < n - 1 {
                        assert(!runnable(self.0@));
                    }
                    return Err(ShellError::Unsupported("joining standard error into a pipe".to_owned()));
                },
            }
            i = i + 1;
        }
        if shaped {
            assert(runnable(self.0@)) by {
                assert forall|j: int| 0 <= j < n - 1 implies #[trigger] self.0@[j] is Stdout by {
                    assert(j != n - 1);
                }
                assert(self.0@.last() == self.0@[n - 1]);
            }
            Ok(out)
        } else {
            proof {
                assert(!joins_stderr(self.0@));
                if runnable(self.0@) {
                    assert forall|j: int| 0 <= j < n implies if j == n - 1 {
                        self.0@[j] is PipeLineTerm
                    } else {
                        self.0@[j] is Stdout
                    } by {
                        if j == n - 1 {
                            assert(self.0@.last() == self.0@[n - 1]);
                        }
                    }
                }
            }
            Err(ShellError::MalformedPipeline)
        }
    }
}

} // verus!
