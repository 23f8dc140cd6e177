use vstd::prelude::*;

use crate::text::same_text;

verus! {

/// Status a command or a sequence ends with; 0 is success.
pub type ExitCode = i32;

/// The closed set of commands that run inside the interpreter itself.
#[derive(Clone, Copy, Debug, PartialEq, Eq, Structural)]
pub enum BuiltinKind {
    Echo,
    Type,
    Cd,
    Alias,
    Unalias,
    Exit,
    Export,
    Var,
    Unset,
    ReloadPath,
}

/// What a command name stands for.
#[derive(Debug)]
pub enum CommandType {
    /// A program at this filesystem path.
    External(String),
    /// A command run in the interpreter's own process.
    Builtin(BuiltinKind),
    /// Replacement text: a command word followed by leading arguments.
    Alias(String),
}

impl CommandType {
    /// A copy equal to `self`.
    pub fn duplicate(&self) -> (r: CommandType)
        ensures
            r == *self,
    {
        match self {
            CommandType::External(p) => CommandType::External(p.clone()),
            CommandType::Builtin(k) => CommandType::Builtin(*k),
            CommandType::Alias(t) => CommandType::Alias(t.clone()),
        }
    }
}

/// Interpreter state: the command table and the shell-local variables.
///
/// Each table is a list of entries; a name stands for the first entry that
/// carries it.
pub struct Shell {
    pub command_table: Vec<(String, CommandType)>,
    pub variables: Vec<(String, String)>,
}

/// Marker for a sequence that was asked to run in the background.
#[derive(Clone, Copy, Debug)]
pub struct BackgroundFlag;

/// A full statement sequence: one input line.
#[derive(Debug)]
pub struct List(pub Vec<Connector>, pub Option<BackgroundFlag>);

/// One pipeline and its relation to the pipeline that follows it.
#[derive(Debug)]
pub enum Connector {
    /// The next pipeline runs whatever this one returned.
    Continue(PipeLine),
    /// The next pipeline runs only if this one succeeded.
    And(PipeLine),
    /// The next pipeline runs only if this one failed.
    Or(PipeLine),
    /// The last pipeline of the sequence.
    ListTerm(PipeLine),
}

/// Commands connected by pipes, first stage first.
#[derive(Debug)]
pub struct PipeLine(pub Vec<Pipe>);

/// One stage of a pipeline and how its output joins the next stage.
#[derive(Debug)]
pub enum Pipe {
    /// Standard output feeds the next stage.
    Stdout(Command),
    /// Standard output and standard error feed the next stage.
    Both(Command),
    /// The last stage.
    PipeLineTerm(Command),
}

/// What a command runs.
#[derive(Debug)]
pub enum Executable {
    File { command_name: Str, arguments: Vec<Str> },
    SubShell(List),
}

/// One invocation with its optional redirections.
#[derive(Debug)]
pub struct Command {
    pub exe: Executable,
    pub redirect_in: Option<RedirectIn>,
    pub redirect_out: Option<RedirectOut>,
    pub redirect_err: Option<RedirectOut>,
}

/// A redirection of one of the three standard streams.
#[derive(Debug)]
pub enum Redirect {
    In(RedirectIn),
    Out(RedirectOut),
    Stderr(RedirectOut),
}

/// Where standard input comes from.
#[derive(Debug)]
pub enum RedirectIn {
    /// A file, read only.
    Normal(Str),
    /// Inline text up to the given terminator.
    Heredoc(String),
}

/// Where an output stream goes.
#[derive(Debug)]
pub enum RedirectOut {
    /// A file that must not exist yet.
    Normal(Str),
    /// A file created or truncated.
    Overwrite(Str),
    /// A file created or appended to.
    Append(Str),
}

/// A string computed when the command that holds it is dispatched.
#[derive(Debug)]
pub enum Str {
    Raw(String),
    Variable(String),
    SubShellResult(List),
    Quoted(Vec<Str>),
}

/// The entry that `name` stands for in `entries`: the first that carries it.
pub open spec fn entry_for<V>(entries: Seq<(String, V)>, name: Seq<char>) -> Option<V>
    decreases entries.len(),
{
    if entries.len() == 0 {
        None
    } else if entries[0].0@ == name {
        Some(entries[0].1)
    } else {
        entry_for(entries.drop_first(), name)
    }
}

proof fn lemma_entry_for_split<V>(entries: Seq<(String, V)>, name: Seq<char>, i: int)
    requires
        0 <= i <= entries.len(),
        forall|j: int| 0 <= j < i ==> entries[j].0@ != name,
    ensures
        entry_for(entries, name) == entry_for(entries.subrange(i, entries.len() as int), name),
    decreases i,
{
    if i > 0 {
        lemma_entry_for_split(entries.drop_first(), name, i - 1);
        assert(entries.drop_first().subrange(i - 1, entries.len() - 1) =~= entries.subrange(
            i,
            entries.len() as int,
        ));
    } else {
        assert(entries.subrange(0, entries.len() as int) =~= entries);
    }
}

pub(crate) proof fn lemma_entry_for_found<V>(entries: Seq<(String, V)>, name: Seq<char>, i: int)
    requires
        0 <= i < entries.len(),
        entries[i].0@ == name,
        forall|j: int| 0 <= j < i ==> entries[j].0@ != name,
    ensures
        entry_for(entries, name) == Some(entries[i].1),
{
    lemma_entry_for_split(entries, name, i);
    assert(entries.subrange(i, entries.len() as int)[0] == entries[i]);
}

pub(crate) proof fn lemma_entry_for_absent<V>(entries: Seq<(String, V)>, name: Seq<char>)
    requires
        forall|j: int| 0 <= j < entries.len() ==> entries[j].0@ != name,
    ensures
        entry_for(entries, name) == None::<V>,
{
    lemma_entry_for_split(entries, name, entries.len() as int);
}

/// Replacing the value of the entry at `i` changes what its own name stands
/// for and nothing else.
proof fn lemma_entry_for_update<V>(entries: Seq<(String, V)>, i: int, v: V, other: Seq<char>)
    requires
        0 <= i < entries.len(),
        forall|j: int| 0 <= j < i ==> entries[j].0@ != entries[i].0@,
    ensures
        entry_for(entries.update(i, (entries[i].0, v)), entries[i].0@) == Some(v),
        other != entries[i].0@ ==> entry_for(entries.update(i, (entries[i].0, v)), other)
            == entry_for(entries, other),
    decreases i,
{
    let e2 = entries.update(i, (entries[i].0, v));
    if i == 0 {
        assert(e2.drop_first() =~= entries.drop_first());
    } else {
        lemma_entry_for_update(entries.drop_first(), i - 1, v, other);
        assert(e2.drop_first() =~= entries.drop_first().update(i - 1, (entries[i].0, v)));
    }
}

proof fn lemma_entry_for_push<V>(entries: Seq<(String, V)>, key: String, v: V, other: Seq<char>)
    requires
        forall|j: int| 0 <= j < entries.len() ==> entries[j].0@ != key@,
    ensures
        entry_for(entries.push((key, v)), key@) == Some(v),
        other != key@ ==> entry_for(entries.push((key, v)), other) == entry_for(entries, other),
    decreases entries.len(),
{
    if entries.len() > 0 {
        lemma_entry_for_push(entries.drop_first(), key, v, other);
        assert(entries.push((key, v)).drop_first() =~= entries.drop_first().push((key, v)));
    } else {
        assert(entries.push((key, v)).drop_first() =~= entries);
    }
}

/// Index of the first entry that carries `name`, if any.
pub(crate) fn find_entry<V>(entries: &Vec<(String, V)>, name: &str) -> (r: Option<usize>)
    ensures
        match r {
            Some(i) => i < entries@.len() && entries@[i as int].0@ == name@ && forall|j: int|
                0 <= j < i ==> entries@[j].0@ != name@,
            None => forall|j: int| 0 <= j < entries@.len() ==> entries@[j].0@ != name@,
        },
{
    let mut i: usize = 0;
    while i < entries.len()
        invariant
            i <= entries@.len(),
            forall|j: int| 0 <= j < i ==> entries@[j].0@ != name@,
        decreases entries@.len() - i,
    {
        if same_text(entries[i].0.as_str(), name) {
            return Some(i);
        }
        i = i + 1;
    }
    None
}

/// Sets `name` to `v`: replaces the first entry that carries it, or adds one.
pub(crate) fn set_entry<V>(entries: &mut Vec<(String, V)>, name: &str, v: V)
    ensures
        entry_for(final(entries)@, name@) == Some(v),
        forall|o: Seq<char>|
            o != name@ ==> #[trigger] entry_for(final(entries)@, o) == entry_for(old(entries)@, o),
{
    match find_entry(entries, name) {
        Some(i) => {
            let key = entries[i].0.clone();
            proof {
                assert forall|o: Seq<char>| o != name@ implies entry_for(
                    entries@.update(i as int, (key, v)),
                    o,
                ) == entry_for(entries@, o) by {
                    lemma_entry_for_update(entries@, i as int, v, o);
                }
                lemma_entry_for_update(entries@, i as int, v, name@);
            }
            entries.set(i, (key, v));
        },
        None => {
            let key = name.to_owned();
            proof {
                assert forall|o: Seq<char>| o != name@ implies entry_for(
                    entries@.push((key, v)),
                    o,
                ) == entry_for(entries@, o) by {
                    lemma_entry_for_push(entries@, key, v, o);
                }
                lemma_entry_for_push(entries@, key, v, name@);
            }
            entries.push((key, v));
        },
    }
}

/// `entries` without those that carry `name`.
pub open spec fn without<V>(entries: Seq<(String, V)>, name: Seq<char>) -> Seq<(String, V)>
    decreases entries.len(),
{
    if entries.len() == 0 {
        entries
    } else {
        let rest = without(entries.drop_last(), name);
        if entries.last().0@ == name {
            rest
        } else {
            rest.push(entries.last())
        }
    }
}

pub(crate) proof fn lemma_entry_for_append<V>(entries: Seq<(String, V)>, x: (String, V), o: Seq<char>)
    ensures
        entry_for(entries.push(x), o) == match entry_for(entries, o) {
            Some(v) => Some(v),
            None => if x.0@ == o {
                Some(x.1)
            } else {
                None
            },
        },
    decreases entries.len(),
{
    if entries.len() > 0 {
        lemma_entry_for_append(entries.drop_first(), x, o);
        assert(entries.push(x).drop_first() =~= entries.drop_first().push(x));
    } else {
        assert(entries.push(x).drop_first() =~= entries);
    }
}

proof fn lemma_without<V>(entries: Seq<(String, V)>, name: Seq<char>, o: Seq<char>)
    ensures
        entry_for(without(entries, name), name) == None::<V>,
        o != name ==> entry_for(without(entries, name), o) == entry_for(entries, o),
    decreases entries.len(),
{
    if entries.len() > 0 {
        let init = entries.drop_last();
        lemma_without(init, name, o);
        assert(init.push(entries.last()) =~= entries);
        lemma_entry_for_append(init, entries.last(), o);
        lemma_entry_for_append(without(init, name), entries.last(), o);
        lemma_entry_for_append(without(init, name), entries.last(), name);
    }
}

proof fn lemma_without_concat<V>(a: Seq<(String, V)>, b: Seq<(String, V)>, name: Seq<char>)
    ensures
        without(a + b, name) == without(a, name) + without(b, name),
    decreases b.len(),
{
    if b.len() == 0 {
        assert(a + b =~= a);
        assert(without(a, name) + without(b, name) =~= without(a, name));
    } else {
        lemma_without_concat(a, b.drop_last(), name);
        assert((a + b).drop_last() =~= a + b.drop_last());
        assert((a + b).last() == b.last());
        let wa = without(a, name);
        let wb = without(b.drop_last(), name);
        assert((wa + wb).push(b.last()) =~= wa + wb.push(b.last()));
    }
}

/// Removes every entry that carries `name`; tells whether there was one.
pub(crate) fn remove_entries<V>(entries: &mut Vec<(String, V)>, name: &str) -> (r: bool)
    ensures
        entry_for(final(entries)@, name@) == None::<V>,
        forall|o: Seq<char>|
            o != name@ ==> #[trigger] entry_for(final(entries)@, o) == entry_for(old(entries)@, o),
        r == entry_for(old(entries)@, name@) is Some,
{
    let ghost before = entries@;
    let n = entries.len();
    let mut i: usize = n;
    let mut found = false;
    proof {
        assert(before.subrange(n as int, n as int) =~= Seq::<(String, V)>::empty());
        assert(before.subrange(0, n as int) + without(Seq::<(String, V)>::empty(), name@) =~= before);
    }
    while i > 0
        invariant
            n == before.len(),
            i <= n,
            entries@ == before.subrange(0, i as int) + without(before.subrange(i as int, n as int), name@),
            found == exists|j: int| i <= j < n && before[j].0@ == name@,
        decreases i,
    {
        let k = i - 1;
        let hit = same_text(entries[k].0.as_str(), name);
        proof {
            let e = before[k as int];
            assert(entries@[k as int] == e);
            assert(before.subrange(k as int, n as int) =~= seq![e] + before.subrange(i as int, n as int));
            lemma_without_concat(seq![e], before.subrange(i as int, n as int), name@);
            assert(seq![e].drop_last() =~= Seq::<(String, V)>::empty());
            assert(before.subrange(0, i as int) =~= before.subrange(0, k as int).push(e));
            assert(seq![e].last() == e);
            assert(without(Seq::<(String, V)>::empty(), name@) =~= Seq::<(String, V)>::empty());
            assert(Seq::<(String, V)>::empty().push(e) =~= seq![e]);
            assert(without(seq![e], name@) =~= if e.0@ == name@ {
                Seq::<(String, V)>::empty()
            } else {
                seq![e]
            });
        }
        let ghost w = without(before.subrange(i as int, n as int), name@);
        let ghost pre = before.subrange(0, k as int);
        assert(entries@ =~= pre + seq![before[k as int]] + w);
        if hit {
            entries.remove(k);
            found = true;
            proof {
                assert(without(before.subrange(k as int, n as int), name@) =~= w);
                assert(entries@ =~= before.subrange(0, k as int) + without(before.subrange(k as int, n as int), name@));
            }
        } else {
            proof {
                assert(without(before.subrange(k as int, n as int), name@) =~= seq![before[k as int]] + w);
                assert(entries@ =~= before.subrange(0, k as int) + without(before.subrange(k as int, n as int), name@));
            }
        }
        i = k;
    }
    proof {
        assert(before.subrange(0, n as int) =~= before);
        assert(before.subrange(0, 0) + without(before, name@) =~= without(before, name@));
        assert forall|o: Seq<char>| o != name@ implies #[trigger] entry_for(entries@, o) == entry_for(before, o) by {
            lemma_without(before, name@, o);
        }
        lemma_without(before, name@, name@);
        if found {
            let j = choose|j: int| 0 <= j < n && before[j].0@ == name@;
            lemma_entry_for_split(before, name@, 0);
            lemma_first_hit(before, name@, j);
        } else {
            lemma_entry_for_absent(before, name@);
        }
    }
    found
}

proof fn lemma_first_hit<V>(entries: Seq<(String, V)>, name: Seq<char>, j: int)
    requires
        0 <= j < entries.len(),
        entries[j].0@ == name,
    ensures
        entry_for(entries, name) is Some,
    decreases j,
{
    if entries[0].0@ != name {
        lemma_first_hit(entries.drop_first(), name, j - 1);
    }
}

} // verus!
