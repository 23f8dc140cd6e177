use vstd::prelude::*;

use crate::structures::{
    Command, Connector, Executable, List, Pipe, PipeLine, RedirectIn, RedirectOut, Str,
};

verus! {

broadcast use vstd::std_specs::vec::group_vec_axioms;

/// Indentation step of the tree printers.
pub const INDENT_WIDTH: usize = 2;

/// `n` spaces.
pub open spec fn spaces(n: nat) -> Seq<char> {
    Seq::new(n, |i: int| ' ')
}

/// The indentation of a nested item; it stops growing at the largest `usize`.
pub open spec fn deeper(i: usize) -> usize {
    if i <= usize::MAX - INDENT_WIDTH {
        (i + INDENT_WIDTH) as usize
    } else {
        usize::MAX
    }
}

/// `inner` wrapped as `label(` ... `)` at indentation `ind`.
pub open spec fn wrapped(ind: usize, label: Seq<char>, inner: Seq<char>) -> Seq<char> {
    spaces(ind as nat) + label + "(\n"@ + inner + ",\n"@ + spaces(ind as nat) + ")"@
}

/// The printed form of a list.
pub open spec fn list_text(l: &List, ind: usize) -> Seq<char>
    decreases l,
{
    spaces(ind as nat) + "List[\n"@ + connectors_text(l.0@, deeper(ind)) + "\n"@ + spaces(
        ind as nat,
    ) + "]"@
}

pub open spec fn connectors_text(cs: Seq<Connector>, ind: usize) -> Seq<char>
    decreases cs,
{
    if cs.len() == 0 {
        Seq::empty()
    } else {
        connectors_text(cs.drop_last(), ind) + connector_text(&cs.last(), ind) + ",\n"@
    }
}

/// The printed form of a connector.
pub open spec fn connector_text(c: &Connector, ind: usize) -> Seq<char>
    decreases c,
{
    match c {
        Connector::Continue(p) => wrapped(ind, "Continue"@, pipeline_text(p, deeper(ind))),
        Connector::And(p) => wrapped(ind, "And"@, pipeline_text(p, deeper(ind))),
        Connector::Or(p) => wrapped(ind, "Or"@, pipeline_text(p, deeper(ind))),
        Connector::ListTerm(p) => wrapped(ind, "ListTerm"@, pipeline_text(p, deeper(ind))),
    }
}

/// The printed form of a pipeline.
pub open spec fn pipeline_text(p: &PipeLine, ind: usize) -> Seq<char>
    decreases p,
{
    spaces(ind as nat) + "PipeLine[\n"@ + pipes_text(p.0@, deeper(ind)) + "\n"@ + spaces(
        ind as nat,
    ) + "]"@
}

pub open spec fn pipes_text(ps: Seq<Pipe>, ind: usize) -> Seq<char>
    decreases ps,
{
    if ps.len() == 0 {
        Seq::empty()
    } else {
        pipes_text(ps.drop_last(), ind) + pipe_text(&ps.last(), ind) + ",\n"@
    }
}

/// The printed form of a pipeline stage.
pub open spec fn pipe_text(p: &Pipe, ind: usize) -> Seq<char>
    decreases p,
{
    match p {
        Pipe::PipeLineTerm(c) => wrapped(ind, "PipeLineTerm"@, command_text(c, deeper(ind))),
        Pipe::Stdout(c) => wrapped(ind, "Stdout"@, command_text(c, deeper(ind))),
        Pipe::Both(c) => wrapped(ind, "Both"@, command_text(c, deeper(ind))),
    }
}

/// The printed form of a command.
pub open spec fn command_text(c: &Command, ind: usize) -> Seq<char>
    decreases c,
{
    let d = deeper(ind);
    spaces(ind as nat) + "Command {\n"@ + spaces(d as nat) + "exe:\n"@ + executable_text(
        &c.exe,
        deeper(d),
    ) + "\n"@ + spaces(d as nat) + "redirect_in: "@ + in_text(&c.redirect_in) + "\n"@ + spaces(
        d as nat,
    ) + "redirect_out: "@ + out_text(&c.redirect_out) + "\n"@ + spaces(ind as nat) + "}"@
}

/// The printed form of what a command runs.
pub open spec fn executable_text(e: &Executable, ind: usize) -> Seq<char>
    decreases e,
{
    match e {
        Executable::File { command_name, arguments } => spaces(ind as nat) + "File { name: "@
            + str_text(command_name) + ", argument: ["@ + joined(arguments@) + "] }"@,
        Executable::SubShell(l) => spaces(ind as nat) + "SubShell(\n"@ + list_text(l, deeper(ind))
            + "\n"@ + spaces(ind as nat) + ")"@,
    }
}

/// How a character is written inside a quoted string: backslash, quote,
/// NUL, tab, carriage return and newline are escaped.
pub open spec fn escape_char(c: char) -> Seq<char> {
    if c == '\\' {
        seq!['\\', '\\']
    } else if c == '"' {
        seq!['\\', '"']
    } else if c == '\0' {
        seq!['\\', '0']
    } else if c == '\t' {
        seq!['\\', 't']
    } else if c == '\r' {
        seq!['\\', 'r']
    } else if c == '\n' {
        seq!['\\', 'n']
    } else {
        seq![c]
    }
}

/// The characters of `s`, each written as `escape_char` gives it.
pub open spec fn escaped(s: Seq<char>) -> Seq<char>
    decreases s.len(),
{
    if s.len() == 0 {
        Seq::empty()
    } else {
        escaped(s.drop_last()) + escape_char(s.last())
    }
}

/// A one-line form of an expression.
pub open spec fn str_text(s: &Str) -> Seq<char>
    decreases s,
{
    match s {
        Str::Raw(t) => "Raw(\""@ + escaped(t@) + "\")"@,
        Str::Variable(v) => "Variable(\""@ + escaped(v@) + "\")"@,
        Str::Quoted(parts) => "Quoted(["@ + joined(parts@) + "])"@,
        Str::SubShellResult(l) => "SubShellResult(\n"@ + list_text(l, 0) + ")"@,
    }
}

/// Expressions separated by commas.
pub open spec fn joined(v: Seq<Str>) -> Seq<char>
    decreases v,
{
    if v.len() == 0 {
        Seq::empty()
    } else if v.len() == 1 {
        str_text(&v[0])
    } else {
        joined(v.drop_last()) + ", "@ + str_text(&v.last())
    }
}

pub open spec fn in_text(r: &Option<RedirectIn>) -> Seq<char>
    decreases r,
{
    match r {
        None => "None"@,
        Some(RedirectIn::Normal(s)) => "Some(Normal("@ + str_text(s) + "))"@,
        Some(RedirectIn::Heredoc(t)) => "Some(Heredoc(\""@ + escaped(t@) + "\"))"@,
    }
}

pub open spec fn out_text(r: &Option<RedirectOut>) -> Seq<char>
    decreases r,
{
    match r {
        None => "None"@,
        Some(RedirectOut::Normal(s)) => "Some(Normal("@ + str_text(s) + "))"@,
        Some(RedirectOut::Overwrite(s)) => "Some(Overwrite("@ + str_text(s) + "))"@,
        Some(RedirectOut::Append(s)) => "Some(Append("@ + str_text(s) + "))"@,
    }
}

fn escape_text(t: &str) -> (r: String)
    ensures
        r@ == escaped(t@),
{
    let n = t.unicode_len();
    let mut s = String::new();
    let mut i: usize = 0;
    while i < n
        invariant
            n == t@.len(),
            i <= n,
            s@ == escaped(t@.subrange(0, i as int)),
        decreases n - i,
    {
        let c = t.get_char(i);
        proof {
            assert(t@.subrange(0, i + 1).drop_last() =~= t@.subrange(0, i as int));
            assert(t@.subrange(0, i + 1).last() == c);
            reveal_strlit("\\\\");
            reveal_strlit("\\\"");
            reveal_strlit("\\0");
            reveal_strlit("\\t");
            reveal_strlit("\\r");
            reveal_strlit("\\n");
        }
        if c == '\\' {
            s.append("\\\\");
        } else if c == '"' {
            s.append("\\\"");
        } else if c == '\0' {
            s.append("\\0");
        } else if c == '\t' {
            s.append("\\t");
        } else if c == '\r' {
            s.append("\\r");
        } else if c == '\n' {
            s.append("\\n");
        } else {
            s.append(t.substring_char(i, i + 1));
            assert(t@.subrange(i as int, i + 1) =~= seq![c]);
        }
        assert(s@ =~= escaped(t@.subrange(0, i + 1)));
        i = i + 1;
    }
    assert(t@.subrange(0, n as int) =~= t@);
    s
}

/// `d` spaces.
pub fn gen_indent(d: usize) -> (r: String)
    ensures
        r@ == spaces(d as nat),
{
    let mut s = String::new();
    let mut i: usize = 0;
    while i < d
        invariant
            i <= d,
            s@ == spaces(i as nat),
        decreases d - i,
    {
        proof {
            reveal_strlit(" ");
        }
        s.append(" ");
        i = i + 1;
        assert(s@ =~= spaces(i as nat));
    }
    s
}

fn next_indent(i: usize) -> (r: usize)
    ensures
        r == deeper(i),
{
    if i <= usize::MAX - INDENT_WIDTH {
        i + INDENT_WIDTH
    } else {
        usize::MAX
    }
}

fn wrap(indent: usize, label: &str, inner: String) -> (r: String)
    ensures
        r@ == wrapped(indent, label@, inner@),
{
    let pad = gen_indent(indent);
    let mut s = gen_indent(indent);
    s.append(label);
    s.append("(\n");
    s.append(inner.as_str());
    s.append(",\n");
    s.append(pad.as_str());
    s.append(")");
    s
}

fn joined_string(v: &Vec<Str>) -> (r: String)
    ensures
        r@ == joined(v@),
    decreases v,
{
    let mut s = String::new();
    let mut i: usize = 0;
    while i < v.len()
        invariant
            i <= v@.len(),
            s@ == joined(v@.subrange(0, i as int)),
        decreases v@.len() - i,
    {
        proof {
            assert(decreases_to!(*v => v[i as int]));
            assert(v@.subrange(0, i + 1).drop_last() =~= v@.subrange(0, i as int));
            assert(v@.subrange(0, i + 1).last() == v@[i as int]);
            assert(v@.subrange(0, i + 1)[0] == v@[0]);
        }
        let t = v[i].text();
        if i > 0 {
            s.append(", ");
        }
        s.append(t.as_str());
        i = i + 1;
    }
    assert(v@.subrange(0, v@.len() as int) =~= v@);
    s
}

fn in_string(r: &Option<RedirectIn>) -> (t: String)
    ensures
        t@ == in_text(r),
    decreases r,
{
    match r {
        None => String::from_str("None"),
        Some(RedirectIn::Normal(x)) => {
            proof {
                assert(decreases_to!(*r => r->0));
            }
            let mut s = String::from_str("Some(Normal(");
            s.append(x.text().as_str());
            s.append("))");
            s
        },
        Some(RedirectIn::Heredoc(h)) => {
            let mut s = String::from_str("Some(Heredoc(\"");
            s.append(escape_text(h.as_str()).as_str());
            s.append("\"))");
            s
        },
    }
}

fn out_string(r: &Option<RedirectOut>) -> (t: String)
    ensures
        t@ == out_text(r),
    decreases r,
{
    match r {
        None => String::from_str("None"),
        Some(o) => {
            proof {
                assert(decreases_to!(*r => r->0));
            }
            let (label, x) = match o {
                RedirectOut::Normal(x) => ("Some(Normal(", x),
                RedirectOut::Overwrite(x) => ("Some(Overwrite(", x),
                RedirectOut::Append(x) => ("Some(Append(", x),
            };
            proof {
                assert(decreases_to!(*o => *x));
            }
            let mut s = String::from_str(label);
            s.append(x.text().as_str());
            s.append("))");
            s
        },
    }
}

impl Str {
    /// A one-line form of this expression.
    pub fn text(&self) -> (r: String)
        ensures
            r@ == str_text(self),
        decreases self,
    {
        match self {
            Str::Raw(t) => {
                let mut s = String::from_str("Raw(\"");
                s.append(escape_text(t.as_str()).as_str());
                s.append("\")");
                s
            },
            Str::Variable(v) => {
                let mut s = String::from_str("Variable(\"");
                s.append(escape_text(v.as_str()).as_str());
                s.append("\")");
                s
            },
            Str::Quoted(parts) => {
                proof {
                    assert(decreases_to!(*self => self->Quoted_0));
                }
                let mut s = String::from_str("Quoted([");
                s.append(joined_string(parts).as_str());
                s.append("])");
                s
            },
            Str::SubShellResult(l) => {
                proof {
                    assert(decreases_to!(*self => self->SubShellResult_0));
                }
                let mut s = String::from_str("SubShellResult(\n");
                s.append(l.print(0).as_str());
                s.append(")");
                s
            },
        }
    }
}

impl List {
    /// A multi-line form of this list, indented by `indent`.
    pub fn print(&self, indent: usize) -> (r: String)
        ensures
            r@ == list_text(self, indent),
        decreases self,
    {
        let d = next_indent(indent);
        let mut items = String::new();
        let mut i: usize = 0;
        while i < self.0.len()
            invariant
                i <= self.0@.len(),
                d == deeper(indent),
                items@ == connectors_text(self.0@.subrange(0, i as int), d),
            decreases self.0@.len() - i,
        {
            proof {
                assert(decreases_to!(*self => self.0));
                assert(decreases_to!(self.0 => self.0[i as int]));
                assert(self.0@.subrange(0, i + 1).drop_last() =~= self.0@.subrange(0, i as int));
                assert(self.0@.subrange(0, i + 1).last() == self.0@[i as int]);
            }
            let c = self.0[i].print(d);
            let ghost prev = items@;
            items.append(c.as_str());
            items.append(",\n");
            proof {
                assert(connectors_text(self.0@.subrange(0, i + 1), d) == connectors_text(
                    self.0@.subrange(0, i as int),
                    d,
                ) + connector_text(&self.0@[i as int], d) + ",\n"@);
                assert(items@ =~= prev + c@ + ",\n"@);
            }
            i = i + 1;
        }
        assert(self.0@.subrange(0, self.0@.len() as int) =~= self.0@);
        let pad = gen_indent(indent);
        let mut s = gen_indent(indent);
        s.append("List[\n");
        s.append(items.as_str());
        s.append("\n");
        s.append(pad.as_str());
        s.append("]");
        s
    }
}

impl Connector {
    /// A multi-line form of this connector, indented by `indent`.
    pub fn print(&self, indent: usize) -> (r: String)
        ensures
            r@ == connector_text(self, indent),
        decreases self,
    {
        let d = next_indent(indent);
        match self {
            Connector::Continue(p) => {
                proof {
                    assert(decreases_to!(*self => self->Continue_0));
                }
                wrap(indent, "Continue", p.print(d))
            },
            Connector::And(p) => {
                proof {
                    assert(decreases_to!(*self => self->And_0));
                }
                wrap(indent, "And", p.print(d))
            },
            Connector::Or(p) => {
                proof {
                    assert(decreases_to!(*self => self->Or_0));
                }
                wrap(indent, "Or", p.print(d))
            },
            Connector::ListTerm(p) => {
                proof {
                    assert(decreases_to!(*self => self->ListTerm_0));
                }
                wrap(indent, "ListTerm", p.print(d))
            },
        }
    }
}

impl PipeLine {
    /// A multi-line form of this pipeline, indented by `indent`.
    #[verifier::rlimit(50)]
    pub fn print(&self, indent: usize) -> (r: String)
        ensures
            r@ == pipeline_text(self, indent),
        decreases self,
    {
        let d = next_indent(indent);
        let mut items = String::new();
        let mut i: usize = 0;
        while i < self.0.len()
            invariant
                i <= self.0@.len(),
                d == deeper(indent),
                items@ == pipes_text(self.0@.subrange(0, i as int), d),
            decreases self.0@.len() - i,
        {
            proof {
                assert(decreases_to!(*self => self.0));
                assert(decreases_to!(self.0 => self.0[i as int]));
                assert(self.0@.subrange(0, i + 1).drop_last() =~= self.0@.subrange(0, i as int));
                assert(self.0@.subrange(0, i + 1).last() == self.0@[i as int]);
            }
            let c = self.0[i].print(d);
            let ghost prev = items@;
            items.append(c.as_str());
            items.append(",\n");
            proof {
                assert(pipes_text(self.0@.subrange(0, i + 1), d) == pipes_text(
                    self.0@.subrange(0, i as int),
                    d,
                ) + pipe_text(&self.0@[i as int], d) + ",\n"@);
                assert(items@ =~= prev + c@ + ",\n"@);
            }
            i = i + 1;
        }
        assert(self.0@.subrange(0, self.0@.len() as int) =~= self.0@);
        let pad = gen_indent(indent);
        let mut s = gen_indent(indent);
        s.append("PipeLine[\n");
        s.append(items.as_str());
        s.append("\n");
        s.append(pad.as_str());
        s.append("]");
        s
    }
}

impl Pipe {
    /// A multi-line form of this stage, indented by `indent`.
    pub fn print(&self, indent: usize) -> (r: String)
        ensures
            r@ == pipe_text(self, indent),
        decreases self,
    {
        let d = next_indent(indent);
        match self {
            Pipe::PipeLineTerm(c) => {
                proof {
                    assert(decreases_to!(*self => self->PipeLineTerm_0));
                }
                wrap(indent, "PipeLineTerm", c.print(d))
            },
            Pipe::Stdout(c) => {
                proof {
                    assert(decreases_to!(*self => self->Stdout_0));
                }
                wrap(indent, "Stdout", c.print(d))
            },
            Pipe::Both(c) => {
                proof {
                    assert(decreases_to!(*self => self->Both_0));
                }
                wrap(indent, "Both", c.print(d))
            },
        }
    }
}

impl Executable {
    /// A form of what this command runs, indented by `indent`.
    pub fn print(&self, indent: usize) -> (r: String)
        ensures
            r@ == executable_text(self, indent),
        decreases self,
    {
        match self {
            Executable::File { command_name, arguments } => {
                proof {
                    assert(decreases_to!(*self => self->command_name));
                    assert(decreases_to!(*self => self->arguments));
                }
                let mut s = gen_indent(indent);
                s.append("File { name: ");
                s.append(command_name.text().as_str());
                s.append(", argument: [");
                s.append(joined_string(arguments).as_str());
                s.append("] }");
                s
            },
            Executable::SubShell(l) => {
                proof {
                    assert(decreases_to!(*self => self->SubShell_0));
                }
                let pad = gen_indent(indent);
                let mut s = gen_indent(indent);
                s.append("SubShell(\n");
                s.append(l.print(next_indent(indent)).as_str());
                s.append("\n");
                s.append(pad.as_str());
                s.append(")");
                s
            },
        }
    }
}

impl Command {
    /// A multi-line form of this command, indented by `indent`.
    pub fn print(&self, indent: usize) -> (r: String)
        ensures
            r@ == command_text(self, indent),
        decreases self,
    {
        proof {
            assert(decreases_to!(*self => self.exe));
            assert(decreases_to!(*self => self.redirect_in));
            assert(decreases_to!(*self => self.redirect_out));
        }
        let d = next_indent(indent);
        let inner = gen_indent(d);
        let pad = gen_indent(indent);
        let mut s = gen_indent(indent);
        s.append("Command {\n");
        s.append(inner.as_str());
        s.append("exe:\n");
        s.append(self.exe.print(next_indent(d)).as_str());
        s.append("\n");
        s.append(inner.as_str());
        s.append("redirect_in: ");
        s.append(in_string(&self.redirect_in).as_str());
        s.append("\n");
        s.append(inner.as_str());
        s.append("redirect_out: ");
        s.append(out_string(&self.redirect_out).as_str());
        s.append("\n");
        s.append(pad.as_str());
        s.append("}");
        s
    }
}

} // verus!
