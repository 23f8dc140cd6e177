use vstd::prelude::*;

use crate::error::ShellError;
use crate::structures::{BuiltinKind, CommandType, Shell};

verus! {

/// Whether `c` is white space in the sense of Unicode's White_Space property.
pub open spec fn is_ws(c: char) -> bool {
    let u = c as u32;
    (0x9 <= u && u <= 0xd) || u == 0x20 || u == 0x85 || u == 0xa0 || u == 0x1680 || (0x2000 <= u
        && u <= 0x200a) || u == 0x2028 || u == 0x2029 || u == 0x202f || u == 0x205f || u == 0x3000
}

/// Whether `c` is white space in the sense of Unicode's White_Space property.
pub fn is_whitespace(c: char) -> (r: bool)
    ensures
        r == is_ws(c),
{
    let u = c as u32;
    (0x9 <= u && u <= 0xd) || u == 0x20 || u == 0x85 || u == 0xa0 || u == 0x1680 || (0x2000 <= u
        && u <= 0x200a) || u == 0x2028 || u == 0x2029 || u == 0x202f || u == 0x205f || u == 0x3000
}

/// Reading `s` up to `n`: the words completed so far, and where the word in
/// progress starts.
pub open spec fn scan(s: Seq<char>, n: nat) -> (Seq<Seq<char>>, int)
    decreases n,
{
    if n == 0 {
        (Seq::empty(), 0)
    } else {
        let (ws, start) = scan(s, (n - 1) as nat);
        if is_ws(s[n - 1]) {
            (
                if start < n - 1 {
                    ws.push(s.subrange(start, n - 1))
                } else {
                    ws
                },
                n as int,
            )
        } else {
            (ws, start)
        }
    }
}

/// The maximal runs of non-white-space characters of `s`, in order.
pub open spec fn words(s: Seq<char>) -> Seq<Seq<char>> {
    let (ws, start) = scan(s, s.len());
    if start < s.len() {
        ws.push(s.subrange(start, s.len() as int))
    } else {
        ws
    }
}

/// The texts of a sequence of strings.
pub open spec fn texts(v: Seq<String>) -> Seq<Seq<char>> {
    v.map_values(|w: String| w@)
}

proof fn lemma_texts_push(v: Seq<String>, x: String)
    ensures
        texts(v.push(x)) == texts(v).push(x@),
{
    assert(texts(v.push(x)) =~= texts(v).push(x@));
}

proof fn lemma_scan_start(s: Seq<char>, n: nat)
    requires
        n <= s.len(),
    ensures
        0 <= scan(s, n).1 <= n,
    decreases n,
{
    if n > 0 {
        lemma_scan_start(s, (n - 1) as nat);
    }
}

/// Splits `s` into its white-space separated words.
pub fn split_words(s: &str) -> (r: Vec<String>)
    ensures
        texts(r@) == words(s@),
{
    let n = s.unicode_len();
    let mut out: Vec<String> = Vec::new();
    let mut start: usize = 0;
    let mut i: usize = 0;
    while i < n
        invariant
            n == s@.len(),
            i <= n,
            start <= i,
            (texts(out@), start as int) == scan(s@, i as nat),
        decreases n - i,
    {
        let c = s.get_char(i);
        if is_whitespace(c) {
            if start < i {
                let w = s.substring_char(start, i).to_owned();
                proof {
                    assert(texts(out@.push(w)) =~= texts(out@).push(w@));
                }
                out.push(w);
            }
            start = i + 1;
        }
        i = i + 1;
    }
    if start < n {
        let w = s.substring_char(start, n).to_owned();
        proof {
            assert(texts(out@.push(w)) =~= texts(out@).push(w@));
        }
        out.push(w);
    }
    out
}

/// What a command name resolves to in the end.
#[derive(Debug)]
pub enum Target {
    /// A program at this path.
    External(String),
    /// A builtin.
    Builtin(BuiltinKind),
}

/// A resolved command: what runs, the words an alias puts ahead of the
/// command's own arguments, and whether the path must still be found on disk
/// (a name absent from the table is taken as a path).
#[derive(Debug)]
pub struct Resolution {
    pub target: Target,
    pub leading: Vec<String>,
    pub must_exist: bool,
}

/// The model of a target: a builtin, or the text of a path.
pub enum TargetModel {
    External(Seq<char>),
    Builtin(BuiltinKind),
}

impl Resolution {
    pub open spec fn model(&self) -> (TargetModel, Seq<Seq<char>>, bool) {
        (
            match self.target {
                Target::External(p) => TargetModel::External(p@),
                Target::Builtin(k) => TargetModel::Builtin(k),
            },
            texts(self.leading@),
            self.must_exist,
        )
    }
}

/// Resolution of a single name with `leading` words ahead of the arguments,
/// where an alias is not acceptable; `None` for an alias.
pub open spec fn direct(entry: Option<CommandType>, name: Seq<char>, leading: Seq<Seq<char>>) -> Option<
    (TargetModel, Seq<Seq<char>>, bool),
> {
    match entry {
        None => Some((TargetModel::External(name), leading, true)),
        Some(CommandType::External(p)) => Some((TargetModel::External(p@), leading, false)),
        Some(CommandType::Builtin(k)) => Some((TargetModel::Builtin(k), leading, false)),
        Some(CommandType::Alias(_)) => None,
    }
}

/// What `name` resolves to in `shell`, or the name reported as not found.
/// An alias is replaced by its first word, its other words going ahead of the
/// arguments; an alias that leads to another alias is not followed.
pub open spec fn resolve_spec(shell: &Shell, name: Seq<char>) -> Result<
    (TargetModel, Seq<Seq<char>>, bool),
    Seq<char>,
> {
    match shell.command_spec(name) {
        Some(CommandType::Alias(text)) => {
            let ws = words(text@);
            if ws.len() == 0 {
                Err(name)
            } else {
                match direct(shell.command_spec(ws[0]), ws[0], ws.drop_first()) {
                    Some(m) => Ok(m),
                    None => Err(name),
                }
            }
        },
        entry => match direct(entry, name, Seq::empty()) {
            Some(m) => Ok(m),
            None => Err(name),
        },
    }
}

/// An alias whose first word names another alias is not followed: the name
/// resolves to nothing.
pub proof fn lemma_alias_chain_not_found(shell: &Shell, name: Seq<char>, text: String)
    requires
        shell.command_spec(name) == Some(CommandType::Alias(text)),
        words(text@).len() > 0,
        shell.command_spec(words(text@)[0]) matches Some(CommandType::Alias(_)),
    ensures
        resolve_spec(shell, name) == Err::<(TargetModel, Seq<Seq<char>>, bool), Seq<char>>(name),
{
}

/// An alias whose first word names a program or a builtin resolves to it,
/// with the alias's other words ahead of the arguments.
pub proof fn lemma_alias_single_step(shell: &Shell, name: Seq<char>, text: String)
    requires
        shell.command_spec(name) == Some(CommandType::Alias(text)),
        words(text@).len() > 0,
        !(shell.command_spec(words(text@)[0]) matches Some(CommandType::Alias(_))),
    ensures
        resolve_spec(shell, name) matches Ok(m) && m.1 == words(text@).drop_first(),
{
}

fn resolve_direct(shell: &Shell, entry: Option<CommandType>, name: &str, leading: Vec<String>) -> (r:
    Option<Resolution>)
    ensures
        match r {
            Some(res) => direct(entry, name@, texts(leading@)) == Some(res.model()),
            None => direct(entry, name@, texts(leading@)) is None,
        },
{
    match entry {
        None => Some(Resolution { target: Target::External(name.to_owned()), leading, must_exist: true }),
        Some(CommandType::External(p)) => Some(
            Resolution { target: Target::External(p), leading, must_exist: false },
        ),
        Some(CommandType::Builtin(k)) => Some(
            Resolution { target: Target::Builtin(k), leading, must_exist: false },
        ),
        Some(CommandType::Alias(_)) => None,
    }
}

impl Shell {
    /// Resolves a command name through the command table, following an alias
    /// by one level.
    pub fn resolve(&self, name: &str) -> (r: Result<Resolution, ShellError>)
        ensures
            match (r, resolve_spec(self, name@)) {
                (Ok(res), Ok(m)) => res.model() == m,
                (Err(ShellError::CommandNotFound(n)), Err(m)) => n@ == m,
                _ => false,
            },
    {
        let entry = self.lookup(name);
        match entry {
            Some(CommandType::Alias(text)) => {
                let mut ws = split_words(text.as_str());
                if ws.len() == 0 {
                    return Err(ShellError::CommandNotFound(name.to_owned()));
                }
                let head = ws.remove(0);
                proof {
                    assert(texts(ws@) =~= words(text@).drop_first());
                }
                let inner = self.lookup(head.as_str());
                match resolve_direct(self, inner, head.as_str(), ws) {
                    Some(res) => Ok(res),
                    None => Err(ShellError::CommandNotFound(name.to_owned())),
                }
            },
            other => match resolve_direct(self, other, name, Vec::new()) {
                Some(res) => {
                    proof {
                        assert(texts(Seq::<String>::empty()) =~= Seq::<Seq<char>>::empty());
                    }
                    Ok(res)
                },
                None => Err(ShellError::CommandNotFound(name.to_owned())),
            },
        }
    }
}

impl Resolution {
    /// Accepts the resolution once it is known whether its path exists: a
    /// name taken as a path that does not exist is not found.
    pub fn confirm(self, exists: bool) -> (r: Result<Resolution, ShellError>)
        ensures
            self.must_exist && !exists && self.target is External ==> (r matches Err(
                ShellError::CommandNotFound(n),
            ) && self.model().0 == TargetModel::External(n@)),
            !(self.must_exist && !exists && self.target is External) ==> (r matches Ok(res)
                && res.model() == (
                self.model().0,
                self.model().1,
                false,
            )),
    {
        if self.must_exist && !exists {
            match self.target {
                Target::External(p) => Err(ShellError::CommandNotFound(p)),
                Target::Builtin(k) => Ok(Resolution { target: Target::Builtin(k), leading: self.leading, must_exist: false }),
            }
        } else {
            Ok(Resolution { target: self.target, leading: self.leading, must_exist: false })
        }
    }

    /// The arguments the command receives: the alias words, then `args`.
    pub fn arguments(&self, args: Vec<String>) -> (r: Vec<String>)
        ensures
            texts(r@) == texts(self.leading@) + texts(args@),
    {
        let mut out: Vec<String> = Vec::new();
        let mut i: usize = 0;
        while i < self.leading.len()
            invariant
                i <= self.leading@.len(),
                texts(out@) == texts(self.leading@.subrange(0, i as int)),
            decreases self.leading@.len() - i,
        {
            let w = self.leading[i].clone();
            proof {
                lemma_texts_push(out@, w);
                lemma_texts_push(self.leading@.subrange(0, i as int), w);
                assert(self.leading@.subrange(0, i as int).push(w) =~= self.leading@.subrange(
                    0,
                    i + 1,
                ));
            }
            out.push(w);
            i = i + 1;
        }
        let mut j: usize = 0;
        while j < args.len()
            invariant
                j <= args@.len(),
                texts(out@) == texts(self.leading@) + texts(args@.subrange(0, j as int)),
            decreases args@.len() - j,
        {
            proof {
                assert(self.leading@.subrange(0, self.leading@.len() as int) =~= self.leading@);
            }
            let w = args[j].clone();
            proof {
                lemma_texts_push(out@, w);
                lemma_texts_push(args@.subrange(0, j as int), w);
                assert(args@.subrange(0, j as int).push(w) =~= args@.subrange(0, j + 1));
                assert((texts(self.leading@) + texts(args@.subrange(0, j as int))).push(w@)
                    =~= texts(self.leading@) + texts(args@.subrange(0, j as int)).push(w@));
            }
            out.push(w);
            j = j + 1;
        }
        proof {
            assert(self.leading@.subrange(0, self.leading@.len() as int) =~= self.leading@);
            assert(args@.subrange(0, args@.len() as int) =~= args@);
        }
        out
    }
}

} // verus!
