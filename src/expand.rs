use vstd::prelude::*;

use crate::dispatch::{is_whitespace, is_ws};
use crate::error::ShellError;
use crate::structures::{entry_for, find_entry, lemma_entry_for_absent, lemma_entry_for_found, List, Str};

verus! {

broadcast use vstd::std_specs::vec::group_vec_axioms;

/// `s` without the leading characters that satisfy `p`.
pub open spec fn trim_start_by(s: Seq<char>, p: spec_fn(char) -> bool) -> Seq<char>
    decreases s.len(),
{
    if s.len() > 0 && p(s[0]) {
        trim_start_by(s.drop_first(), p)
    } else {
        s
    }
}

/// `s` without the trailing characters that satisfy `p`.
pub open spec fn trim_end_by(s: Seq<char>, p: spec_fn(char) -> bool) -> Seq<char>
    decreases s.len(),
{
    if s.len() > 0 && p(s.last()) {
        trim_end_by(s.drop_last(), p)
    } else {
        s
    }
}

/// `s` without the characters that satisfy `p` at either end.
pub open spec fn trim_by(s: Seq<char>, p: spec_fn(char) -> bool) -> Seq<char> {
    trim_end_by(trim_start_by(s, p), p)
}

pub open spec fn is_nul(c: char) -> bool {
    c == '\0'
}

/// Captured output as a substitution yields it: NUL padding stripped from
/// both ends, then white space.
pub open spec fn cleaned(s: Seq<char>) -> Seq<char> {
    trim_by(trim_by(s, |c: char| is_nul(c)), |c: char| is_ws(c))
}

spec fn padding(nul: bool) -> spec_fn(char) -> bool {
    if nul {
        |c: char| is_nul(c)
    } else {
        |c: char| is_ws(c)
    }
}

fn is_padding(c: char, nul: bool) -> (r: bool)
    ensures
        r == padding(nul)(c),
{
    if nul {
        c == '\0'
    } else {
        is_whitespace(c)
    }
}

fn strip(s: &str, nul: bool) -> (r: String)
    ensures
        r@ == trim_by(s@, padding(nul)),
{
    let ghost p = padding(nul);
    let n = s.unicode_len();
    let mut i: usize = 0;
    let mut done = false;
    assert(s@.subrange(0, n as int) =~= s@);
    while !done
        invariant
            n == s@.len(),
            p == padding(nul),
            i <= n,
            trim_start_by(s@, p) == trim_start_by(s@.subrange(i as int, n as int), p),
            done ==> i == n || !p(s@[i as int]),
        decreases n - i, if done {
            0int
        } else {
            1int
        },
    {
        if i < n && is_padding(s.get_char(i), nul) {
            assert(s@.subrange(i as int, n as int)[0] == s@[i as int]);
            assert(s@.subrange(i as int, n as int).drop_first() =~= s@.subrange(i + 1, n as int));
            i = i + 1;
        } else {
            done = true;
        }
    }
    assert(trim_start_by(s@, p) == s@.subrange(i as int, n as int));
    let mut j: usize = n;
    let mut fin = false;
    while !fin
        invariant
            n == s@.len(),
            p == padding(nul),
            i <= j <= n,
            trim_start_by(s@, p) == s@.subrange(i as int, n as int),
            trim_by(s@, p) == trim_end_by(s@.subrange(i as int, j as int), p),
            fin ==> j == i || !p(s@[j - 1]),
        decreases j - i, if fin {
            0int
        } else {
            1int
        },
    {
        if j > i && is_padding(s.get_char(j - 1), nul) {
            assert(s@.subrange(i as int, j as int).last() == s@[j - 1]);
            assert(s@.subrange(i as int, j as int).drop_last() =~= s@.subrange(i as int, j - 1));
            j = j - 1;
        } else {
            fin = true;
        }
    }
    assert(s@.subrange(i as int, n as int).subrange(0, (j - i) as int) =~= s@.subrange(
        i as int,
        j as int,
    ));
    s.substring_char(i, j).to_owned()
}

/// Turns what a substitution's command wrote into the substituted text.
pub fn clean_capture(s: &str) -> (r: String)
    ensures
        r@ == cleaned(s@),
{
    let a = strip(s, true);
    strip(a.as_str(), false)
}

/// The lists behind a sequence of references.
pub open spec fn derefs(v: Seq<&List>) -> Seq<List> {
    v.map_values(|l: &List| *l)
}

/// The command substitutions of `s`, in the order evaluation meets them.
pub open spec fn subs(s: &Str) -> Seq<List>
    decreases s,
{
    match s {
        Str::SubShellResult(l) => seq![*l],
        Str::Quoted(parts) => subs_parts(parts@),
        _ => Seq::empty(),
    }
}

pub open spec fn subs_parts(parts: Seq<Str>) -> Seq<List>
    decreases parts,
{
    if parts.len() == 0 {
        Seq::empty()
    } else {
        subs_parts(parts.drop_last()) + subs(&parts.last())
    }
}

/// The value of `s` when its substitutions, from position `pos` on, produced
/// `caps`, and `env` holds the environment: the value and the position of the
/// next unused capture, or the name of an unset variable (`None` when the
/// captures run out).
pub open spec fn eval(s: &Str, env: Seq<(String, String)>, caps: Seq<Seq<char>>, pos: int) -> Result<
    (Seq<char>, int),
    Option<Seq<char>>,
>
    decreases s,
{
    match s {
        Str::Raw(t) => Ok((t@, pos)),
        Str::Variable(v) => match entry_for(env, v@) {
            Some(x) => Ok((x@, pos)),
            None => Err(Some(v@)),
        },
        Str::SubShellResult(_) => if 0 <= pos < caps.len() {
            Ok((caps[pos], pos + 1))
        } else {
            Err(None)
        },
        Str::Quoted(parts) => eval_parts(parts@, env, caps, pos),
    }
}

/// The concatenated values of `parts`, evaluated in order.
pub open spec fn eval_parts(
    parts: Seq<Str>,
    env: Seq<(String, String)>,
    caps: Seq<Seq<char>>,
    pos: int,
) -> Result<(Seq<char>, int), Option<Seq<char>>>
    decreases parts,
{
    if parts.len() == 0 {
        Ok((Seq::empty(), pos))
    } else {
        match eval_parts(parts.drop_last(), env, caps, pos) {
            Err(e) => Err(e),
            Ok((a, p)) => match eval(&parts.last(), env, caps, p) {
                Err(e) => Err(e),
                Ok((b, q)) => Ok((a + b, q)),
            },
        }
    }
}

proof fn lemma_eval_parts_err(
    parts: Seq<Str>,
    i: int,
    env: Seq<(String, String)>,
    caps: Seq<Seq<char>>,
    pos: int,
)
    requires
        0 <= i <= parts.len(),
        eval_parts(parts.subrange(0, i), env, caps, pos) is Err,
    ensures
        eval_parts(parts, env, caps, pos) == eval_parts(parts.subrange(0, i), env, caps, pos),
    decreases parts.len() - i,
{
    if i < parts.len() {
        assert(parts.subrange(0, i + 1).drop_last() =~= parts.subrange(0, i));
        lemma_eval_parts_err(parts, i + 1, env, caps, pos);
    } else {
        assert(parts.subrange(0, i) =~= parts);
    }
}

/// Whether an evaluation result agrees with its model.
pub open spec fn agrees<T>(r: Result<(String, T), ShellError>, m: Result<(Seq<char>, T), Option<Seq<char>>>) -> bool {
    match (r, m) {
        (Ok((t, p)), Ok((u, q))) => t@ == u && p == q,
        (Err(ShellError::UndefinedVariable(n)), Err(Some(v))) => n@ == v,
        (Err(ShellError::MissingCapture), Err(None)) => true,
        _ => false,
    }
}

fn lookup_env(env: &Vec<(String, String)>, name: &str) -> (r: Option<String>)
    ensures
        match (r, entry_for(env@, name@)) {
            (Some(v), Some(w)) => v@ == w@,
            (None, None) => true,
            _ => false,
        },
{
    match find_entry(env, name) {
        Some(i) => {
            proof {
                lemma_entry_for_found(env@, name@, i as int);
            }
            Some(env[i].1.clone())
        },
        None => {
            proof {
                lemma_entry_for_absent(env@, name@);
            }
            None
        },
    }
}

impl Str {
    /// The nested command lists whose output this expression substitutes, in
    /// the order evaluation consumes their captures.
    pub fn substitutions(&self) -> (r: Vec<&List>)
        ensures
            derefs(r@) == subs(self),
        decreases self,
    {
        match self {
            Str::SubShellResult(l) => {
                let mut v: Vec<&List> = Vec::new();
                v.push(l);
                assert(derefs(v@) =~= subs(self));
                v
            },
            Str::Quoted(parts) => {
                let mut out: Vec<&List> = Vec::new();
                let mut i: usize = 0;
                while i < parts.len()
                    invariant
                        i <= parts@.len(),
                        *self == Str::Quoted(*parts),
                        derefs(out@) == subs_parts(parts@.subrange(0, i as int)),
                    decreases parts@.len() - i,
                {
                    proof {
                        assert(*self == Str::Quoted(*parts));
                        assert(decreases_to!(*parts => parts[i as int]));
                        assert(decreases_to!(*self => self->Quoted_0));
                        assert(parts@.subrange(0, i + 1).drop_last() =~= parts@.subrange(0, i as int));
                        assert(parts@.subrange(0, i + 1).last() == parts@[i as int]);
                    }
                    let inner = parts[i].substitutions();
                    let mut j: usize = 0;
                    let ghost before = derefs(out@);
                    while j < inner.len()
                        invariant
                            j <= inner@.len(),
                            derefs(out@) == before + derefs(inner@.subrange(0, j as int)),
                        decreases inner@.len() - j,
                    {
                        proof {
                            assert(derefs(out@.push(inner@[j as int])) =~= derefs(out@).push(
                                *inner@[j as int],
                            ));
                            assert(derefs(inner@.subrange(0, j + 1)) =~= derefs(
                                inner@.subrange(0, j as int),
                            ).push(*inner@[j as int]));
                        }
                        out.push(inner[j]);
                        j = j + 1;
                        assert(derefs(out@) =~= before + derefs(inner@.subrange(0, j as int)));
                    }
                    assert(inner@.subrange(0, inner@.len() as int) =~= inner@);
                    i = i + 1;
                }
                assert(parts@.subrange(0, parts@.len() as int) =~= parts@);
                out
            },
            _ => Vec::new(),
        }
    }

    fn eval_from(&self, env: &Vec<(String, String)>, caps: &Vec<String>, pos: usize) -> (r: Result<
        (String, usize),
        ShellError,
    >)
        ensures
            agrees(
                match r {
                    Ok((t, p)) => Ok((t, p as int)),
                    Err(e) => Err(e),
                },
                eval(self, env@, crate::dispatch::texts(caps@), pos as int),
            ),
        decreases self,
    {
        match self {
            Str::Raw(t) => Ok((t.clone(), pos)),
            Str::Variable(v) => match lookup_env(env, v.as_str()) {
                Some(x) => Ok((x, pos)),
                None => Err(ShellError::UndefinedVariable(v.clone())),
            },
            Str::SubShellResult(_) => {
                if pos < caps.len() {
                    Ok((caps[pos].clone(), pos + 1))
                } else {
                    Err(ShellError::MissingCapture)
                }
            },
            Str::Quoted(parts) => {
                let mut acc = String::new();
                let mut at = pos;
                let mut i: usize = 0;
                while i < parts.len()
                    invariant
                        i <= parts@.len(),
                        *self == Str::Quoted(*parts),
                        eval_parts(parts@.subrange(0, i as int), env@, crate::dispatch::texts(caps@), pos as int)
                            == Ok::<(Seq<char>, int), Option<Seq<char>>>((acc@, at as int)),
                    decreases parts@.len() - i,
                {
                    assert(parts@.subrange(0, i + 1).drop_last() =~= parts@.subrange(0, i as int));
                    proof {
                        assert(decreases_to!(*parts => parts[i as int]));
                        assert(decreases_to!(*self => parts[i as int]));
                    }
                    let part = &parts[i];
                    match part.eval_from(env, caps, at) {
                        Ok((t, q)) => {
                            acc.append(t.as_str());
                            at = q;
                        },
                        Err(e) => {
                            proof {
                                assert(parts@.subrange(0, i + 1).drop_last() =~= parts@.subrange(0, i as int));
                                assert(parts@.subrange(0, i + 1).last() == parts@[i as int]);
                                lemma_eval_parts_err(parts@, i + 1, env@, crate::dispatch::texts(caps@), pos as int);
                            }
                            return Err(e);
                        },
                    }
                    i = i + 1;
                }
                assert(parts@.subrange(0, parts@.len() as int) =~= parts@);
                Ok((acc, at))
            },
        }
    }

    /// The value of this expression, given the environment and the output
    /// captured from each of its substitutions, in order.
    pub fn extract(&self, env: &Vec<(String, String)>, captured: &Vec<String>) -> (r: Result<
        String,
        ShellError,
    >)
        ensures
            agrees(
                match r {
                    Ok(t) => Ok((t, 0int)),
                    Err(e) => Err(e),
                },
                match eval(self, env@, crate::dispatch::texts(captured@), 0) {
                    Ok((v, _)) => Ok((v, 0int)),
                    Err(e) => Err(e),
                },
            ),
    {
        match self.eval_from(env, captured, 0) {
            Ok((t, _)) => Ok(t),
            Err(e) => Err(e),
        }
    }
}


} // verus!
