use vstd::prelude::*;

use crate::structures::{
    entry_for, find_entry, lemma_entry_for_absent, lemma_entry_for_found, remove_entries,
    set_entry, BuiltinKind, CommandType, ExitCode, Shell,
};
use crate::text::same_text;

verus! {

/// The name under which each builtin is registered.
pub open spec fn builtin_name(k: BuiltinKind) -> Seq<char> {
    match k {
        BuiltinKind::Echo => "builtin-echo"@,
        BuiltinKind::Type => "type"@,
        BuiltinKind::Cd => "cd"@,
        BuiltinKind::Alias => "alias"@,
        BuiltinKind::Unalias => "unalias"@,
        BuiltinKind::Exit => "exit"@,
        BuiltinKind::Export => "export"@,
        BuiltinKind::Var => "var"@,
        BuiltinKind::Unset => "unset"@,
        BuiltinKind::ReloadPath => "reload-path"@,
    }
}

impl BuiltinKind {
    /// The name under which this builtin is registered.
    pub fn name(&self) -> (r: &'static str)
        ensures
            r@ == builtin_name(*self),
    {
        match self {
            BuiltinKind::Echo => "builtin-echo",
            BuiltinKind::Type => "type",
            BuiltinKind::Cd => "cd",
            BuiltinKind::Alias => "alias",
            BuiltinKind::Unalias => "unalias",
            BuiltinKind::Exit => "exit",
            BuiltinKind::Export => "export",
            BuiltinKind::Var => "var",
            BuiltinKind::Unset => "unset",
            BuiltinKind::ReloadPath => "reload-path",
        }
    }
}

/// The builtin whose name has this length and first character; no two
/// builtin names agree on both.
spec fn builtin_of_signature(len: int, first: char) -> BuiltinKind {
    if len == 12 {
        BuiltinKind::Echo
    } else if len == 2 {
        BuiltinKind::Cd
    } else if len == 3 {
        BuiltinKind::Var
    } else if len == 6 {
        BuiltinKind::Export
    } else if len == 7 {
        BuiltinKind::Unalias
    } else if len == 11 {
        BuiltinKind::ReloadPath
    } else if len == 4 && first == 't' {
        BuiltinKind::Type
    } else if len == 4 {
        BuiltinKind::Exit
    } else if first == 'a' {
        BuiltinKind::Alias
    } else {
        BuiltinKind::Unset
    }
}

proof fn lemma_builtin_names_distinct()
    ensures
        forall|a: BuiltinKind, b: BuiltinKind|
            a != b ==> #[trigger] builtin_name(a) != #[trigger] builtin_name(b),
{
    reveal_strlit("builtin-echo");
    reveal_strlit("type");
    reveal_strlit("cd");
    reveal_strlit("alias");
    reveal_strlit("unalias");
    reveal_strlit("exit");
    reveal_strlit("export");
    reveal_strlit("var");
    reveal_strlit("unset");
    reveal_strlit("reload-path");
    assert forall|a: BuiltinKind, b: BuiltinKind| a != b implies #[trigger] builtin_name(a)
        != #[trigger] builtin_name(b) by {
        let (na, nb) = (builtin_name(a), builtin_name(b));
        assert(builtin_of_signature(na.len() as int, na[0]) == a);
        assert(builtin_of_signature(nb.len() as int, nb[0]) == b);
    }
}

/// Whether `name` is the registered name of some builtin.
pub open spec fn is_builtin_name(name: Seq<char>) -> bool {
    exists|k: BuiltinKind| builtin_name(k) == name
}

fn register(table: &mut Vec<(String, CommandType)>, k: BuiltinKind)
    ensures
        entry_for(final(table)@, builtin_name(k)) == Some(CommandType::Builtin(k)),
        forall|o: Seq<char>|
            o != builtin_name(k) ==> #[trigger] entry_for(final(table)@, o) == entry_for(
                old(table)@,
                o,
            ),
{
    set_entry(table, k.name(), CommandType::Builtin(k));
}

/// Registers every builtin under its name, over whatever `table` held.
fn register_builtins(table: &mut Vec<(String, CommandType)>)
    ensures
        forall|k: BuiltinKind|
            entry_for(final(table)@, #[trigger] builtin_name(k)) == Some(CommandType::Builtin(k)),
        forall|o: Seq<char>|
            !is_builtin_name(o) ==> #[trigger] entry_for(final(table)@, o) == entry_for(
                old(table)@,
                o,
            ),
{
    proof {
        lemma_builtin_names_distinct();
    }
    register(table, BuiltinKind::Echo);
    register(table, BuiltinKind::Type);
    register(table, BuiltinKind::Cd);
    register(table, BuiltinKind::Alias);
    register(table, BuiltinKind::Unalias);
    register(table, BuiltinKind::Exit);
    register(table, BuiltinKind::Export);
    register(table, BuiltinKind::Var);
    register(table, BuiltinKind::Unset);
    register(table, BuiltinKind::ReloadPath);
    proof {
        assert forall|k: BuiltinKind|
            entry_for(table@, #[trigger] builtin_name(k)) == Some(CommandType::Builtin(k)) by {
            match k {
                BuiltinKind::Echo => {},
                BuiltinKind::Type => {},
                BuiltinKind::Cd => {},
                BuiltinKind::Alias => {},
                BuiltinKind::Unalias => {},
                BuiltinKind::Exit => {},
                BuiltinKind::Export => {},
                BuiltinKind::Var => {},
                BuiltinKind::Unset => {},
                BuiltinKind::ReloadPath => {},
            }
        }
        assert forall|o: Seq<char>| !is_builtin_name(o) implies #[trigger] entry_for(table@, o)
            == entry_for(old(table)@, o) by {
            assert(o != builtin_name(BuiltinKind::Echo));
            assert(o != builtin_name(BuiltinKind::Type));
            assert(o != builtin_name(BuiltinKind::Cd));
            assert(o != builtin_name(BuiltinKind::Alias));
            assert(o != builtin_name(BuiltinKind::Unalias));
            assert(o != builtin_name(BuiltinKind::Exit));
            assert(o != builtin_name(BuiltinKind::Export));
            assert(o != builtin_name(BuiltinKind::Var));
            assert(o != builtin_name(BuiltinKind::Unset));
            assert(o != builtin_name(BuiltinKind::ReloadPath));
        }
    }
}

impl Shell {
    /// What `name` stands for in the command table.
    pub open spec fn command_spec(&self, name: Seq<char>) -> Option<CommandType> {
        entry_for(self.command_table@, name)
    }

    /// The value of the shell variable `name`.
    pub open spec fn variable_spec(&self, name: Seq<char>) -> Option<Seq<char>> {
        match entry_for(self.variables@, name) {
            Some(v) => Some(v@),
            None => None,
        }
    }

    /// A top-level shell: no variables, and every builtin registered.
    pub fn new() -> (r: Shell)
        ensures
            forall|k: BuiltinKind| #[trigger]
                r.command_spec(builtin_name(k)) == Some(CommandType::Builtin(k)),
            forall|o: Seq<char>| !is_builtin_name(o) ==> #[trigger] r.command_spec(o) == None::<
                CommandType,
            >,
            forall|o: Seq<char>| #[trigger] r.variable_spec(o) == None::<Seq<char>>,
    {
        let mut table: Vec<(String, CommandType)> = Vec::new();
        register_builtins(&mut table);
        Shell { command_table: table, variables: Vec::new() }
    }

    /// A child context for a subshell: a copy of the parent's tables, which
    /// it may change without touching the parent.
    #[allow(non_snake_case)]
    pub fn fromParent(parent: &Shell) -> (r: Shell)
        ensures
            r.command_table@ == parent.command_table@,
            r.variables@ == parent.variables@,
    {
        let mut table: Vec<(String, CommandType)> = Vec::new();
        let mut i: usize = 0;
        while i < parent.command_table.len()
            invariant
                i <= parent.command_table@.len(),
                table@ == parent.command_table@.subrange(0, i as int),
            decreases parent.command_table@.len() - i,
        {
            let entry = (parent.command_table[i].0.clone(), parent.command_table[i].1.duplicate());
            table.push(entry);
            i = i + 1;
            assert(table@ =~= parent.command_table@.subrange(0, i as int));
        }
        let mut vars: Vec<(String, String)> = Vec::new();
        let mut j: usize = 0;
        while j < parent.variables.len()
            invariant
                j <= parent.variables@.len(),
                vars@ == parent.variables@.subrange(0, j as int),
            decreases parent.variables@.len() - j,
        {
            let entry = (parent.variables[j].0.clone(), parent.variables[j].1.clone());
            vars.push(entry);
            j = j + 1;
            assert(vars@ =~= parent.variables@.subrange(0, j as int));
        }
        assert(table@ =~= parent.command_table@);
        assert(vars@ =~= parent.variables@);
        Shell { command_table: table, variables: vars }
    }

    /// What `name` stands for in the command table.
    pub fn lookup(&self, name: &str) -> (r: Option<CommandType>)
        ensures
            r == self.command_spec(name@),
    {
        match find_entry(&self.command_table, name) {
            Some(i) => {
                proof {
                    lemma_entry_for_found(self.command_table@, name@, i as int);
                }
                Some(self.command_table[i].1.duplicate())
            },
            None => {
                proof {
                    lemma_entry_for_absent(self.command_table@, name@);
                }
                None
            },
        }
    }

    /// The value of the shell variable `name`.
    pub fn variable(&self, name: &str) -> (r: Option<String>)
        ensures
            match r {
                Some(v) => self.variable_spec(name@) == Some(v@),
                None => self.variable_spec(name@) is None,
            },
    {
        match find_entry(&self.variables, name) {
            Some(i) => {
                proof {
                    lemma_entry_for_found(self.variables@, name@, i as int);
                }
                Some(self.variables[i].1.clone())
            },
            None => {
                proof {
                    lemma_entry_for_absent(self.variables@, name@);
                }
                None
            },
        }
    }

    /// Makes `name` stand for `cmd`, leaving every other name as it was.
    pub fn set_command(&mut self, name: &str, cmd: CommandType)
        ensures
            final(self).command_spec(name@) == Some(cmd),
            forall|o: Seq<char>|
                o != name@ ==> #[trigger] final(self).command_spec(o) == old(self).command_spec(o),
            final(self).variables@ == old(self).variables@,
    {
        set_entry(&mut self.command_table, name, cmd);
    }

    /// Sets the shell variable `name`, leaving every other variable as it was.
    pub fn set_variable(&mut self, name: &str, value: String)
        ensures
            final(self).variable_spec(name@) == Some(value@),
            forall|o: Seq<char>|
                o != name@ ==> #[trigger] final(self).variable_spec(o) == old(self).variable_spec(o),
            final(self).command_table@ == old(self).command_table@,
    {
        set_entry(&mut self.variables, name, value);
    }
}

/// Whether `argv` has the `name = value` form.
pub open spec fn is_assignment(argv: Seq<String>) -> bool {
    argv.len() == 3 && argv[1]@ == "="@
}

/// The name and value of a `name = value` argument list, as the alias, var
/// and export builtins take it.
pub fn assignment(argv: &Vec<String>) -> (r: Option<(String, String)>)
    ensures
        r is Some == is_assignment(argv@),
        r matches Some((n, v)) ==> n@ == argv@[0]@ && v@ == argv@[2]@,
{
    if argv.len() == 3 && same_text(argv[1].as_str(), "=") {
        Some((argv[0].clone(), argv[2].clone()))
    } else {
        None
    }
}

/// The directory `cd` changes to, from its arguments and the values of HOME
/// and OLDPWD; `None` for more than one argument, or none with HOME unset.
pub fn cd_target(argv: &Vec<String>, home: Option<String>, oldpwd: Option<String>) -> (r: Option<String>)
    ensures
        argv@.len() > 1 ==> r is None,
        argv@.len() == 0 ==> match home {
            Some(h) => r matches Some(d) && d@ == h@,
            None => r is None,
        },
        argv@.len() == 1 ==> (r matches Some(d) && d@ == if argv@[0]@ == "-"@ && oldpwd is Some {
            oldpwd->0@
        } else {
            argv@[0]@
        }),
{
    if argv.len() > 1 {
        None
    } else if argv.len() == 0 {
        home
    } else if same_text(argv[0].as_str(), "-") && oldpwd.is_some() {
        oldpwd
    } else {
        Some(argv[0].clone())
    }
}

/// The line the `type` builtin prints for `name`, given what it stands for.
pub open spec fn description(name: Seq<char>, entry: Option<CommandType>) -> Seq<char> {
    match entry {
        Some(CommandType::Builtin(_)) => "`"@ + name + "` is a builtin function."@,
        Some(CommandType::External(p)) => p@,
        Some(CommandType::Alias(a)) => "`"@ + name + "` is an alias of `"@ + a@ + "`"@,
        None => "`"@ + name + "` not found."@,
    }
}

/// The path found last for `name` among `found`, a list of (name, path).
pub open spec fn last_found(found: Seq<(String, String)>, name: Seq<char>) -> Option<Seq<char>>
    decreases found.len(),
{
    if found.len() == 0 {
        None
    } else if found.last().0@ == name {
        Some(found.last().1@)
    } else {
        last_found(found.drop_last(), name)
    }
}

/// Whether a table entry is the external command at `path` (or no entry
/// when there is no path).
pub open spec fn is_external_at(entry: Option<CommandType>, path: Option<Seq<char>>) -> bool {
    match (entry, path) {
        (Some(CommandType::External(p)), Some(q)) => p@ == q,
        (None, None) => true,
        _ => false,
    }
}

impl Shell {
    /// The `alias name = text` builtin: on that form, `name` comes to stand
    /// for the alias and the status is 0; otherwise nothing changes and the
    /// status is 1.
    pub fn alias(&mut self, argv: &Vec<String>) -> (r: ExitCode)
        ensures
            is_assignment(argv@) ==> r == 0 && (final(self).command_spec(argv@[0]@) matches Some(
                CommandType::Alias(t),
            ) && t@ == argv@[2]@) && forall|o: Seq<char>|
                o != argv@[0]@ ==> #[trigger] final(self).command_spec(o) == old(self).command_spec(o),
            !is_assignment(argv@) ==> r == 1 && final(self).command_table@ == old(
                self,
            ).command_table@,
            final(self).variables@ == old(self).variables@,
    {
        match assignment(argv) {
            Some((name, text)) => {
                self.set_command(name.as_str(), CommandType::Alias(text));
                0
            },
            None => 1,
        }
    }

    /// The `unalias name` builtin: removes `name` from the command table.
    /// Status 1 for another number of arguments, 2 if `name` stood for
    /// nothing, else 0.
    pub fn unalias(&mut self, argv: &Vec<String>) -> (r: ExitCode)
        ensures
            argv@.len() != 1 ==> r == 1 && final(self).command_table@ == old(self).command_table@,
            argv@.len() == 1 ==> {
                &&& r == if old(self).command_spec(argv@[0]@) is Some {
                    0i32
                } else {
                    2i32
                }
                &&& final(self).command_spec(argv@[0]@) is None
                &&& forall|o: Seq<char>|
                    o != argv@[0]@ ==> #[trigger] final(self).command_spec(o) == old(
                        self,
                    ).command_spec(o)
            },
            final(self).variables@ == old(self).variables@,
    {
        if argv.len() != 1 {
            return 1;
        }
        if remove_entries(&mut self.command_table, argv[0].as_str()) {
            0
        } else {
            2
        }
    }

    /// The `var name = value` builtin: sets a shell variable; status 1 and no
    /// change when the arguments have another form.
    pub fn var(&mut self, argv: &Vec<String>) -> (r: ExitCode)
        ensures
            is_assignment(argv@) ==> r == 0 && final(self).variable_spec(argv@[0]@) == Some(
                argv@[2]@,
            ) && forall|o: Seq<char>|
                o != argv@[0]@ ==> #[trigger] final(self).variable_spec(o) == old(
                    self,
                ).variable_spec(o),
            !is_assignment(argv@) ==> r == 1 && final(self).variables@ == old(self).variables@,
            final(self).command_table@ == old(self).command_table@,
    {
        match assignment(argv) {
            Some((name, value)) => {
                self.set_variable(name.as_str(), value);
                0
            },
            None => 1,
        }
    }

    /// The shell-variable part of the `unset name` builtin: removes the
    /// variable; status 1 for another number of arguments, else 0.
    pub fn unset(&mut self, argv: &Vec<String>) -> (r: ExitCode)
        ensures
            argv@.len() != 1 ==> r == 1 && final(self).variables@ == old(self).variables@,
            argv@.len() == 1 ==> r == 0 && final(self).variable_spec(argv@[0]@) is None
                && forall|o: Seq<char>|
                o != argv@[0]@ ==> #[trigger] final(self).variable_spec(o) == old(
                    self,
                ).variable_spec(o),
            final(self).command_table@ == old(self).command_table@,
    {
        if argv.len() != 1 {
            return 1;
        }
        remove_entries(&mut self.variables, argv[0].as_str());
        0
    }

    /// The line the `type` builtin prints for `name`.
    pub fn describe(&self, name: &str) -> (r: String)
        ensures
            r@ == description(name@, self.command_spec(name@)),
    {
        match self.lookup(name) {
            Some(CommandType::Builtin(_)) => {
                let mut s = String::from_str("`");
                s.append(name);
                s.append("` is a builtin function.");
                s
            },
            Some(CommandType::External(p)) => p,
            Some(CommandType::Alias(a)) => {
                let mut s = String::from_str("`");
                s.append(name);
                s.append("` is an alias of `");
                s.append(a.as_str());
                s.append("`");
                s
            },
            None => {
                let mut s = String::from_str("`");
                s.append(name);
                s.append("` not found.");
                s
            },
        }
    }

    /// Rebuilds the command table from the programs `found` on the search
    /// path, as (name, path) in search order, and the builtins. A later
    /// program shadows an earlier one of the same name; a builtin shadows
    /// both. Variables are kept.
    pub fn reload_path(&mut self, found: &Vec<(String, String)>)
        ensures
            forall|k: BuiltinKind| #[trigger]
                final(self).command_spec(builtin_name(k)) == Some(CommandType::Builtin(k)),
            forall|o: Seq<char>|
                !is_builtin_name(o) ==> is_external_at(
                    #[trigger] final(self).command_spec(o),
                    last_found(found@, o),
                ),
            final(self).variables@ == old(self).variables@,
    {
        let mut table: Vec<(String, CommandType)> = Vec::new();
        let mut i: usize = 0;
        while i < found.len()
            invariant
                i <= found@.len(),
                forall|o: Seq<char>|
                    is_external_at(
                        #[trigger] entry_for(table@, o),
                        last_found(found@.subrange(0, i as int), o),
                    ),
            decreases found@.len() - i,
        {
            let ghost prev = table@;
            set_entry(&mut table, found[i].0.as_str(), CommandType::External(found[i].1.clone()));
            proof {
                let f = found@.subrange(0, i + 1);
                assert(f.drop_last() =~= found@.subrange(0, i as int));
                assert(f.last() == found@[i as int]);
                assert forall|o: Seq<char>|
                    is_external_at(#[trigger] entry_for(table@, o), last_found(f, o)) by {
                    if o != found@[i as int].0@ {
                        assert(entry_for(table@, o) == entry_for(prev, o));
                    }
                }
            }
            i = i + 1;
        }
        proof {
            assert(found@.subrange(0, found@.len() as int) =~= found@);
        }
        register_builtins(&mut table);
        self.command_table = table;
    }
}

} // verus!
