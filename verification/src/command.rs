//! The builtin commands, the registry that looks them up by name, and the
//! dispatcher that decides what one input line makes the shell do.

use crate::algebra::CommandExt;
use crate::effect::{Effect, EffectView, EnvView, ShellEnv};
use crate::resolver::{find_cmd_in_path, resolve_spec};
use crate::strutil::{join_spaces, join_with_spaces, str_eq};
use vstd::prelude::*;
use vstd::string::StrSliceExecFns;
use vstd::string::StringExecFns;

verus! {

/// The line reporting that a command was not found anywhere.
pub open spec fn not_found_msg(name: Seq<char>) -> Seq<char> {
    name + ": not found"@
}

/// The line reporting where on the search path a command was found.
pub open spec fn located_msg(name: Seq<char>, path: Seq<char>) -> Seq<char> {
    name + " is "@ + path
}

/// The line reporting that a name is a builtin of the shell itself.
pub open spec fn builtin_msg(name: Seq<char>) -> Seq<char> {
    name + " is a shell builtin"@
}

fn make_not_found(name: &String) -> (r: String)
    ensures
        r@ == not_found_msg(name@),
{
    let mut m = name.clone();
    m.append(": not found");
    m
}

fn make_located(name: &String, path: &String) -> (r: String)
    ensures
        r@ == located_msg(name@, path@),
{
    let mut m = name.clone();
    m.append(" is ");
    m.append(path.as_str());
    proof {
        assert(m@ =~= located_msg(name@, path@));
    }
    m
}

/// Change the working directory.
#[derive(Debug, Default, Clone)]
pub struct Cd {}

/// What `cd` decides: nothing without an argument; with one, the target is
/// the argument, a leading `~` replaced by the home directory. Whether the
/// target exists is not known here, so the result is a directory-change
/// request that [`Cd::outcome`] resolves; without a home directory a `~`
/// argument is an unrecoverable error.
pub open spec fn cd_effect(args: Seq<Seq<char>>, env: EnvView) -> EffectView {
    if args.len() <= 1 {
        EffectView::Silent
    } else if args[1].len() > 0 && args[1][0] == '~' {
        match env.home {
            Some(h) => EffectView::ChangeDir(h + args[1].drop_first()),
            None => EffectView::Abort("environment variable not found"@),
        }
    } else {
        EffectView::ChangeDir(args[1])
    }
}

impl CommandExt for Cd {
    open spec fn effect_spec(&self, args: Seq<Seq<char>>, env: EnvView) -> EffectView {
        cd_effect(args, env)
    }

    fn execute(&self, args: &Vec<String>, env: &ShellEnv) -> (r: Effect) {
        if args.len() <= 1 {
            return Effect::Silent;
        }
        let arg = &args[1];
        let arg_len = arg.as_str().unicode_len();
        if arg_len > 0 && arg.as_str().get_char(0) == '~' {
            match &env.home {
                Some(h) => {
                    let mut target = h.clone();
                    let rest = arg.as_str().substring_char(1, arg_len);
                    target.append(rest);
                    proof {
                        assert(target@ =~= h@ + arg@.drop_first());
                    }
                    Effect::ChangeDir(target)
                },
                None => Effect::Abort(String::from_str("environment variable not found")),
            }
        } else {
            Effect::ChangeDir(arg.clone())
        }
    }
}

impl Cd {
    /// The documented report when the target directory does not exist.
    pub open spec fn missing_dir_msg(target: Seq<char>) -> Seq<char> {
        "cd: "@ + target + ": No such file or directory"@
    }

    /// Resolve a pending directory change once the driver has checked whether
    /// the target exists: when it does, the session moves there and nothing is
    /// printed; when it does not, the working directory is left exactly as it
    /// was and the documented message is returned for printing.
    pub fn outcome(target: String, target_exists: bool, cwd: &mut String) -> (r: Option<String>)
        ensures
            target_exists ==> final(cwd)@ == target@ && r is None,
            !target_exists ==> final(cwd)@ == old(cwd)@ && (match r {
                Some(m) => m@ == Self::missing_dir_msg(target@),
                None => false,
            }),
    {
        if target_exists {
            *cwd = target;
            None
        } else {
            let mut m = String::from_str("cd: ");
            m.append(target.as_str());
            m.append(": No such file or directory");
            proof {
                assert(m@ =~= Self::missing_dir_msg(target@));
            }
            Some(m)
        }
    }
}

/// Write the arguments back out, joined by single spaces.
#[derive(Debug, Clone, Default)]
pub struct Echo;

/// What `echo` prints: the arguments after the command name, joined by single
/// spaces; with no arguments it prints nothing at all.
pub open spec fn echo_effect(args: Seq<Seq<char>>) -> EffectView {
    if args.len() > 1 {
        EffectView::Print(join_spaces(args.skip(1)))
    } else {
        EffectView::Silent
    }
}

impl CommandExt for Echo {
    open spec fn effect_spec(&self, args: Seq<Seq<char>>, env: EnvView) -> EffectView {
        echo_effect(args)
    }

    fn execute(&self, args: &Vec<String>, env: &ShellEnv) -> (r: Effect) {
        if args.len() > 1 {
            Effect::Print(join_with_spaces(args, 1))
        } else {
            Effect::Silent
        }
    }
}

/// Terminate the shell.
#[derive(Debug, Clone, Default)]
pub struct Exit;

impl CommandExt for Exit {
    open spec fn effect_spec(&self, args: Seq<Seq<char>>, env: EnvView) -> EffectView {
        EffectView::Exit
    }

    fn execute(&self, args: &Vec<String>, env: &ShellEnv) -> (r: Effect) {
        Effect::Exit
    }
}

/// Report where a name that is no builtin resolves to, if anywhere.
#[derive(Debug, Clone, Default)]
pub struct Invalid;

/// What the lookup of an unrecognized name reports: the located path, or that
/// the name was not found; an empty argument vector asks for nothing.
pub open spec fn invalid_effect(args: Seq<Seq<char>>, env: EnvView) -> EffectView {
    if args.len() == 0 {
        EffectView::Silent
    } else {
        match resolve_spec(env.listings, args[0]) {
            Some(p) => EffectView::Print(located_msg(args[0], p)),
            None => EffectView::Print(not_found_msg(args[0])),
        }
    }
}

impl CommandExt for Invalid {
    open spec fn effect_spec(&self, args: Seq<Seq<char>>, env: EnvView) -> EffectView {
        invalid_effect(args, env)
    }

    fn execute(&self, args: &Vec<String>, env: &ShellEnv) -> (r: Effect) {
        if args.len() == 0 {
            return Effect::Silent;
        }
        match find_cmd_in_path(args[0].as_str(), &env.listings) {
            Some(p) => Effect::Print(make_located(&args[0], &p)),
            None => Effect::Print(make_not_found(&args[0])),
        }
    }
}

/// Print the session's working directory.
#[derive(Debug, Default, Clone)]
pub struct Pwd;

impl CommandExt for Pwd {
    open spec fn effect_spec(&self, args: Seq<Seq<char>>, env: EnvView) -> EffectView {
        EffectView::Print(env.cwd)
    }

    fn execute(&self, args: &Vec<String>, env: &ShellEnv) -> (r: Effect) {
        Effect::Print(env.cwd.clone())
    }
}

/// Describe what a name would run as: a builtin, a located executable, or
/// nothing.
#[derive(Debug, Clone, Default)]
pub struct Type;

/// What `type` reports for its argument: a registry entry is a shell builtin;
/// any other name goes through the same search-path resolution as general
/// dispatch. A missing argument is reported in one line rather than failing.
pub open spec fn type_effect(args: Seq<Seq<char>>, env: EnvView) -> EffectView {
    if args.len() <= 1 {
        EffectView::Print("type: missing argument"@)
    } else if builtin_of_name(args[1]) is Some {
        EffectView::Print(builtin_msg(args[1]))
    } else {
        match resolve_spec(env.listings, args[1]) {
            Some(p) => EffectView::Print(located_msg(args[1], p)),
            None => EffectView::Print(not_found_msg(args[1])),
        }
    }
}

impl CommandExt for Type {
    open spec fn effect_spec(&self, args: Seq<Seq<char>>, env: EnvView) -> EffectView {
        type_effect(args, env)
    }

    fn execute(&self, args: &Vec<String>, env: &ShellEnv) -> (r: Effect) {
        if args.len() <= 1 {
            return Effect::Print(String::from_str("type: missing argument"));
        }
        match Command::from_name(args[1].as_str()) {
            Some(_) => {
                let mut m = args[1].clone();
                m.append(" is a shell builtin");
                Effect::Print(m)
            },
            None => {
                match find_cmd_in_path(args[1].as_str(), &env.listings) {
                    Some(p) => Effect::Print(make_located(&args[1], &p)),
                    None => Effect::Print(make_not_found(&args[1])),
                }
            },
        }
    }
}

/// The closed registry of builtins.
#[derive(Debug, Clone)]
pub enum Command {
    Cd(Cd),
    Exit(Exit),
    Echo(Echo),
    Pwd(Pwd),
    Type(Type),
}

/// Registry lookup: a case-sensitive exact match against the canonical
/// lowercase name of each builtin; any other name is no member.
pub open spec fn builtin_of_name(name: Seq<char>) -> Option<Command> {
    if name == "cd"@ {
        Some(Command::Cd(Cd {}))
    } else if name == "exit"@ {
        Some(Command::Exit(Exit))
    } else if name == "echo"@ {
        Some(Command::Echo(Echo))
    } else if name == "pwd"@ {
        Some(Command::Pwd(Pwd))
    } else if name == "type"@ {
        Some(Command::Type(Type))
    } else {
        None
    }
}

impl Command {
    /// The canonical lowercase name of the builtin.
    pub open spec fn name_spec(&self) -> Seq<char> {
        match self {
            Command::Cd(_) => "cd"@,
            Command::Exit(_) => "exit"@,
            Command::Echo(_) => "echo"@,
            Command::Pwd(_) => "pwd"@,
            Command::Type(_) => "type"@,
        }
    }

    /// The canonical lowercase name of the builtin.
    pub fn name(&self) -> (r: &'static str)
        ensures
            r@ == self.name_spec(),
    {
        match self {
            Command::Cd(_) => "cd",
            Command::Exit(_) => "exit",
            Command::Echo(_) => "echo",
            Command::Pwd(_) => "pwd",
            Command::Type(_) => "type",
        }
    }

    /// Look a name up in the registry.
    pub fn from_name(name: &str) -> (r: Option<Command>)
        ensures
            r == builtin_of_name(name@),
    {
        if str_eq(name, "cd") {
            Some(Command::Cd(Cd {}))
        } else if str_eq(name, "exit") {
            Some(Command::Exit(Exit))
        } else if str_eq(name, "echo") {
            Some(Command::Echo(Echo))
        } else if str_eq(name, "pwd") {
            Some(Command::Pwd(Pwd))
        } else if str_eq(name, "type") {
            Some(Command::Type(Type))
        } else {
            None
        }
    }
}

/// A name the registry resolves is resolved to the builtin of exactly that
/// name: lookup is an exact match on canonical names.
pub proof fn lemma_builtin_name_consistent(name: Seq<char>)
    ensures
        (match builtin_of_name(name) {
            Some(cmd) => cmd.name_spec() == name,
            None => true,
        }),
{
}

impl CommandExt for Command {
    open spec fn effect_spec(&self, args: Seq<Seq<char>>, env: EnvView) -> EffectView {
        match self {
            Command::Cd(c) => c.effect_spec(args, env),
            Command::Exit(c) => c.effect_spec(args, env),
            Command::Echo(c) => c.effect_spec(args, env),
            Command::Pwd(c) => c.effect_spec(args, env),
            Command::Type(c) => c.effect_spec(args, env),
        }
    }

    fn execute(&self, args: &Vec<String>, env: &ShellEnv) -> (r: Effect) {
        match self {
            Command::Cd(c) => c.execute(args, env),
            Command::Exit(c) => c.execute(args, env),
            Command::Echo(c) => c.execute(args, env),
            Command::Pwd(c) => c.execute(args, env),
            Command::Type(c) => c.execute(args, env),
        }
    }
}

/// What one tokenized input line makes the shell do: nothing when there are
/// no tokens; a builtin's effect when the first token names one; otherwise a
/// spawn of the first executable the search path resolves the name to, with
/// the remaining tokens as its arguments, or the not-found report.
pub open spec fn dispatch_effect(args: Seq<Seq<char>>, env: EnvView) -> EffectView {
    if args.len() == 0 {
        EffectView::Silent
    } else {
        match builtin_of_name(args[0]) {
            Some(cmd) => cmd.effect_spec(args, env),
            None => match resolve_spec(env.listings, args[0]) {
                Some(p) => EffectView::Spawn(p, args.drop_first()),
                None => EffectView::Print(not_found_msg(args[0])),
            },
        }
    }
}

/// Decide what the shell does with one tokenized input line.
pub fn dispatch(args: &Vec<String>, env: &ShellEnv) -> (r: Effect)
    ensures
        r@ == dispatch_effect(args.deep_view(), env@),
{
    if args.len() == 0 {
        return Effect::Silent;
    }
    match Command::from_name(args[0].as_str()) {
        Some(cmd) => cmd.execute(args, env),
        None => {
            match find_cmd_in_path(args[0].as_str(), &env.listings) {
                Some(p) => {
                    let n = args.len();
                    let mut tail: Vec<String> = Vec::new();
                    let mut j: usize = 1;
                    proof {
                        assert(tail.deep_view() =~= args.deep_view().subrange(1, 1));
                    }
                    while j < n
                        invariant
                            1 <= j <= n,
                            n == args@.len(),
                            tail.deep_view() == args.deep_view().subrange(1, j as int),
                        decreases n - j,
                    {
                        let ghost tl0 = tail.deep_view();
                        let ghost tv0 = tail@;
                        tail.push(args[j].clone());
                        j = j + 1;
                        proof {
                            assert(tail@.len() == tl0.len() + 1);
                            assert(tail@.last() == args@[j - 1]);
                            assert(tail.deep_view().last() == args.deep_view()[j - 1]);
                            assert forall|k: int| 0 <= k < tl0.len() implies tail.deep_view()[k]
                                == tl0[k] by {
                                assert(tail@[k] == tv0[k]);
                            }
                            assert(tail.deep_view() =~~= args.deep_view().subrange(1, j as int));
                        }
                    }
                    proof {
                        assert(args.deep_view().subrange(1, n as int) =~= args.deep_view()
                            .drop_first());
                    }
                    Effect::Spawn(p, tail)
                },
                None => Effect::Print(make_not_found(&args[0])),
            }
        },
    }
}

} // verus!
