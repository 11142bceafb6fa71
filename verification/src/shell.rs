//! Deciding what each parsed command does: the line it prints, the exit
//! code it terminates with, the state it mutates, or the outside step —
//! a search-path lookup, a directory-existence test, a subprocess run —
//! it needs before a verified reply function finishes the job.

use vstd::prelude::*;
use crate::command::Builtin;
use crate::command::CommandView;
use crate::command::handle_spec;
use crate::command::parse_spec;
use crate::tokenizer::tokens_of;

verus! {

/// The interpreter's persistent session state: its logical working
/// directory, advisory only and never synchronized with the process's
/// real one.
pub struct ShellContext {
    pub current_dir: String,
}

/// What the caller must do to carry a decided command out. `Print` writes
/// the line and a newline to standard output; `Terminate` ends the process
/// with the code; the remaining variants name the one outside step still
/// wanted, whose observation feeds the matching reply function.
#[derive(Debug, PartialEq)]
pub enum Action {
    Print(String),
    Terminate(i32),
    Resolve(String),
    CheckDir(String),
    Run(String),
    NoHome,
}

/// What to do with a finished subprocess: forward its captured standard
/// output verbatim, or print the failure message.
#[derive(Debug, PartialEq)]
pub enum RunReport {
    Output(Vec<u8>),
    Message(String),
}

/// The text `echo` prints: its argument, or empty text when none was given.
pub open spec fn echo_text_spec(content: Option<Seq<char>>) -> Seq<char> {
    match content {
        Some(c) => c,
        None => Seq::empty(),
    }
}

/// The code `exit` terminates with: its argument, defaulting to zero.
pub open spec fn exit_code_spec(code: Option<int>) -> int {
    match code {
        Some(n) => n,
        None => 0,
    }
}

/// The report of `type` for a name that is a builtin.
pub open spec fn builtin_message(name: Seq<char>) -> Seq<char> {
    name + " is a shell builtin"@
}

/// The report of `type` for a name found on the search path.
pub open spec fn located_message(name: Seq<char>, path: Seq<char>) -> Seq<char> {
    name + " is "@ + path
}

/// The report of `type` for a name found nowhere.
pub open spec fn not_found_message(name: Seq<char>) -> Seq<char> {
    name + ": not found"@
}

/// The report of `cd` for a path that does not exist.
pub open spec fn cd_error_message(path: Seq<char>) -> Seq<char> {
    "cd: "@ + path + ": No such file or directory"@
}

/// The report for an unrecognized command whose subprocess did not succeed.
pub open spec fn run_failure_message(raw: Seq<char>) -> Seq<char> {
    raw + ": command not found"@
}

/// A path with every '~' replaced by the home directory text.
pub open spec fn expand_spec(path: Seq<char>, home: Seq<char>) -> Seq<char>
    decreases path.len(),
{
    if path.len() == 0 {
        Seq::empty()
    } else if path.last() == '~' {
        expand_spec(path.drop_last(), home) + home
    } else {
        expand_spec(path.drop_last(), home).push(path.last())
    }
}

/// What `type` decides once its operand is re-tokenized and re-parsed as
/// a fresh command line: a missing operand or an operand of pure
/// whitespace gets its message, a recognized builtin is reported as such,
/// and anything else is handed to the resolver under its rejoined text.
pub open spec fn type_action_spec(target: Seq<char>, a: Action) -> bool {
    match parse_spec(tokens_of(target)) {
        None => a matches Action::Print(l) && l@ == "invalid command"@,
        Some(CommandView::Invalid { attempt }) => a matches Action::Resolve(n) && n@ == attempt,
        Some(c) => a matches Action::Print(l) && l@ == builtin_message(handle_spec(c)),
    }
}

/// What a `cd` with a path decides: the existence check on the expanded
/// path, with every '~' replaced by some one home-directory text the
/// environment reported, or nothing when no home directory could be
/// determined.
pub open spec fn cd_action_spec(p: Seq<char>, a: Action) -> bool {
    a is NoHome || (a matches Action::CheckDir(e) && (exists|h: Seq<char>|
        e@ == expand_spec(p, h)))
}

/// What the dispatcher decides for each command against the current state:
/// the printed line, the termination code, or the outside step it asks
/// for. A `cd` decision carries the path with '~' already expanded to
/// whatever the environment reported as the home directory.
pub open spec fn execute_spec(c: CommandView, dir: Seq<char>, a: Action) -> bool {
    match c {
        CommandView::Echo { content } => a matches Action::Print(l) && l@ == echo_text_spec(
            content,
        ),
        CommandView::Exit { code } => a matches Action::Terminate(n) && n as int == exit_code_spec(
            code,
        ),
        CommandView::Type { command } => match command {
            None => a matches Action::Print(l) && l@ == "type: missing operand"@,
            Some(t) => type_action_spec(t, a),
        },
        CommandView::Cd { path } => match path {
            None => a matches Action::Print(l) && l@ == "you must inform a path"@,
            Some(p) => cd_action_spec(p, a),
        },
        CommandView::Pwd => a matches Action::Print(l) && l@ == dir,
        CommandView::Invalid { attempt } => a matches Action::Run(r) && r@ == attempt,
    }
}

/// Relies on home::home_dir: the user's home directory as the environment
/// reports it, or `None` when it cannot be determined. The result depends
/// on the process environment, so nothing is stated of it.
#[verifier::external_body]
fn query_home_dir() -> (r: Option<String>) {
    home::home_dir().map(|p| p.display().to_string())
}

/// Replaces every '~' of the path by the home directory text.
pub fn expand_home(path: &str, home: &str) -> (r: String)
    ensures
        r@ == expand_spec(path@, home@),
{
    let n = path.unicode_len();
    let mut r = String::new();
    let mut i: usize = 0;
    while i < n
        invariant
            n == path@.len(),
            i <= n,
            r@ == expand_spec(path@.take(i as int), home@),
        decreases n - i,
    {
        let ghost sofar = path@.take(i as int);
        let c = path.get_char(i);
        if c == '~' {
            r.append(home);
        } else {
            let piece = path.substring_char(i, i + 1);
            proof {
                assert(piece@ =~= seq![path@[i as int]]);
            }
            r.append(piece);
        }
        i = i + 1;
        proof {
            let upto = path@.take(i as int);
            assert(upto.drop_last() =~= sofar);
            assert(upto.last() == path@[i as int - 1]);
            if path@[i as int - 1] != '~' {
                assert(r@ =~= expand_spec(sofar, home@).push(path@[i as int - 1]));
            }
        }
    }
    proof {
        assert(path@.take(n as int) =~= path@);
    }
    r
}

/// Builds the `type` report for a builtin name.
fn builtin_line(name: &str) -> (r: String)
    ensures
        r@ == builtin_message(name@),
{
    let mut r = String::from_str(name);
    r.append(" is a shell builtin");
    r
}

/// Decides a parsed command against the current state. The state is only
/// read here; the one command that changes it, `cd`, first needs the
/// outside existence test and finishes in `cd_reply`.
pub fn execute(cmd: &Builtin, ctx: &ShellContext) -> (a: Action)
    ensures
        execute_spec(cmd@, ctx.current_dir@, a),
{
    match cmd {
        Builtin::Echo { content } => Action::Print(
            match content {
                Some(c) => c.clone(),
                None => String::new(),
            },
        ),
        Builtin::Exit { code } => Action::Terminate(
            match code {
                Some(n) => *n,
                None => 0,
            },
        ),
        Builtin::Type { command } => match command {
            None => Action::Print(String::from_str("type: missing operand")),
            Some(target) => {
                let toks = crate::tokenizer::tokenize(target.as_str());
                let mut refs: Vec<&str> = Vec::new();
                let mut k: usize = 0;
                while k < toks.len()
                    invariant
                        k <= toks@.len(),
                        refs@.len() == k,
                        refs.deep_view() =~= toks.deep_view().take(k as int),
                    decreases toks@.len() - k,
                {
                    refs.push(toks[k].as_str());
                    k = k + 1;
                }
                proof {
                    assert(toks.deep_view().take(toks@.len() as int) =~= toks.deep_view());
                    assert(refs.deep_view() =~= tokens_of(target@));
                }
                match crate::command::parse_command(refs) {
                    None => Action::Print(String::from_str("invalid command")),
                    Some(Builtin::Invalid { attempt }) => Action::Resolve(attempt),
                    Some(parsed) => Action::Print(builtin_line(parsed.handle())),
                }
            },
        },
        Builtin::Cd { path } => match path {
            None => Action::Print(String::from_str("you must inform a path")),
            Some(p) => match query_home_dir() {
                Some(h) => {
                    let expanded = expand_home(p.as_str(), h.as_str());
                    let a = Action::CheckDir(expanded);
                    proof {
                        assert(a->CheckDir_0@ == expand_spec(p@, h@));
                        assert(cd_action_spec(p@, a));
                    }
                    a
                },
                None => Action::NoHome,
            },
        },
        Builtin::Pwd => Action::Print(ctx.current_dir.clone()),
        Builtin::Invalid { attempt } => Action::Run(attempt.clone()),
    }
}

/// Builds the `type` report once the resolver has answered for the
/// attempted name: where it was found, or that it was not.
pub fn resolve_reply(attempt: &str, found: Option<String>) -> (line: String)
    ensures
        match found {
            Some(p) => line@ == located_message(attempt@, p@),
            None => line@ == not_found_message(attempt@),
        },
{
    match found {
        Some(p) => {
            let mut line = String::from_str(attempt);
            line.append(" is ");
            line.append(p.as_str());
            line
        },
        None => {
            let mut line = String::from_str(attempt);
            line.append(": not found");
            line
        },
    }
}

/// Finishes `cd` once the existence of the expanded path is known: an
/// existing path replaces the tracked directory verbatim and silently;
/// anything else leaves the state untouched and yields the error line.
pub fn cd_reply(ctx: &mut ShellContext, expanded: String, exists: bool) -> (msg: Option<String>)
    ensures
        exists ==> final(ctx).current_dir@ == expanded@ && msg is None,
        !exists ==> final(ctx).current_dir@ == old(ctx).current_dir@ && (msg matches Some(m)
            && m@ == cd_error_message(expanded@)),
{
    if exists {
        ctx.current_dir = expanded;
        None
    } else {
        let mut m = String::from_str("cd: ");
        m.append(expanded.as_str());
        m.append(": No such file or directory");
        Some(m)
    }
}

/// Finishes an unrecognized command once its subprocess has run: a
/// successful run has its captured output forwarded verbatim, and any
/// failure — never distinguished further — yields the generic message.
pub fn run_reply(raw: &str, success: bool, captured: Vec<u8>) -> (r: RunReport)
    ensures
        success ==> (r matches RunReport::Output(b) && b@ == captured@),
        !success ==> (r matches RunReport::Message(m) && m@ == run_failure_message(raw@)),
{
    if success {
        RunReport::Output(captured)
    } else {
        let mut m = String::from_str(raw);
        m.append(": command not found");
        RunReport::Message(m)
    }
}

} // verus!
