//! The typed commands of the interpreter and the parser that maps a token
//! sequence to one of them.

use vstd::prelude::*;
use crate::numbers::parse_i32;
use crate::numbers::parse_i32_spec;
use crate::tokenizer::join_from;
use crate::tokenizer::join_spec;

verus! {

/// A parsed command: one of the interpreter's builtins, or the fallback
/// that carries the raw rejoined input as a candidate external program.
#[derive(Debug, PartialEq)]
pub enum Builtin {
    Echo { content: Option<String> },
    Exit { code: Option<i32> },
    Type { command: Option<String> },
    Cd { path: Option<String> },
    Pwd,
    Invalid { attempt: String },
}

/// The mathematical shape of a command: each text payload as a character
/// sequence and the exit code as an unbounded integer.
pub enum CommandView {
    Echo { content: Option<Seq<char>> },
    Exit { code: Option<int> },
    Type { command: Option<Seq<char>> },
    Cd { path: Option<Seq<char>> },
    Pwd,
    Invalid { attempt: Seq<char> },
}

impl View for Builtin {
    type V = CommandView;

    open spec fn view(&self) -> CommandView {
        match self {
            Builtin::Echo { content } => CommandView::Echo { content: content.deep_view() },
            Builtin::Exit { code } => CommandView::Exit {
                code: match code {
                    Some(n) => Some(*n as int),
                    None => None,
                },
            },
            Builtin::Type { command } => CommandView::Type { command: command.deep_view() },
            Builtin::Cd { path } => CommandView::Cd { path: path.deep_view() },
            Builtin::Pwd => CommandView::Pwd,
            Builtin::Invalid { attempt } => CommandView::Invalid { attempt: attempt@ },
        }
    }
}

/// The name a command answers to: its leading keyword, or, for the
/// fallback, the raw attempted input itself.
pub open spec fn handle_spec(c: CommandView) -> Seq<char> {
    match c {
        CommandView::Echo { .. } => "echo"@,
        CommandView::Exit { .. } => "exit"@,
        CommandView::Type { .. } => "type"@,
        CommandView::Cd { .. } => "cd"@,
        CommandView::Pwd => "pwd"@,
        CommandView::Invalid { attempt } => attempt,
    }
}

impl Builtin {
    /// The name this command answers to.
    pub fn handle(&self) -> (r: &str)
        ensures
            r@ == handle_spec(self@),
    {
        match self {
            Builtin::Echo { .. } => "echo",
            Builtin::Exit { .. } => "exit",
            Builtin::Type { .. } => "type",
            Builtin::Cd { .. } => "cd",
            Builtin::Pwd => "pwd",
            Builtin::Invalid { attempt } => attempt.as_str(),
        }
    }
}

/// What a token sequence parses to. Matching goes by the first token:
/// `echo` and `type` take their remaining tokens rejoined (absent when
/// there are none); `exit` reads its first remaining token as a signed
/// 32-bit integer, silently absent when missing or unparseable; `cd`
/// demands exactly one remaining token and `pwd` none, any other arity
/// falling through to the catch-all; everything else becomes the fallback
/// carrying the whole input rejoined. An empty sequence parses to nothing.
pub open spec fn parse_spec(ts: Seq<Seq<char>>) -> Option<CommandView> {
    if ts.len() == 0 {
        None
    } else if ts[0] == "echo"@ {
        Some(
            CommandView::Echo {
                content: if ts.len() == 1 {
                    None
                } else {
                    Some(join_spec(ts.drop_first()))
                },
            },
        )
    } else if ts[0] == "exit"@ {
        Some(
            CommandView::Exit {
                code: if ts.len() >= 2 {
                    parse_i32_spec(ts[1])
                } else {
                    None
                },
            },
        )
    } else if ts[0] == "type"@ {
        Some(
            CommandView::Type {
                command: if ts.len() == 1 {
                    None
                } else {
                    Some(join_spec(ts.drop_first()))
                },
            },
        )
    } else if ts[0] == "cd"@ && ts.len() == 2 {
        Some(CommandView::Cd { path: Some(ts[1]) })
    } else if ts[0] == "pwd"@ && ts.len() == 1 {
        Some(CommandView::Pwd)
    } else {
        Some(CommandView::Invalid { attempt: join_spec(ts) })
    }
}

/// Character-by-character string equality, specified against the views.
pub fn str_eq(a: &str, b: &str) -> (r: bool)
    ensures
        r == (a@ == b@),
{
    let na = a.unicode_len();
    let nb = b.unicode_len();
    if na != nb {
        return false;
    }
    let mut i: usize = 0;
    while i < na
        invariant
            na == a@.len(),
            nb == b@.len(),
            na == nb,
            i <= na,
            forall|k: int| 0 <= k < i ==> a@[k] == b@[k],
        decreases na - i,
    {
        if a.get_char(i) != b.get_char(i) {
            return false;
        }
        i = i + 1;
    }
    proof {
        assert(a@ =~= b@);
    }
    true
}

/// Maps a token sequence to the command it denotes, or to nothing when
/// the sequence is empty (the caller re-prompts without any effect).
pub fn parse_command(tokens: Vec<&str>) -> (r: Option<Builtin>)
    ensures
        match r {
            Some(b) => parse_spec(tokens.deep_view()) == Some(b@),
            None => parse_spec(tokens.deep_view()) is None,
        },
{
    let ghost ts = tokens.deep_view();
    proof {
        assert(ts.len() == tokens@.len());
    }
    if tokens.len() == 0 {
        return None;
    }
    proof {
        assert(ts.skip(1) =~= ts.drop_first());
        assert(ts.skip(0) =~= ts);
    }
    let head = tokens[0];
    if str_eq(head, "echo") {
        let content = if tokens.len() == 1 {
            None
        } else {
            Some(join_from(&tokens, 1))
        };
        Some(Builtin::Echo { content })
    } else if str_eq(head, "exit") {
        let code = if tokens.len() >= 2 {
            parse_i32(tokens[1])
        } else {
            None
        };
        Some(Builtin::Exit { code })
    } else if str_eq(head, "type") {
        let command = if tokens.len() == 1 {
            None
        } else {
            Some(join_from(&tokens, 1))
        };
        Some(Builtin::Type { command })
    } else if str_eq(head, "cd") && tokens.len() == 2 {
        Some(Builtin::Cd { path: Some(String::from_str(tokens[1])) })
    } else if str_eq(head, "pwd") && tokens.len() == 1 {
        Some(Builtin::Pwd)
    } else {
        Some(Builtin::Invalid { attempt: join_from(&tokens, 0) })
    }
}

} // verus!
