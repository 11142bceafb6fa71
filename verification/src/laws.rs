//! The interpreter's cross-cutting guarantees, stated once over the spec
//! functions that the executable contracts are written against.

use vstd::prelude::*;
use crate::command::CommandView;
use crate::command::parse_spec;
use crate::numbers::parse_i32_spec;
use crate::shell::Action;
use crate::shell::execute_spec;
use crate::tokenizer::join_spec;
use crate::tokenizer::lemma_tokens_of_join;
use crate::tokenizer::tokens_of;
use crate::tokenizer::wf_tokens;

verus! {

broadcast use vstd::string::group_string_axioms;

/// Any line beginning with `echo` prints exactly the remaining tokens
/// rejoined with single spaces, or empty text when there are none.
pub proof fn lemma_echo_prints_rejoined(
    ts: Seq<Seq<char>>,
    c: CommandView,
    dir: Seq<char>,
    a: Action,
)
    requires
        ts.len() > 0,
        ts[0] == "echo"@,
        parse_spec(ts) == Some(c),
        execute_spec(c, dir, a),
    ensures
        a matches Action::Print(l) && l@ == (if ts.len() == 1 {
            Seq::<char>::empty()
        } else {
            join_spec(ts.drop_first())
        }),
{
}

/// Any line beginning with `exit` terminates the process with its first
/// remaining token read as a signed 32-bit integer, and with zero when
/// that token is missing or unparseable.
pub proof fn lemma_exit_code(ts: Seq<Seq<char>>, c: CommandView, dir: Seq<char>, a: Action)
    requires
        ts.len() > 0,
        ts[0] == "exit"@,
        parse_spec(ts) == Some(c),
        execute_spec(c, dir, a),
    ensures
        a matches Action::Terminate(n) && n as int == (if ts.len() >= 2 {
            match parse_i32_spec(ts[1]) {
                Some(v) => v,
                None => 0,
            }
        } else {
            0
        }),
{
    reveal_strlit("echo");
    reveal_strlit("exit");
    assert("exit"@.len() == 4);
    assert("exit"@[1] == 'x');
    assert("echo"@[1] == 'c');
    assert("exit"@ != "echo"@);
}

/// `cd` accepts exactly one argument: under any other arity a line
/// beginning with `cd` falls through to the catch-all and is treated as
/// an unrecognized command carrying the whole input rejoined, never as a
/// change of directory.
pub proof fn lemma_cd_arity(ts: Seq<Seq<char>>)
    requires
        ts.len() > 0,
        ts[0] == "cd"@,
        ts.len() != 2,
    ensures
        parse_spec(ts) == Some(CommandView::Invalid { attempt: join_spec(ts) }),
{
    reveal_strlit("cd");
    reveal_strlit("echo");
    reveal_strlit("exit");
    reveal_strlit("type");
    reveal_strlit("pwd");
    assert("cd"@.len() == 2);
    assert("echo"@.len() == 4);
    assert("exit"@.len() == 4);
    assert("type"@.len() == 4);
    assert("pwd"@.len() == 3);
    assert(ts[0] != "echo"@ && ts[0] != "exit"@ && ts[0] != "type"@ && ts[0] != "pwd"@);
}

/// Rejoining any well-formed token sequence with single spaces and
/// running the result back through the tokenizer and the parser
/// reproduces the tokens, and with them an equivalent command — the
/// round trip through `echo`'s or `type`'s joined argument loses nothing.
pub proof fn lemma_reparse_round_trip(ts: Seq<Seq<char>>)
    requires
        wf_tokens(ts),
    ensures
        tokens_of(join_spec(ts)) == ts,
        parse_spec(tokens_of(join_spec(ts))) == parse_spec(ts),
{
    lemma_tokens_of_join(ts);
}

/// After a successful change of directory — `cd_reply` installed the
/// expanded path as the tracked directory — a `pwd` decided against the
/// updated state prints exactly that path.
pub proof fn lemma_cd_then_pwd(expanded: Seq<char>, new_dir: Seq<char>, a: Action)
    requires
        new_dir == expanded,
        execute_spec(CommandView::Pwd, new_dir, a),
    ensures
        a matches Action::Print(l) && l@ == expanded,
{
}

} // verus!

