use seashell::command::parse_command;
use seashell::command::Builtin;
use seashell::numbers::parse_i32;
use seashell::shell::cd_reply;
use seashell::shell::execute;
use seashell::shell::expand_home;
use seashell::shell::resolve_reply;
use seashell::shell::run_reply;
use seashell::shell::Action;
use seashell::shell::RunReport;
use seashell::shell::ShellContext;
use seashell::tokenizer::join_from;
use seashell::tokenizer::tokenize;

fn parse_line(line: &str) -> Option<Builtin> {
    let toks = tokenize(line);
    let refs: Vec<&str> = toks.iter().map(|t| t.as_str()).collect();
    parse_command(refs)
}

fn ctx_at(dir: &str) -> ShellContext {
    ShellContext {
        current_dir: dir.to_string(),
    }
}

#[test]
fn tokenize_splits_on_whitespace_runs() {
    assert_eq!(tokenize("echo hello   world"), vec!["echo", "hello", "world"]);
    assert_eq!(tokenize("  one\ttwo\none  "), vec!["one", "two", "one"]);
    assert_eq!(tokenize("single"), vec!["single"]);
}

#[test]
fn tokenize_empty_and_blank_lines() {
    assert_eq!(tokenize(""), Vec::<String>::new());
    assert_eq!(tokenize("   \t  "), Vec::<String>::new());
}

#[test]
fn join_rejoins_with_single_spaces() {
    let toks = vec!["a", "bb", "ccc"];
    assert_eq!(join_from(&toks, 0), "a bb ccc");
    assert_eq!(join_from(&toks, 1), "bb ccc");
    assert_eq!(join_from(&toks, 3), "");
}

#[test]
fn echo_prints_rejoined_remainder() {
    let cmd = parse_line("echo hello   world").unwrap();
    assert_eq!(
        cmd,
        Builtin::Echo {
            content: Some("hello world".to_string())
        }
    );
    let a = execute(&cmd, &ctx_at("/"));
    assert_eq!(a, Action::Print("hello world".to_string()));
}

#[test]
fn echo_without_argument_prints_empty_line() {
    let cmd = parse_line("echo").unwrap();
    assert_eq!(cmd, Builtin::Echo { content: None });
    let a = execute(&cmd, &ctx_at("/"));
    assert_eq!(a, Action::Print(String::new()));
}

#[test]
fn exit_with_number_terminates_with_it() {
    let cmd = parse_line("exit 7").unwrap();
    assert_eq!(cmd, Builtin::Exit { code: Some(7) });
    assert_eq!(execute(&cmd, &ctx_at("/")), Action::Terminate(7));
}

#[test]
fn exit_without_or_with_bad_argument_terminates_with_zero() {
    let cmd = parse_line("exit").unwrap();
    assert_eq!(cmd, Builtin::Exit { code: None });
    assert_eq!(execute(&cmd, &ctx_at("/")), Action::Terminate(0));

    let cmd = parse_line("exit notanumber").unwrap();
    assert_eq!(cmd, Builtin::Exit { code: None });
    assert_eq!(execute(&cmd, &ctx_at("/")), Action::Terminate(0));
}

#[test]
fn exit_reads_only_the_first_argument() {
    let cmd = parse_line("exit 3 9").unwrap();
    assert_eq!(cmd, Builtin::Exit { code: Some(3) });
}

#[test]
fn parse_i32_accepts_signs_and_rejects_junk() {
    assert_eq!(parse_i32("0"), Some(0));
    assert_eq!(parse_i32("007"), Some(7));
    assert_eq!(parse_i32("+42"), Some(42));
    assert_eq!(parse_i32("-13"), Some(-13));
    assert_eq!(parse_i32(""), None);
    assert_eq!(parse_i32("-"), None);
    assert_eq!(parse_i32("+"), None);
    assert_eq!(parse_i32("12x"), None);
    assert_eq!(parse_i32(" 1"), None);
}

#[test]
fn parse_i32_respects_the_32_bit_range() {
    assert_eq!(parse_i32("2147483647"), Some(i32::MAX));
    assert_eq!(parse_i32("2147483648"), None);
    assert_eq!(parse_i32("-2147483648"), Some(i32::MIN));
    assert_eq!(parse_i32("-2147483649"), None);
    assert_eq!(parse_i32("99999999999999999999"), None);
}

#[test]
fn type_of_builtin_reports_shell_builtin() {
    let cmd = parse_line("type echo").unwrap();
    assert_eq!(
        cmd,
        Builtin::Type {
            command: Some("echo".to_string())
        }
    );
    let a = execute(&cmd, &ctx_at("/"));
    assert_eq!(a, Action::Print("echo is a shell builtin".to_string()));
}

#[test]
fn type_of_unknown_name_asks_resolver_and_reports_not_found() {
    let cmd = parse_line("type nonexistent_cmd_xyz").unwrap();
    let a = execute(&cmd, &ctx_at("/"));
    assert_eq!(a, Action::Resolve("nonexistent_cmd_xyz".to_string()));
    let line = resolve_reply("nonexistent_cmd_xyz", None);
    assert_eq!(line, "nonexistent_cmd_xyz: not found");
}

#[test]
fn type_of_found_name_reports_its_path() {
    let line = resolve_reply("cat", Some("/usr/bin/cat".to_string()));
    assert_eq!(line, "cat is /usr/bin/cat");
}

#[test]
fn type_without_operand_reports_missing_operand() {
    let cmd = parse_line("type").unwrap();
    assert_eq!(cmd, Builtin::Type { command: None });
    let a = execute(&cmd, &ctx_at("/"));
    assert_eq!(a, Action::Print("type: missing operand".to_string()));
}

#[test]
fn type_reclassifies_its_whole_operand() {
    let cmd = parse_line("type cd somewhere").unwrap();
    let a = execute(&cmd, &ctx_at("/"));
    assert_eq!(a, Action::Print("cd is a shell builtin".to_string()));

    let cmd = parse_line("type cd").unwrap();
    let a = execute(&cmd, &ctx_at("/"));
    assert_eq!(a, Action::Resolve("cd".to_string()));
}

#[test]
fn cd_to_existing_path_updates_pwd() {
    let mut ctx = ctx_at("/start");
    let msg = cd_reply(&mut ctx, "/somewhere/else".to_string(), true);
    assert_eq!(msg, None);
    assert_eq!(ctx.current_dir, "/somewhere/else");
    let a = execute(&Builtin::Pwd, &ctx);
    assert_eq!(a, Action::Print("/somewhere/else".to_string()));
}

#[test]
fn cd_to_missing_path_reports_and_keeps_state() {
    let mut ctx = ctx_at("/start");
    let msg = cd_reply(&mut ctx, "/no/such/dir".to_string(), false);
    assert_eq!(
        msg,
        Some("cd: /no/such/dir: No such file or directory".to_string())
    );
    assert_eq!(ctx.current_dir, "/start");
    let a = execute(&Builtin::Pwd, &ctx);
    assert_eq!(a, Action::Print("/start".to_string()));
}

#[test]
fn cd_arity_falls_through_to_unrecognized() {
    let cmd = parse_line("cd").unwrap();
    assert_eq!(
        cmd,
        Builtin::Invalid {
            attempt: "cd".to_string()
        }
    );
    let cmd = parse_line("cd here there").unwrap();
    assert_eq!(
        cmd,
        Builtin::Invalid {
            attempt: "cd here there".to_string()
        }
    );
}

#[test]
fn cd_with_one_argument_parses_as_change_directory() {
    let cmd = parse_line("cd /somewhere").unwrap();
    assert_eq!(
        cmd,
        Builtin::Cd {
            path: Some("/somewhere".to_string())
        }
    );
}

#[test]
fn pwd_with_arguments_falls_through_to_unrecognized() {
    let cmd = parse_line("pwd now").unwrap();
    assert_eq!(
        cmd,
        Builtin::Invalid {
            attempt: "pwd now".to_string()
        }
    );
}

#[test]
fn pwd_prints_the_tracked_directory() {
    let cmd = parse_line("pwd").unwrap();
    assert_eq!(cmd, Builtin::Pwd);
    let a = execute(&cmd, &ctx_at("/tracked/here"));
    assert_eq!(a, Action::Print("/tracked/here".to_string()));
}

#[test]
fn expand_home_replaces_every_tilde() {
    assert_eq!(expand_home("~/notes", "/home/u"), "/home/u/notes");
    assert_eq!(expand_home("a~b~", "H"), "aHbH");
    assert_eq!(expand_home("/plain/path", "/home/u"), "/plain/path");
    assert_eq!(expand_home("~", ""), "");
}

#[test]
fn empty_line_parses_to_nothing() {
    assert_eq!(parse_line(""), None);
    assert_eq!(parse_line("   "), None);
}

#[test]
fn unknown_command_is_run_with_its_rejoined_text() {
    let cmd = parse_line("frobnicate  --fast  now").unwrap();
    assert_eq!(
        cmd,
        Builtin::Invalid {
            attempt: "frobnicate --fast now".to_string()
        }
    );
    let a = execute(&cmd, &ctx_at("/"));
    assert_eq!(a, Action::Run("frobnicate --fast now".to_string()));
}

#[test]
fn successful_subprocess_output_is_forwarded_verbatim() {
    let out = vec![104u8, 105u8, 10u8];
    let r = run_reply("hi-printer", true, out.clone());
    assert_eq!(r, RunReport::Output(out));
}

#[test]
fn failing_subprocess_reports_command_not_found() {
    let r = run_reply("false-equivalent", false, Vec::new());
    assert_eq!(
        r,
        RunReport::Message("false-equivalent: command not found".to_string())
    );
}

#[test]
fn handle_names_each_command() {
    assert_eq!(Builtin::Pwd.handle(), "pwd");
    assert_eq!(Builtin::Echo { content: None }.handle(), "echo");
    assert_eq!(
        Builtin::Invalid {
            attempt: "whatever it was".to_string()
        }
        .handle(),
        "whatever it was"
    );
}

#[test]
fn reparse_of_rejoined_echo_content_is_stable() {
    let cmd = parse_line("echo a   b\t c").unwrap();
    let content = match cmd {
        Builtin::Echo { content: Some(c) } => c,
        other => panic!("expected echo with content, got {:?}", other),
    };
    assert_eq!(content, "a b c");
    let again = parse_line(&format!("echo {}", content)).unwrap();
    assert_eq!(
        again,
        Builtin::Echo {
            content: Some(content)
        }
    );
}

#[test]
fn reparse_of_rejoined_type_target_is_stable() {
    let cmd = parse_line("type  ls   -l").unwrap();
    let target = match cmd {
        Builtin::Type { command: Some(t) } => t,
        other => panic!("expected type with target, got {:?}", other),
    };
    assert_eq!(target, "ls -l");
    let again = parse_line(&format!("type {}", target)).unwrap();
    assert_eq!(
        again,
        Builtin::Type {
            command: Some(target)
        }
    );
}

#[test]
fn type_of_whitespace_only_target_is_invalid_command() {
    let cmd = Builtin::Type {
        command: Some("   ".to_string()),
    };
    let a = execute(&cmd, &ctx_at("/"));
    assert_eq!(a, Action::Print("invalid command".to_string()));
}

#[test]
fn exit_accepts_negative_codes() {
    let cmd = parse_line("exit -5").unwrap();
    assert_eq!(cmd, Builtin::Exit { code: Some(-5) });
    assert_eq!(execute(&cmd, &ctx_at("/")), Action::Terminate(-5));
}

#[test]
fn cd_without_path_asks_for_one() {
    let cmd = Builtin::Cd { path: None };
    let a = execute(&cmd, &ctx_at("/"));
    assert_eq!(a, Action::Print("you must inform a path".to_string()));
}
