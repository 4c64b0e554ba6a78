use carapace::command::cd_command::CdCommand;
use carapace::command::dirs_command::DirsCommand;
use carapace::command::exit_command::ExitCommand;
use carapace::command::export_command::ExportCommand;
use carapace::command::general_command::GeneralCommand;
use carapace::command::hash_command::HashCommand;
use carapace::command::history_command::HistoryCommand;
use carapace::command::popd_command::PopdCommand;
use carapace::command::pushd_command::PushdCommand;
use carapace::command::quit_command::QuitCommand;
use carapace::command::rehash_command::RehashCommand;
use carapace::command::unset_command::UnsetCommand;
use carapace::command::{
    builtins, execute, parse, request, Command, CommandAliases, HistoryAction, Reply, Request,
};
use carapace::context::ContextData;
use carapace::prompt::{CommandArgsSplitError, EofError, NoCommandError, PromptError};

fn strings(words: &[&str]) -> Vec<String> {
    words.iter().map(|w| w.to_string()).collect()
}

#[test]
fn exit_cmd_no_args_is_zero() {
    let cmd = ExitCommand::new(vec![]);
    assert!(cmd.usage.is_none());
    assert_eq!(cmd.code, 0);
}

#[test]
fn exit_cmd_invalid_arg() {
    let cmd = ExitCommand::new(vec![String::from("abc")]);
    assert!(cmd.usage.is_some());
}

#[test]
fn exit_cmd_valid_arg() {
    let cmd = ExitCommand::new(vec![String::from("42")]);
    assert!(cmd.usage.is_none());
    assert_eq!(cmd.code, 42);
}

#[test]
fn exit_cmd_execute_returns_code() {
    let mut ctx = ContextData::default();
    let mut cmd = ExitCommand::new(vec![String::from("42")]);
    let res = cmd.execute(&mut ctx).result;
    assert!(res.is_err());
    assert_eq!(res.err().unwrap(), 42);
}

#[test]
fn quit_cmd_execute_returns_zero() {
    let mut ctx = ContextData::default();
    let mut cmd = QuitCommand {};
    let res = cmd.execute(&mut ctx).result;
    assert!(res.is_err());
    assert_eq!(res.err().unwrap(), 0);
}

#[test]
fn cd_cmd_no_args_is_tilde() {
    let cmd = CdCommand::new("cd".to_string(), vec![]);
    assert_eq!(cmd.path, "~");
}

#[test]
fn cd_cmd_valid_arg() {
    let cmd = CdCommand::new("cd".to_string(), vec![String::from("/tmp")]);
    assert_eq!(cmd.path, "/tmp");
}

#[test]
fn general_cmd_new() {
    let prog = String::from("prog");
    let args = vec![String::from("arg")];
    let cmd = GeneralCommand::new(prog.clone(), args.clone());
    assert_eq!(cmd.program, prog);
    assert_eq!(cmd.args, args);
}

#[test]
fn general_command_new() {
    let prog = String::from("prog");
    let args = vec![String::from("arg")];
    let cmd = GeneralCommand::new(prog.clone(), args.clone());
    assert_eq!(cmd.program, prog);
    assert_eq!(cmd.args, args);
}

#[test]
fn parse_command_quit() {
    let cmd = parse(String::from("quit"), vec![]);
    assert!(matches!(cmd, Command::Quit(_)));
}

#[test]
fn parse_command_exit() {
    let cmd = parse(String::from("exit"), vec![]);
    match cmd {
        Command::Exit(cmd) => assert_eq!(cmd.code, 0),
        _ => panic!("exit expected"),
    }
}

#[test]
fn parse_command_cd() {
    let cmd = parse(String::from("cd"), vec![]);
    match cmd {
        Command::Cd(cmd) => assert_eq!(cmd.path, "~"),
        _ => panic!("cd expected"),
    }
}

#[test]
fn parse_command_general() {
    let prog = String::from("ls");
    let args = vec![String::from("-lh"), String::from("~/git")];
    let cmd = parse(prog.clone(), args.clone());
    match cmd {
        Command::General(cmd) => {
            assert_eq!(cmd.program, prog);
            assert_eq!(cmd.args, args);
        }
        _ => panic!("general command expected"),
    }
}

#[test]
fn check_builtins() {
    // The order is important!
    let cmds: Vec<String> = vec![
        "cd", "dirs", "exit", "export", "hash", "h", "hist", "history", "popd", "pushd", "quit",
        "rehash", "set", "unset",
    ]
    .into_iter()
    .map(|x| x.to_string())
    .collect();
    assert_eq!(cmds, builtins());
}

#[test]
fn builtins_are_the_aliases_of_the_commands() {
    assert_eq!(CdCommand::aliases(), vec!["cd"]);
    assert_eq!(HistoryCommand::aliases(), vec!["h", "hist", "history"]);
    assert_eq!(PopdCommand::aliases(), vec!["popd"]);
    assert_eq!(builtins().len(), 14);
    for name in builtins() {
        assert!(!matches!(parse(name, vec![]), Command::General(_)));
    }
}

#[test]
fn parse_quit() {
    let cmd = parse(String::from("quit"), vec![]);
    assert!(matches!(cmd, Command::Quit(_)));
}

#[test]
fn parse_exit() {
    let cmd = parse(String::from("exit"), vec![]);
    match cmd {
        Command::Exit(cmd) => assert_eq!(cmd.code, 0),
        _ => panic!("exit expected"),
    }
}

#[test]
fn parse_cd() {
    let cmd = parse(String::from("cd"), vec![]);
    match cmd {
        Command::Cd(cmd) => assert_eq!(cmd.path, "~"),
        _ => panic!("cd expected"),
    }
}

#[test]
fn parse_history() {
    let cmd = parse(String::from("history"), vec![]);
    assert!(matches!(cmd, Command::History(_)));
}

#[test]
fn parse_history_hist() {
    let cmd = parse(String::from("hist"), vec![]);
    assert!(matches!(cmd, Command::History(_)));
}

#[test]
fn parse_history_h() {
    let cmd = parse(String::from("h"), vec![]);
    assert!(matches!(cmd, Command::History(_)));
}

#[test]
fn parse_general() {
    let prog = String::from("ls");
    let args = vec![String::from("-lh"), String::from("~/git")];
    let cmd = parse(prog.clone(), args.clone());
    match cmd {
        Command::General(cmd) => {
            assert_eq!(cmd.program, prog);
            assert_eq!(cmd.args, args);
        }
        _ => panic!("general command expected"),
    }
}

#[test]
fn parse_set() {
    let cmd = parse(String::from("set"), vec![]);
    assert!(matches!(cmd, Command::SetOptions(_)));
}

#[test]
fn parse_unset() {
    let cmd = parse(String::from("unset"), vec![]);
    assert!(matches!(cmd, Command::Unset(_)));
}

#[test]
fn parse_export() {
    let cmd = parse(String::from("export"), vec![]);
    assert!(matches!(cmd, Command::Export(_)));
}

#[test]
fn parse_rehash() {
    let cmd = parse(String::from("rehash"), vec![]);
    assert!(matches!(cmd, Command::Rehash(_)));
}

#[test]
fn parse_directory_commands() {
    assert!(matches!(parse(String::from("pushd"), vec![]), Command::Pushd(_)));
    assert!(matches!(parse(String::from("popd"), vec![]), Command::Popd(_)));
    assert!(matches!(parse(String::from("dirs"), vec![]), Command::Dirs(_)));
    assert!(matches!(parse(String::from("hash"), vec![]), Command::Hash(_)));
    assert!(matches!(parse(String::from("Cd"), vec![]), Command::General(_)));
}

#[test]
fn no_args_is_tilde() {
    let cmd = CdCommand::new("cd".to_string(), vec![]);
    assert_eq!(cmd.path, "~");
}

#[test]
fn cd_command_valid_arg() {
    let cmd = CdCommand::new("cd".to_string(), vec![String::from("/tmp")]);
    assert_eq!(cmd.path, "/tmp");
}

#[test]
fn cd_asks_for_the_home_directory() {
    let mut ctx = ContextData::default();
    ctx.home_dir = "/home/me".to_string();
    let cmd = CdCommand::new("cd".to_string(), vec![]);
    assert!(matches!(cmd.request(&ctx), Request::ChangeDir(dir) if dir == "/home/me"));
    let cmd = CdCommand::new("cd".to_string(), strings(&["/tmp"]));
    assert!(matches!(cmd.request(&ctx), Request::ChangeDir(dir) if dir == "/tmp"));
}

#[test]
fn cd_records_the_directory_left() {
    let mut ctx = ContextData::default();
    let mut cmd = CdCommand::new("cd".to_string(), strings(&["/tmp"]));
    let o = cmd.execute(&mut ctx, &Reply::Moved("/home/me".to_string()));
    assert_eq!(o.result, Ok(true));
    assert_eq!(o.output, "");
    assert_eq!(ctx.env.get("OLDPWD"), Some(&"/home/me".to_string()));
    assert!(ctx.dir_stack.is_empty());
}

#[test]
fn cd_to_the_same_directory_changes_nothing() {
    let mut ctx = ContextData::default();
    let mut cmd = CdCommand::new("cd".to_string(), strings(&["."]));
    let o = cmd.execute(&mut ctx, &Reply::Stayed);
    assert_eq!(o.result, Ok(true));
    assert!(!ctx.env.contains_key("OLDPWD"));
}

#[test]
fn cd_tells_of_a_failure() {
    let mut ctx = ContextData::default();
    let mut cmd = CdCommand::new("cd".to_string(), strings(&["/nowhere"]));
    let o = cmd.execute(&mut ctx, &Reply::Failed("No such file or directory".to_string()));
    assert_eq!(o.result, Ok(true));
    assert_eq!(o.output, "Could not change to /nowhere: No such file or directory\n");
    assert!(!ctx.env.contains_key("OLDPWD"));
}

#[test]
fn cd_refuses_unknown_flags() {
    let mut ctx = ContextData::default();
    let mut cmd = CdCommand::new("cd".to_string(), strings(&["--nope"]));
    assert!(cmd.usage.is_some());
    assert!(matches!(cmd.request(&ctx), Request::Nothing));
    let o = cmd.execute(&mut ctx, &Reply::Nothing);
    assert_eq!(o.result, Ok(false));
    assert!(!o.output.is_empty());
    let mut cmd = CdCommand::new("cd".to_string(), strings(&["a", "b"]));
    assert_eq!(cmd.execute(&mut ctx, &Reply::Nothing).result, Ok(false));
}

#[test]
fn no_args_is_none_path() {
    let cmd = PushdCommand::new(vec![]);
    assert_eq!(cmd.path, None);
}

#[test]
fn arg_is_path() {
    let dir = String::from("dir");
    let cmd = PushdCommand::new(vec![dir.clone()]);
    assert_eq!(cmd.path, Some(dir));
}

#[test]
fn pushd_pushes_the_directory_left() {
    let mut ctx = ContextData::default();
    let mut cmd = PushdCommand::new(strings(&["/tmp"]));
    assert!(matches!(cmd.request(&ctx), Request::ChangeDir(dir) if dir == "/tmp"));
    let o = cmd.execute(&mut ctx, &Reply::Moved("/a".to_string()));
    assert_eq!(o.result, Ok(true));
    assert_eq!(ctx.dir_stack, vec!["/a"]);
    assert_eq!(o.output, "/a\n");
    assert_eq!(ctx.env.get("OLDPWD"), Some(&"/a".to_string()));

    let o = cmd.execute(&mut ctx, &Reply::Moved("/b".to_string()));
    assert_eq!(ctx.dir_stack, vec!["/a", "/b"]);
    assert_eq!(o.output, "[/b] /a\n");
}

#[test]
fn pushd_never_leaves_the_top_twice() {
    let mut ctx = ContextData::default();
    let mut cmd = PushdCommand::new(strings(&["/tmp"]));
    cmd.execute(&mut ctx, &Reply::Moved("/a".to_string()));
    cmd.execute(&mut ctx, &Reply::Moved("/a".to_string()));
    assert_eq!(ctx.dir_stack, vec!["/a"]);
    cmd.execute(&mut ctx, &Reply::Moved("/b".to_string()));
    cmd.execute(&mut ctx, &Reply::Moved("/a".to_string()));
    assert_eq!(ctx.dir_stack, vec!["/a", "/b", "/a"]);
}

#[test]
fn pushd_without_path_goes_home() {
    let mut ctx = ContextData::default();
    ctx.home_dir = "/home/me".to_string();
    let cmd = PushdCommand::new(vec![]);
    assert!(matches!(cmd.request(&ctx), Request::ChangeDir(dir) if dir == "/home/me"));
}

#[test]
fn cd_called_as_pushd_pushes() {
    let mut ctx = ContextData::default();
    let mut cmd = CdCommand::new("pushd".to_string(), strings(&["/tmp"]));
    let o = cmd.execute(&mut ctx, &Reply::Moved("/a".to_string()));
    assert_eq!(ctx.dir_stack, vec!["/a"]);
    assert_eq!(o.output, "/a\n");
}

#[test]
fn popd_takes_the_top() {
    let mut ctx = ContextData::default();
    ctx.dir_stack = strings(&["/a", "/b", "/c"]);
    let mut cmd = PopdCommand;
    assert!(matches!(cmd.request(&ctx), Request::ChangeDir(dir) if dir == "/c"));
    let o = cmd.execute(&mut ctx, &Reply::Moved("/x".to_string()));
    assert_eq!(o.result, Ok(true));
    assert_eq!(ctx.dir_stack, vec!["/a", "/b"]);
    assert_eq!(o.output, "[/b] /a\n");
    assert_eq!(ctx.env.get("OLDPWD"), Some(&"/x".to_string()));
}

#[test]
fn popd_on_empty_stack() {
    let mut ctx = ContextData::default();
    let mut cmd = PopdCommand;
    assert!(matches!(cmd.request(&ctx), Request::Nothing));
    let o = cmd.execute(&mut ctx, &Reply::Nothing);
    assert_eq!(o.result, Ok(true));
    assert_eq!(o.output, "Directory stack is empty\n");
    assert!(ctx.dir_stack.is_empty());
}

#[test]
fn dirs_shows_the_stack() {
    let mut ctx = ContextData::default();
    let mut cmd = DirsCommand::new(vec![]);
    assert_eq!(cmd.execute(&mut ctx).output, "Directory stack is empty\n");
    ctx.dir_stack = strings(&["/a", "/b", "/c"]);
    let o = cmd.execute(&mut ctx);
    assert_eq!(o.result, Ok(true));
    assert_eq!(o.output, "[/c] /b /a\n");
    let mut cmd = DirsCommand::new(strings(&["-v"]));
    assert!(cmd.verbose);
    assert_eq!(cmd.execute(&mut ctx).output, "0>\t/c\n1 \t/b\n2 \t/a\n");
    let mut cmd = DirsCommand::new(strings(&["-x"]));
    assert_eq!(cmd.execute(&mut ctx).result, Ok(false));
}

#[test]
fn no_args_is_zero() {
    let cmd = ExitCommand::new(vec![]);
    assert_eq!(cmd.code, 0);
}

#[test]
fn invalid_arg() {
    let cmd = ExitCommand::new(vec![String::from("abc")]);
    assert_eq!(cmd.code, 0);
}

#[test]
fn exit_command_valid_arg() {
    let cmd = ExitCommand::new(vec![String::from("42")]);
    assert_eq!(cmd.code, 42);
}

#[test]
fn previous_cmd_exit_code() {
    let mut ctx = ContextData::default();
    ctx.env.insert("?".to_string(), "1".to_string());

    let mut cmd = ExitCommand::new(vec![]);
    let res = cmd.execute(&mut ctx).result;
    assert!(res.is_err());
    assert_eq!(1, res.unwrap_err());
    assert_eq!(cmd.code, 1)
}

#[test]
fn previous_exit_code_with_exit_arg() {
    let mut ctx = ContextData::default();
    ctx.env.insert("?".to_string(), "0".to_string());

    // Set the exit status code explicitly, which should ignore the previous
    // command exit code stored in $? and return the exit status arg.
    let mut cmd = ExitCommand::new(vec!["2".to_string()]);
    let res = cmd.execute(&mut ctx).result;
    assert!(res.is_err());
    assert_eq!(2, res.unwrap_err());
    assert_eq!(cmd.code, 2)
}

#[test]
fn exit_with_invalid_arg_does_not_end_the_shell() {
    let mut ctx = ContextData::default();
    let mut cmd = ExitCommand::new(strings(&["abc"]));
    let o = cmd.execute(&mut ctx);
    assert_eq!(o.result, Ok(false));
    assert_eq!(o.output, "Exit code must be an integer!\n");
    let mut cmd = ExitCommand::new(strings(&["1", "2"]));
    assert_eq!(cmd.execute(&mut ctx).result, Ok(false));
    let mut cmd = ExitCommand::new(strings(&["99999999999"]));
    assert_eq!(cmd.execute(&mut ctx).result, Ok(false));
    let mut cmd = ExitCommand::new(strings(&["--", "-3"]));
    assert_eq!(cmd.execute(&mut ctx).result, Err(-3));
    let mut cmd = ExitCommand::new(strings(&["+7"]));
    assert_eq!(cmd.execute(&mut ctx).result, Err(7));
}

#[test]
fn exit_without_usable_previous_code() {
    let mut ctx = ContextData::default();
    let mut cmd = ExitCommand::new(vec![]);
    assert_eq!(cmd.execute(&mut ctx).result, Err(0));
    ctx.env.insert("?".to_string(), "none".to_string());
    assert_eq!(cmd.execute(&mut ctx).result, Err(0));
    ctx.env.insert("?".to_string(), "-2".to_string());
    assert_eq!(cmd.execute(&mut ctx).result, Err(-2));
}

#[test]
fn hash_command_new() {
    let args = vec![String::from("arg")];
    let cmd = HashCommand::new(args.clone());
    assert_eq!(cmd.args, args);
}

#[test]
fn rehash() {
    let mut ctx = ContextData::default();
    assert!(ctx.commands.is_empty());
    ctx.env.insert("PATH".to_string(), "/bin::/usr/bin".to_string());

    let mut cmd = HashCommand::new(vec!["-r".to_string()]);
    match cmd.request(&ctx) {
        Request::Scan(dirs) => assert_eq!(dirs, vec!["/bin", "/usr/bin"]),
        _ => panic!("scan expected"),
    }
    let res = cmd.execute(&mut ctx, &Reply::Found(strings(&["ls", "cat"]))).result;
    assert!(res.unwrap());
    assert!(!ctx.commands.is_empty());
    assert!(ctx.commands.contains("ls"));
}

#[test]
fn command_unknown() {
    let mut ctx = ContextData::default();
    assert!(ctx.commands.is_empty());

    let mut cmd = HashCommand::new(vec!["command".to_string()]);
    assert!(matches!(cmd.request(&ctx), Request::Nothing));
    let res = cmd.execute(&mut ctx, &Reply::Nothing).result;
    assert!(!res.unwrap());

    let env = &ctx.env;
    assert!(env.contains_key("?"));
    assert_eq!("1", env.get("?").unwrap());
}

#[test]
fn command_known() {
    let mut ctx = ContextData::default();
    ctx.commands.insert("command".to_string());

    let mut cmd = HashCommand::new(vec!["command".to_string()]);
    let res = cmd.execute(&mut ctx, &Reply::Nothing).result;
    assert!(res.unwrap());

    let env = &ctx.env;
    assert!(env.contains_key("?"));
    assert_eq!("0", env.get("?").unwrap());
}

#[test]
fn hash_without_arguments_does_nothing() {
    let mut ctx = ContextData::default();
    let mut cmd = HashCommand::new(vec![]);
    assert_eq!(cmd.execute(&mut ctx, &Reply::Nothing).result, Ok(true));
    assert!(!ctx.env.contains_key("?"));
    let mut cmd = HashCommand::new(strings(&["--nope"]));
    assert_eq!(cmd.execute(&mut ctx, &Reply::Nothing).result, Ok(false));
    let mut cmd = HashCommand::new(strings(&["--rehash"]));
    assert!(cmd.rehash);
    ctx.commands.insert("old".to_string());
    assert_eq!(cmd.execute(&mut ctx, &Reply::Nothing).result, Ok(true));
    assert!(ctx.commands.is_empty());
}

#[test]
fn rehash_command_takes_what_was_found() {
    let mut ctx = ContextData::default();
    ctx.commands.insert("old".to_string());
    let mut cmd = RehashCommand;
    match cmd.request(&ctx) {
        Request::Scan(dirs) => assert!(dirs.is_empty()),
        _ => panic!("scan expected"),
    }
    let o = cmd.execute(&mut ctx, &Reply::Found(strings(&["new"])));
    assert_eq!(o.result, Ok(true));
    assert!(ctx.commands.contains("new"));
    assert!(!ctx.commands.contains("old"));
}

#[test]
fn export_sets_variables() {
    let mut ctx = ContextData::default();
    let mut cmd = ExportCommand::new(strings(&["A=1", "B", "C=x=y", "=z"]));
    let o = cmd.execute(&mut ctx);
    assert_eq!(o.result, Ok(true));
    assert_eq!(ctx.env.get("A"), Some(&"1".to_string()));
    assert_eq!(ctx.env.get("B"), Some(&"".to_string()));
    assert_eq!(ctx.env.get("C"), Some(&"x=y".to_string()));
    assert_eq!(ctx.env.get(""), Some(&"z".to_string()));
}

#[test]
fn export_lists_variables_sorted() {
    let mut ctx = ContextData::default();
    ctx.env.insert("b".to_string(), "2".to_string());
    ctx.env.insert("a".to_string(), "1".to_string());
    let mut cmd = ExportCommand::new(vec![]);
    let o = cmd.execute(&mut ctx);
    assert_eq!(o.result, Ok(true));
    assert_eq!(o.output, "a=1\nb=2\n");
}

#[test]
fn export_refuses_flags() {
    let mut ctx = ContextData::default();
    let mut cmd = ExportCommand::new(strings(&["-x", "A=1"]));
    assert_eq!(cmd.execute(&mut ctx).result, Ok(false));
    assert!(!ctx.env.contains_key("A"));
}

#[test]
fn unset_removes_variables() {
    let mut ctx = ContextData::default();
    ctx.env.insert("A".to_string(), "1".to_string());
    ctx.env.insert("B".to_string(), "2".to_string());
    ctx.env.insert("C".to_string(), "3".to_string());
    let mut cmd = UnsetCommand::new(strings(&["A", "C", "D"]));
    assert_eq!(cmd.execute(&mut ctx).result, Ok(true));
    assert!(!ctx.env.contains_key("A"));
    assert!(ctx.env.contains_key("B"));
    assert!(!ctx.env.contains_key("C"));
}

#[test]
fn history_actions() {
    let ctx = ContextData::default();
    let cmd = HistoryCommand::new(vec![]);
    assert!(matches!(cmd.request(&ctx), Request::History(HistoryAction::List)));
    let cmd = HistoryCommand::new(strings(&["-c"]));
    assert!(matches!(cmd.request(&ctx), Request::History(HistoryAction::Clear)));
    let cmd = HistoryCommand::new(strings(&["--write"]));
    assert!(matches!(cmd.request(&ctx), Request::History(HistoryAction::Write)));
    let cmd = HistoryCommand::new(strings(&["-z"]));
    assert!(matches!(cmd.request(&ctx), Request::Nothing));
}

#[test]
fn history_shows_numbered_lines() {
    let mut ctx = ContextData::default();
    let mut cmd = HistoryCommand::new(vec![]);
    let o = cmd.execute(&mut ctx, &Reply::Lines(strings(&["ls", "cd /tmp"])));
    assert_eq!(o.result, Ok(true));
    assert_eq!(o.output, format!("{:4}: {}\n{:4}: {}\n", 1, "ls", 2, "cd /tmp"));
    assert_eq!(o.output, "   1: ls\n   2: cd /tmp\n");
    let mut cmd = HistoryCommand::new(strings(&["-c"]));
    let o = cmd.execute(&mut ctx, &Reply::Lines(strings(&["ls"])));
    assert_eq!(o.output, "");
}

#[test]
fn general_command_follows_the_exit_code() {
    let mut ctx = ContextData::default();
    ctx.env.insert("A".to_string(), "1".to_string());
    let mut cmd = GeneralCommand::new("ls".to_string(), strings(&["-l"]));
    match cmd.request(&ctx) {
        Request::Spawn { program, args, env } => {
            assert_eq!(program, "ls");
            assert_eq!(args, vec!["-l"]);
            assert_eq!(env, vec![("A".to_string(), "1".to_string())]);
        }
        _ => panic!("spawn expected"),
    }
    let o = cmd.execute(&mut ctx, &Reply::Exited { code: 0, success: true });
    assert_eq!(o.result, Ok(true));
    assert_eq!(ctx.env.get("?"), Some(&"0".to_string()));
    let o = cmd.execute(&mut ctx, &Reply::Exited { code: 3, success: false });
    assert_eq!(o.result, Ok(false));
    assert_eq!(ctx.env.get("?"), Some(&"3".to_string()));
    let o = cmd.execute(&mut ctx, &Reply::Exited { code: -1, success: false });
    assert_eq!(ctx.env.get("?"), Some(&"-1".to_string()));
    assert_eq!(o.result, Ok(false));
    let o = cmd.execute(&mut ctx, &Reply::Failed("not found".to_string()));
    assert_eq!(o.result, Ok(false));
    assert_eq!(o.output, "not found\n");
    assert_eq!(cmd.execute(&mut ctx, &Reply::Lost).result, Ok(false));
}

#[test]
fn general_command_with_errexit() {
    let mut ctx = ContextData::default();
    ctx.errexit = true;
    let mut cmd = GeneralCommand::new("false".to_string(), vec![]);
    let o = cmd.execute(&mut ctx, &Reply::Exited { code: 3, success: false });
    assert_eq!(o.result, Err(3));
    assert_eq!(ctx.env.get("?"), Some(&"3".to_string()));
    let o = cmd.execute(&mut ctx, &Reply::Exited { code: 0, success: true });
    assert_eq!(o.result, Ok(true));
    let o = cmd.execute(&mut ctx, &Reply::Failed("not found".to_string()));
    assert_eq!(o.result, Err(1));
}

#[test]
fn execute_maps_results_to_exit_codes() {
    let mut ctx = ContextData::default();
    let (code, _) = execute(Ok(parse("quit".to_string(), vec![])), &mut ctx, &Reply::Nothing);
    assert_eq!(code, Some(0));
    let (code, _) = execute(Ok(parse("exit".to_string(), strings(&["4"]))), &mut ctx, &Reply::Nothing);
    assert_eq!(code, Some(4));
    let (code, _) = execute(Ok(parse("dirs".to_string(), vec![])), &mut ctx, &Reply::Nothing);
    assert_eq!(code, None);
    let (code, out) = execute(Err(PromptError::NoCommand(NoCommandError)), &mut ctx, &Reply::Nothing);
    assert_eq!((code, out.as_str()), (None, ""));
    let (code, out) = execute(
        Err(PromptError::CommandArgsSplit(CommandArgsSplitError)),
        &mut ctx,
        &Reply::Nothing,
    );
    assert_eq!(code, None);
    assert_eq!(
        out,
        "Syntax error: failed to parse arguments\nPossible unmatching quote or unescaped sequence\n"
    );
    let (code, out) = execute(Err(PromptError::Interrupted), &mut ctx, &Reply::Nothing);
    assert_eq!((code, out.as_str()), (None, "^C\n"));
}

#[test]
fn execute_at_the_end_of_input() {
    let mut ctx = ContextData::default();
    let (code, _) = execute(Err(PromptError::Eof(EofError)), &mut ctx, &Reply::Nothing);
    assert_eq!(code, Some(0));
    ctx.ignoreeof = true;
    let (code, _) = execute(Err(PromptError::Eof(EofError)), &mut ctx, &Reply::Nothing);
    assert_eq!(code, None);
    assert!(matches!(request(&Err(PromptError::Eof(EofError)), &ctx), Request::Nothing));
}
