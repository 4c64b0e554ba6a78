use carapace::command::{Command, Reply};
use carapace::config::Config;
use carapace::context::ContextData;
use carapace::prompt::{Prompt, PromptError};

/// Reads a line as the shell does: the library does the expansion, the test looks at the
/// file system where the library asks for it.
fn parse_line(
    prompt: &mut Prompt,
    ctx: &mut ContextData,
    line: &str,
) -> Result<Command, PromptError> {
    let words = prompt.parse_command(ctx, line)?;
    let mut found: Vec<Vec<String>> = Vec::new();
    for word in &words {
        let mut paths = Vec::new();
        if Prompt::is_glob(word) {
            if let Ok(matches) = glob::glob(word) {
                for path in matches.filter_map(Result::ok) {
                    paths.push(path.to_string_lossy().into_owned());
                }
            }
        }
        found.push(paths);
    }
    let words = Prompt::expand_globs(&words, &found);
    let is_dir = std::path::Path::new(&words[0]).is_dir();
    Prompt::build_command(ctx, words, is_dir).map(|built| built.command)
}

fn general(cmd: Result<Command, PromptError>) -> (String, Vec<String>) {
    match cmd {
        Ok(Command::General(cmd)) => (cmd.program, cmd.args),
        _ => panic!("general command expected"),
    }
}

#[test]
fn parse_command_empty() {
    let mut ctx = ContextData::default();
    let mut prompt = Prompt::create();
    let cmd = parse_line(&mut prompt, &mut ctx, "");
    assert!(cmd.is_err());
    assert!(matches!(cmd.err().unwrap(), PromptError::NoCommand(_)));
    let cmd = parse_line(&mut prompt, &mut ctx, " \t ");
    assert!(matches!(cmd.err().unwrap(), PromptError::NoCommand(_)));
}

#[test]
/// They should yield the same in this case.
fn parse_command_calls_command_parse() {
    let mut ctx = ContextData::default();
    let mut prompt = Prompt::create();

    let cmd = parse_line(&mut prompt, &mut ctx, "ls -l");
    assert!(cmd.is_ok());
    assert!(matches!(cmd.unwrap(), Command::General(_)));
}

#[test]
fn parse_command_auto_cd() {
    // auto-cd is enabled per default in Config.
    let mut ctx = ContextData::default();
    let mut prompt = Prompt::create();
    let cmd = parse_line(&mut prompt, &mut ctx, ".");
    assert!(cmd.is_ok());

    match cmd.unwrap() {
        Command::Cd(cd_cmd) => assert_eq!(cd_cmd.path, "."),
        _ => panic!("cd expected"),
    }
}

#[test]
fn parse_command_no_auto_cd() {
    let mut ctx = ContextData::default();
    ctx.config.auto_cd = false;
    let mut prompt = Prompt::create();
    let (program, args) = general(parse_line(&mut prompt, &mut ctx, "."));
    assert_eq!(program, ".");
    assert!(args.is_empty());

    // With arguments a directory is a program like any other.
    ctx.config.auto_cd = true;
    let (program, args) = general(parse_line(&mut prompt, &mut ctx, ". x"));
    assert_eq!(program, ".");
    assert_eq!(args, vec!["x"]);
}

#[test]
fn parse_command_env_vars_replaced() {
    let mut ctx = ContextData::default();
    let mut prompt = Prompt::create();
    ctx.env.insert("HELLO".to_string(), "WORLD".to_string());
    let cmd = parse_line(&mut prompt, &mut ctx, "echo $HELLO");
    assert!(cmd.is_ok());

    let (program, args) = general(cmd);
    assert_eq!(program, "echo".to_string());
    assert_eq!(args, vec!["WORLD".to_string()]);
}

#[test]
fn parse_command_alias_substituted() {
    let mut config = Config::default();
    config.aliases.insert("l".to_string(), "ls -l".to_string());
    let mut ctx = ContextData::default();
    ctx.config = config;
    let mut prompt = Prompt::create();

    let cmd = parse_line(&mut prompt, &mut ctx, "l -F");
    assert!(cmd.is_ok());

    let (program, args) = general(cmd);
    assert_eq!(program, "ls".to_string());
    assert_eq!(args, vec!["-l".to_string(), "-F".to_string()]);
}

#[test]
fn parse_command_alias_is_not_followed_further() {
    let mut ctx = ContextData::default();
    ctx.config.aliases.insert("l".to_string(), "ll -a".to_string());
    ctx.config.aliases.insert("ll".to_string(), "ls -l".to_string());
    let mut prompt = Prompt::create();
    let (program, args) = general(parse_line(&mut prompt, &mut ctx, "l l"));
    assert_eq!(program, "ll");
    assert_eq!(args, vec!["-a", "l"]);
}

#[test]
fn parse_command_inline_env_vars() {
    let mut ctx = ContextData::default();
    let mut prompt = Prompt::create();

    let cmd = parse_line(&mut prompt, &mut ctx, "A=1 echo test");
    assert!(cmd.is_ok());

    let (program, args) = general(cmd);
    assert_eq!(program, "echo".to_string());
    assert_eq!(args, vec!["test".to_string()]);

    assert!(prompt.delete_env().contains("A"));
}

#[test]
fn parse_command_inline_env_vars_replaced_for_invocation() {
    let mut ctx = ContextData::default();
    let mut prompt = Prompt::create();

    let cmd = parse_line(&mut prompt, &mut ctx, "A=1 echo $A");
    assert!(cmd.is_ok());

    let (program, args) = general(cmd);
    assert_eq!(program, "echo".to_string());
    assert_eq!(args, vec!["1".to_string()]);

    assert!(prompt.delete_env().contains("A"));

    // The variable is gone again before the next line.
    let _cmd = parse_line(&mut prompt, &mut ctx, "echo");
    assert!(!ctx.env.contains_key("A"));
    assert!(!prompt.delete_env().contains("A"));
}

#[test]
fn parse_command_inline_env_vars_replaces_session_env() {
    let mut ctx = ContextData::default();
    let mut prompt = Prompt::create();
    ctx.env.insert("A".to_string(), "42".to_string());

    let cmd = parse_line(&mut prompt, &mut ctx, "A=1 echo $A");
    assert!(cmd.is_ok());

    let (program, args) = general(cmd);
    assert_eq!(program, "echo".to_string());

    // $A is replaced with "42" before the inline replacement since it already exists in the
    // environment.
    assert_eq!(args, vec!["42".to_string()]);

    assert!(!prompt.delete_env().contains("A"));
    assert!(prompt.restore_env().contains_key("A"));
    assert_eq!(prompt.restore_env().get("A"), Some(&"42".to_string()));
    assert_eq!(ctx.env.get("A"), Some(&"1".to_string()));
}

#[test]
fn parse_command_inline_env_vars_restored_before_next_command() {
    let mut ctx = ContextData::default();
    let mut prompt = Prompt::create();
    ctx.env.insert("A".to_string(), "42".to_string());

    let cmd = parse_line(&mut prompt, &mut ctx, "A=1 echo $A");
    assert!(cmd.is_ok());

    let (program, args) = general(cmd);
    assert_eq!(program, "echo".to_string());

    // $A is replaced with "42" before the inline replacement since it already exists in the
    // environment.
    assert_eq!(args, vec!["42".to_string()]);

    assert!(!prompt.delete_env().contains("A"));
    assert!(prompt.restore_env().contains_key("A"));
    assert_eq!(prompt.restore_env().get("A"), Some(&"42".to_string()));
    assert_eq!(ctx.env.get("A"), Some(&"1".to_string()));

    // Attempt next command to make sure env is cleaned up.
    let _cmd = parse_line(&mut prompt, &mut ctx, "");

    assert!(!prompt.restore_env().contains_key("A"));
    assert!(ctx.env.contains_key("A"));
    assert_eq!(ctx.env.get("A"), Some(&"42".to_string()));
}

#[test]
fn parse_command_assignments_only_at_the_head() {
    let mut ctx = ContextData::default();
    let mut prompt = Prompt::create();
    let cmd = parse_line(&mut prompt, &mut ctx, "A=1 export B=2 $A");
    match cmd {
        Ok(Command::Export(cmd)) => assert_eq!(cmd.args, vec!["B=2", "1"]),
        _ => panic!("export expected"),
    }
    assert!(prompt.delete_env().contains("A"));
    assert!(!prompt.delete_env().contains("B"));
    assert!(!ctx.env.contains_key("B"));
}

#[test]
fn parse_command_only_assignments_is_no_command() {
    let mut ctx = ContextData::default();
    let mut prompt = Prompt::create();
    let cmd = parse_line(&mut prompt, &mut ctx, "A=1 B=2");
    assert!(matches!(cmd, Err(PromptError::NoCommand(_))));
    assert_eq!(ctx.env.get("A"), Some(&"1".to_string()));
    let cmd = parse_line(&mut prompt, &mut ctx, "");
    assert!(matches!(cmd, Err(PromptError::NoCommand(_))));
    assert!(!ctx.env.contains_key("A"));
    assert!(!ctx.env.contains_key("B"));
}

#[test]
fn parse_command_that_evaporates_is_no_command() {
    let mut ctx = ContextData::default();
    let mut prompt = Prompt::create();
    ctx.env.insert("-".to_string(), "".to_string());
    let cmd = parse_line(&mut prompt, &mut ctx, "$-");
    assert!(matches!(cmd, Err(PromptError::NoCommand(_))));
}

#[test]
fn parse_command_tilde_is_home() {
    let mut ctx = ContextData::default();
    ctx.home_dir = "/home/me".to_string();
    let mut prompt = Prompt::create();
    let words = prompt.parse_command(&mut ctx, "ls ~ ~/git ~x a~ ~//etc").unwrap();
    assert_eq!(words, vec!["ls", "/home/me/", "/home/me/git", "/home/me/x", "a~", "/etc"]);
    let home = std::path::PathBuf::from("/home/me");
    assert_eq!(words[1], home.join("").to_str().unwrap());
    assert_eq!(words[2], home.join("git").to_str().unwrap());
    assert_eq!(words[5], home.join("/etc").to_str().unwrap());
    ctx.home_dir = "/".to_string();
    assert_eq!(prompt.parse_command(&mut ctx, "~/x").unwrap(), vec!["/x"]);
    ctx.home_dir = "".to_string();
    assert_eq!(prompt.parse_command(&mut ctx, "~/x ~").unwrap(), vec!["x", ""]);
}

#[test]
fn expand_globs_keeps_words_without_matches() {
    let words: Vec<String> = vec!["ls".to_string(), "C*".to_string(), "x".to_string(), "*".to_string()];
    let found = vec![
        vec!["ignored".to_string()],
        vec!["Cargo.lock".to_string(), "Cargo.toml".to_string()],
        vec![],
    ];
    assert_eq!(
        Prompt::expand_globs(&words, &found),
        vec!["ls", "Cargo.lock", "Cargo.toml", "x", "*"]
    );
    assert!(Prompt::is_glob("a*b"));
    assert!(!Prompt::is_glob("ab"));
}

#[test]
fn parse_command_double_quoted_args() {
    let mut ctx = ContextData::default();
    let mut prompt = Prompt::create();

    let cmd = parse_line(&mut prompt, &mut ctx, "echo before \"hello 'there' world\" after");
    assert!(cmd.is_ok());

    let (program, args) = general(cmd);
    assert_eq!(program, "echo".to_string());
    assert_eq!(
        args,
        vec![
            "before".to_string(),
            "hello 'there' world".to_string(),
            "after".to_string()
        ]
    );
}

#[test]
fn parse_command_double_quoted_args_with_end_symbol() {
    let mut ctx = ContextData::default();
    let mut prompt = Prompt::create();

    let cmd = parse_line(&mut prompt, &mut ctx, "echo \"hello \"x");
    assert!(cmd.is_ok());

    let (program, args) = general(cmd);
    assert_eq!(program, "echo".to_string());
    assert_eq!(args, vec!["hello x".to_string(),]);
}

#[test]
fn parse_command_double_quoted_args_with_start_symbol() {
    let mut ctx = ContextData::default();
    let mut prompt = Prompt::create();

    let cmd = parse_line(&mut prompt, &mut ctx, "echo x\"hello \"");
    assert!(cmd.is_ok());

    let (program, args) = general(cmd);
    assert_eq!(program, "echo".to_string());
    assert_eq!(args, vec!["xhello ".to_string(),]);
}

#[test]
fn parse_command_single_quoted_args() {
    let mut ctx = ContextData::default();
    let mut prompt = Prompt::create();

    let cmd = parse_line(&mut prompt, &mut ctx, "echo before 'hello \"there\" world' after");
    assert!(cmd.is_ok());

    let (program, args) = general(cmd);
    assert_eq!(program, "echo".to_string());
    assert_eq!(
        args,
        vec![
            "before".to_string(),
            "hello \"there\" world".to_string(),
            "after".to_string(),
        ]
    );
}

#[test]
fn parse_command_unmatching_double_quoted_args() {
    let mut ctx = ContextData::default();
    let mut prompt = Prompt::create();

    let cmd = parse_line(&mut prompt, &mut ctx, "echo \"hello");
    assert!(cmd.is_err());
    assert!(matches!(cmd.err().unwrap(), PromptError::CommandArgsSplit(_)));
}

#[test]
fn parse_command_unmatching_internal_double_quoted_args() {
    let mut ctx = ContextData::default();
    let mut prompt = Prompt::create();

    let cmd = parse_line(&mut prompt, &mut ctx, "echo 'before' \"hello 'after'");
    assert!(cmd.is_err());
    assert!(matches!(cmd.err().unwrap(), PromptError::CommandArgsSplit(_)));
}

#[test]
fn parse_command_unmatching_single_quoted_args() {
    let mut ctx = ContextData::default();
    let mut prompt = Prompt::create();

    let cmd = parse_line(&mut prompt, &mut ctx, "echo 'hello");
    assert!(cmd.is_err());
    assert!(matches!(cmd.err().unwrap(), PromptError::CommandArgsSplit(_)));
}

#[test]
fn parse_command_unmatching_internal_single_quoted_args() {
    let mut ctx = ContextData::default();
    let mut prompt = Prompt::create();

    let cmd = parse_line(&mut prompt, &mut ctx, "echo \"before\" 'hello \"after\"");
    assert!(cmd.is_err());
    assert!(matches!(cmd.err().unwrap(), PromptError::CommandArgsSplit(_)));
}

#[test]
fn parse_command_trailing_backslash() {
    let mut ctx = ContextData::default();
    let mut prompt = Prompt::create();
    let cmd = parse_line(&mut prompt, &mut ctx, "echo a\\");
    assert!(matches!(cmd, Err(PromptError::CommandArgsSplit(_))));
    let (_, args) = general(parse_line(&mut prompt, &mut ctx, "echo a\\ b"));
    assert_eq!(args, vec!["a b"]);
}

#[test]
fn build_command_shows_the_call_with_xtrace() {
    let mut ctx = ContextData::default();
    let words = vec!["echo".to_string(), "'a".to_string(), "b'".to_string(), "c".to_string()];
    let built = Prompt::build_command(&ctx, words.clone(), false).ok().unwrap();
    assert_eq!(built.trace, "");
    ctx.xtrace = true;
    let built = Prompt::build_command(&ctx, words, false).ok().unwrap();
    assert_eq!(built.trace, "+carapace> echo a b c\n");
    let built = Prompt::build_command(&ctx, vec!["/tmp".to_string()], true).ok().unwrap();
    assert_eq!(built.trace, "+carapace> cd /tmp\n");
    assert!(matches!(built.command, Command::Cd(_)));
    assert!(matches!(
        Prompt::build_command(&ctx, vec![], false),
        Err(PromptError::NoCommand(_))
    ));
}

#[test]
fn resolve_takes_the_split_arguments() {
    let ctx = ContextData::default();
    let words = vec!["echo".to_string(), "ignored".to_string()];
    let built = Prompt::resolve(&ctx, words.clone(), Some(vec!["a b".to_string()]), false);
    match built.ok().unwrap().command {
        Command::General(cmd) => {
            assert_eq!(cmd.program, "echo");
            assert_eq!(cmd.args, vec!["a b"]);
        }
        _ => panic!("general command expected"),
    }
    assert!(matches!(
        Prompt::resolve(&ctx, words, None, false),
        Err(PromptError::CommandArgsSplit(_))
    ));
}

#[test]
fn echo_only_when_verbose() {
    let mut ctx = ContextData::default();
    assert_eq!(Prompt::echo(&ctx, " ls -l "), None);
    ctx.verbose = 1;
    assert_eq!(Prompt::echo(&ctx, " ls -l \n"), Some("ls -l".to_string()));
    assert_eq!(Prompt::echo(&ctx, "   "), None);
}

#[test]
fn setup_env() {
    let mut ctx = ContextData::default();

    {
        let env = &mut ctx.env;
        env.insert("A".to_string(), "42".to_string());
        env.insert("B".to_string(), "84".to_string());

        ctx.config
            .env
            .insert("HELLO".to_string(), "$A,${B}".to_string());
    }

    let mut prompt = Prompt::create();

    // Setup env also loads env entries from config but substitutes known env values into them.
    // And sets $? = 0.
    prompt.setup_env(&mut ctx);

    let env = &ctx.env;
    assert!(env.contains_key("?"));
    assert_eq!("0", env.get("?").unwrap());

    assert!(env.contains_key("-"));
    assert_eq!("", env.get("-").unwrap());

    assert!(env.contains_key("HELLO"));
    assert_eq!("42,84", env.get("HELLO").unwrap());
}

#[test]
fn setup_env_verbose() {
    let mut ctx = ContextData::default();
    ctx.verbose = 1;

    let mut prompt = Prompt::create();

    // Set $- = "v" since verbose is set.
    prompt.setup_env(&mut ctx);

    let env = &ctx.env;
    assert!(env.contains_key("-"));
    assert_eq!("v", env.get("-").unwrap());
}

#[test]
fn setup_env_uses_inherited_values_only() {
    let mut ctx = ContextData::default();
    ctx.env.insert("A".to_string(), "1".to_string());
    ctx.config.env.insert("A".to_string(), "2".to_string());
    ctx.config.env.insert("B".to_string(), "$A".to_string());
    let prompt = Prompt::new(&mut ctx);
    assert!(prompt.restore_env().is_empty());
    assert_eq!(ctx.env.get("A").unwrap(), "2");
    assert_eq!(ctx.env.get("B").unwrap(), "1");
}

#[test]
fn whole_line_runs_through_execute() {
    let mut ctx = ContextData::default();
    let mut prompt = Prompt::create();
    let cmd = parse_line(&mut prompt, &mut ctx, "A=5 export B=$A");
    let (code, out) = carapace::command::execute(cmd, &mut ctx, &Reply::Nothing);
    assert_eq!(code, None);
    assert_eq!(out, "");
    // The words behind the assignment see the value that it gave.
    assert_eq!(ctx.env.get("B").unwrap(), "5");
    let cmd = parse_line(&mut prompt, &mut ctx, "exit 3");
    assert!(!ctx.env.contains_key("A"));
    let (code, _) = carapace::command::execute(cmd, &mut ctx, &Reply::Nothing);
    assert_eq!(code, Some(3));
}
