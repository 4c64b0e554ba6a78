use carapace::config::{CompletionType, Config, EditMode};
use carapace::context::ContextData;
use carapace::env::Env;
use carapace::path_commands::PathCommands;

#[test]
fn default_context() {
    let ctx = ContextData::default();
    assert_eq!(ctx.verbose, 0);
    assert!(!ctx.xtrace && !ctx.errexit && !ctx.ignoreeof);
    assert!(ctx.dir_stack.is_empty());
    assert!(ctx.env.as_ref().is_empty());
    assert!(ctx.commands.is_empty());
    assert_eq!(ctx.home_dir, "");
}

#[test]
fn default_config() {
    let config = Config::default();
    assert_eq!(config.max_history_size, 1000);
    assert_eq!(config.edit_mode, EditMode::Emacs);
    assert_eq!(config.completion_type, CompletionType::List);
    assert!(config.auto_cd);
    assert!(config.aliases.is_empty());
    assert!(config.env.is_empty());
}

#[test]
fn new_context_takes_what_it_is_given() {
    let env = Env::new(vec![("A".to_string(), "1".to_string())]);
    let commands = PathCommands::new(vec!["ls".to_string()]);
    let ctx = ContextData::new(2, Config::default(), env, commands, "/home/me".to_string());
    assert_eq!(ctx.verbose, 2);
    assert_eq!(ctx.env.get("A").unwrap(), "1");
    assert!(ctx.commands.contains("ls"));
    assert_eq!(ctx.home_dir, "/home/me");
    assert!(!ctx.xtrace && !ctx.errexit && !ctx.ignoreeof);
    assert!(ctx.dir_stack.is_empty());
}

#[test]
fn print_dir_stack_short() {
    let mut ctx = ContextData::default();
    assert_eq!(ctx.print_dir_stack(true), "");
    assert_eq!(ctx.print_dir_stack(false), "");
    ctx.dir_stack.push("/a".to_string());
    assert_eq!(ctx.print_dir_stack(true), "/a\n");
    assert_eq!(ctx.print_short_dir_stack(), "/a\n");
    ctx.dir_stack.push("/b".to_string());
    assert_eq!(ctx.print_dir_stack(true), "[/b] /a\n");
    ctx.dir_stack.push("/c".to_string());
    assert_eq!(ctx.print_dir_stack(true), "[/c] /b /a\n");
}

#[test]
fn print_dir_stack_long() {
    let mut ctx = ContextData::default();
    ctx.dir_stack.push("/a".to_string());
    assert_eq!(ctx.print_dir_stack(false), "0>\t/a\n");
    for i in 0..10 {
        ctx.dir_stack.push(format!("/d{}", i));
    }
    let text = ctx.print_dir_stack(false);
    assert!(text.starts_with("0>\t/d9\n1 \t/d8\n"));
    assert!(text.ends_with("9 \t/d0\n10 \t/a\n"));
}
