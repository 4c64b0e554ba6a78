use carapace::completion::{
    command_completer, env_var_completer, file_glob_completer, propose, propose_paths, Pair,
    Proposal,
};
use carapace::context::ContextData;
use carapace::env::Env;

#[test]
fn command_complete_no_input_all_candidates() {
    let ctx = ContextData::default();
    let pairs = command_completer(&ctx, "", 0);
    assert_eq!(pairs.len(), 14);
}

#[test]
fn command_complete_quit_cmd() {
    let ctx = ContextData::default();
    let pairs = command_completer(&ctx, "q", 1);
    assert_eq!(pairs.len(), 1);
    assert_eq!(&pairs[0].display, "quit");
    assert_eq!(&pairs[0].replacement, "uit");
}

#[test]
fn command_complete_exit_cmd() {
    let ctx = ContextData::default();
    let pairs = command_completer(&ctx, "exi", 3);
    assert_eq!(pairs.len(), 1);
    assert_eq!(&pairs[0].display, "exit");
    assert_eq!(&pairs[0].replacement, "t");
}

#[test]
fn command_complete_history_cmd_h() {
    let ctx = ContextData::default();
    let pairs = command_completer(&ctx, "h", 1);
    assert_eq!(pairs.len(), 4);
    assert_eq!(&pairs[0].display, "hash");
    assert_eq!(&pairs[0].replacement, "ash");
    assert_eq!(&pairs[1].display, "h");
    assert_eq!(&pairs[1].replacement, "");
    assert_eq!(&pairs[2].display, "hist");
    assert_eq!(&pairs[2].replacement, "ist");
    assert_eq!(&pairs[3].display, "history");
    assert_eq!(&pairs[3].replacement, "istory");
}

#[test]
fn command_complete_history_cmd_hist() {
    let ctx = ContextData::default();
    let pairs = command_completer(&ctx, "hi", 2);
    assert_eq!(pairs.len(), 2);
    assert_eq!(&pairs[0].display, "hist");
    assert_eq!(&pairs[0].replacement, "st");
    assert_eq!(&pairs[1].display, "history");
    assert_eq!(&pairs[1].replacement, "story");
}

#[test]
fn command_complete_history_cmd() {
    let ctx = ContextData::default();
    let pairs = command_completer(&ctx, "histo", 5);
    assert_eq!(pairs.len(), 1);
    assert_eq!(&pairs[0].display, "history");
    assert_eq!(&pairs[0].replacement, "ry");
}

#[test]
fn command_complete_unset_cmd() {
    let ctx = ContextData::default();
    let pairs = command_completer(&ctx, "un", 2);
    assert_eq!(pairs.len(), 1);
    assert_eq!(&pairs[0].display, "unset");
    assert_eq!(&pairs[0].replacement, "set");
}

#[test]
fn command_complete_export_cmd() {
    let ctx = ContextData::default();
    let pairs = command_completer(&ctx, "exp", 3);
    assert_eq!(pairs.len(), 1);
    assert_eq!(&pairs[0].display, "export");
    assert_eq!(&pairs[0].replacement, "ort");
}

#[test]
fn command_complete_export_cmd_set() {
    let ctx = ContextData::default();
    let pairs = command_completer(&ctx, "s", 1);
    assert_eq!(pairs.len(), 1);
    assert_eq!(&pairs[0].display, "set");
    assert_eq!(&pairs[0].replacement, "et");
}

#[test]
fn command_complete_nothing_after_first_whitespace() {
    let ctx = ContextData::default();

    let pairs = command_completer(&ctx, "ls ", 3);
    assert_eq!(pairs.len(), 0);

    let pairs = command_completer(&ctx, "ls -lg /", 8);
    assert_eq!(pairs.len(), 0);
}

#[test]
fn command_complete_detected_commands() {
    let mut ctx = ContextData::default();
    {
        let commands = &mut ctx.commands;

        // Add in reverse order but expect in sorted order.
        commands.insert("whoami".to_string());
        commands.insert("who".to_string());
    }

    let pairs = command_completer(&ctx, "wh", 2);
    assert_eq!(pairs.len(), 2);
    assert_eq!(&pairs[0].display, "who");
    assert_eq!(&pairs[0].replacement, "o");
    assert_eq!(&pairs[1].display, "whoami");
    assert_eq!(&pairs[1].replacement, "oami");

    let pairs = command_completer(&ctx, "whoa", 4);
    assert_eq!(pairs.len(), 1);
    assert_eq!(&pairs[0].display, "whoami");
    assert_eq!(&pairs[0].replacement, "mi");
}

#[test]
fn command_complete_names_once() {
    let mut ctx = ContextData::default();
    ctx.config.aliases.insert("ll".to_string(), "ls -l".to_string());
    ctx.config.aliases.insert("cd".to_string(), "pushd".to_string());
    ctx.commands.insert("ll".to_string());
    ctx.commands.insert("ls".to_string());
    let pairs = command_completer(&ctx, "l", 1);
    assert_eq!(pairs.len(), 2);
    assert_eq!(&pairs[0].display, "ll");
    assert_eq!(&pairs[1].display, "ls");
    assert_eq!(command_completer(&ctx, "", 0).len(), 16);
}

#[test]
fn env_var_completer_normal_var() {
    let mut env = Env::default();
    env.insert("HELLO".to_string(), "WORLD".to_string());

    let pairs = env_var_completer(&env, "echo $HE", 8).unwrap();
    assert_eq!(pairs.len(), 1);
    assert_eq!(&pairs[0].display, "$HELLO");
    assert_eq!(&pairs[0].replacement, "LLO");
}

#[test]
fn env_var_completer_multiple_values() {
    let mut env = Env::default();
    env.insert("HELLO".to_string(), "0".to_string());
    env.insert("HEY".to_string(), "1".to_string());
    env.insert("HAND".to_string(), "2".to_string());

    let pairs = env_var_completer(&env, "echo $H", 7).unwrap();
    assert_eq!(pairs.len(), 3);

    let contains = |needle: &Pair| {
        for p in &pairs {
            if p.display == needle.display && p.replacement == needle.replacement {
                return true;
            }
        }
        false
    };

    assert!(contains(&Pair {
        display: "$HELLO".to_string(),
        replacement: "ELLO".to_string(),
    }));
    assert!(contains(&Pair {
        display: "$HEY".to_string(),
        replacement: "EY".to_string(),
    }));
    assert!(contains(&Pair {
        display: "$HAND".to_string(),
        replacement: "AND".to_string(),
    }));
}

#[test]
fn env_var_completer_bracket_var() {
    let mut env = Env::default();
    env.insert("HELLO".to_string(), "WORLD".to_string());

    let pairs = env_var_completer(&env, "echo ${HE", 9).unwrap();
    assert_eq!(pairs.len(), 1);
    assert_eq!(&pairs[0].display, "${HELLO}");
    assert_eq!(&pairs[0].replacement, "LLO}");
}

#[test]
fn env_var_completer_without_reference() {
    let mut env = Env::default();
    env.insert("HELLO".to_string(), "WORLD".to_string());
    assert!(env_var_completer(&env, "echo HE", 7).is_none());
    let pairs = env_var_completer(&env, "echo ${HELLO}", 13).unwrap();
    assert!(pairs.is_empty());
}

#[test]
fn file_glob_completer_joins_the_paths() {
    let found = vec!["Cargo.lock".to_string(), "Cargo.toml".to_string()];
    let pair = file_glob_completer("C*", found).unwrap();
    assert_eq!(pair.display, "Cargo.lock Cargo.toml");
    assert_eq!(pair.replacement, "Cargo.lock Cargo.toml");
    assert!(file_glob_completer("C*", vec![]).is_none());
    assert!(file_glob_completer("", vec!["a".to_string()]).is_none());
}

#[test]
fn propose_in_the_order_of_the_kinds() {
    let mut ctx = ContextData::default();
    ctx.env.insert("HELLO".to_string(), "WORLD".to_string());
    match propose(&ctx, "ex", 2) {
        Proposal::Candidates(start, pairs) => {
            assert_eq!(start, 2);
            assert_eq!(pairs.len(), 2);
        }
        _ => panic!("candidates expected"),
    }
    match propose(&ctx, "echo $HE", 8) {
        Proposal::Candidates(start, pairs) => {
            assert_eq!(start, 8);
            assert_eq!(pairs.len(), 1);
            assert_eq!(pairs[0].display, "$HELLO");
        }
        _ => panic!("candidates expected"),
    }
    // In the first word without a command of that beginning the variables are next.
    match propose(&ctx, "$HE", 3) {
        Proposal::Candidates(_, pairs) => assert_eq!(pairs[0].replacement, "LLO"),
        _ => panic!("candidates expected"),
    }
    assert!(matches!(propose(&ctx, "ls src/*.rs", 11), Proposal::Pattern(word) if word == "src/*.rs"));
    assert!(matches!(propose(&ctx, "ls src/", 7), Proposal::Files));
    assert!(matches!(propose(&ctx, "zz", 2), Proposal::Files));
}

#[test]
fn propose_paths_in_place_of_the_pattern() {
    let found = vec!["src/a.rs".to_string(), "src/b.rs".to_string()];
    let (start, pair) = propose_paths("src/*.rs", 11, found.clone()).unwrap();
    assert_eq!(start, 3);
    assert_eq!(pair.replacement, "src/a.rs src/b.rs");
    // The position lies inside the pattern: there is no place to put the paths.
    assert!(propose_paths("src/*.rs", 5, found).is_none());
    assert!(propose_paths("src/*.rs", 11, vec![]).is_none());
}
