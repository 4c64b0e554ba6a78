//! The arguments of the builtin commands, held against the same declarations written with
//! the builder of clap.

use carapace::command::cd_command::CdCommand;
use carapace::command::dirs_command::DirsCommand;
use carapace::command::exit_command::ExitCommand;
use carapace::command::export_command::ExportCommand;
use carapace::command::hash_command::HashCommand;
use carapace::command::history_command::HistoryCommand;
use carapace::command::pushd_command::PushdCommand;
use carapace::command::set_command::{SetAction, SetCommand};
use carapace::command::unset_command::UnsetCommand;
use carapace::command::HistoryAction;

use clap::{App, AppSettings, Arg};

fn lists() -> Vec<Vec<String>> {
    let lists: Vec<Vec<&str>> = vec![
        vec![],
        vec!["a"],
        vec!["a", "b"],
        vec!["a", "b", "c"],
        vec!["42"],
        vec!["-1"],
        vec!["+1"],
        vec!["--", "-1"],
        vec!["--"],
        vec!["-"],
        vec![""],
        vec!["abc"],
        vec!["-h"],
        vec!["--help"],
        vec!["-V"],
        vec!["--version"],
        vec!["-v"],
        vec!["-v", "-v"],
        vec!["-vv"],
        vec!["-vvv", "-v"],
        vec!["-x"],
        vec!["-x", "-x"],
        vec!["-xe"],
        vec!["-e", "-x"],
        vec!["-ev"],
        vec!["-q"],
        vec!["-o"],
        vec!["-o", "xtrace"],
        vec!["-oxtrace"],
        vec!["-o=xtrace"],
        vec!["--option", "vi"],
        vec!["--option=emacs"],
        vec!["--option"],
        vec!["-o", "a", "-o", "b"],
        vec!["+x"],
        vec!["+"],
        vec!["+o"],
        vec!["+o", "xtrace"],
        vec!["+option", "errexit", "more"],
        vec!["x", "-x"],
        vec!["-c"],
        vec!["-w"],
        vec!["-c", "-w"],
        vec!["--clear"],
        vec!["--write", "x"],
        vec!["-r"],
        vec!["--rehash"],
        vec!["-r", "ls"],
        vec!["ls", "-r"],
        vec!["ls", "cat"],
        vec!["A=1"],
        vec!["A=1", "B", "C=2"],
        vec!["A=1", "-x"],
        vec!["--", "A=1", "-x"],
        vec!["/tmp"],
        vec!["~"],
        vec!["a b"],
        vec!["é", "名前"],
    ];
    lists
        .into_iter()
        .map(|l| l.into_iter().map(|s| s.to_string()).collect())
        .collect()
}

fn app(name: &'static str) -> App<'static, 'static> {
    App::new(name)
        .setting(AppSettings::NoBinaryName)
        .setting(AppSettings::DisableVersion)
}

#[test]
fn exit_arguments_agree_with_builder() {
    for args in lists() {
        let built = app("exit")
            .arg(
                Arg::with_name("code")
                    .index(1)
                    .default_value("0")
                    .validator(|v: String| -> Result<(), String> {
                        if v.parse::<i32>().is_ok() {
                            return Ok(());
                        }
                        Err(String::from("Exit code must be an integer!"))
                    }),
            )
            .get_matches_from_safe(&args);
        let cmd = ExitCommand::new(args.clone());
        assert_eq!(cmd.usage.is_none(), built.is_ok(), "{:?}", args);
        let code = match built {
            Ok(m) => m.value_of("code").unwrap().parse::<i32>().unwrap(),
            Err(_) => 0,
        };
        assert_eq!(cmd.code, code, "{:?}", args);
    }
}

#[test]
fn cd_arguments_agree_with_builder() {
    for args in lists() {
        let built = app("cd")
            .arg(Arg::with_name("directory").index(1).default_value("~"))
            .get_matches_from_safe(&args);
        let cmd = CdCommand::new("cd".to_string(), args.clone());
        assert_eq!(cmd.usage.is_none(), built.is_ok(), "{:?}", args);
        let path = match built {
            Ok(m) => m.value_of("directory").unwrap().to_string(),
            Err(_) => "~".to_string(),
        };
        assert_eq!(cmd.path, path, "{:?}", args);
    }
}

#[test]
fn pushd_arguments_agree_with_builder() {
    for args in lists() {
        let built = app("pushd")
            .arg(Arg::with_name("directory").index(1))
            .get_matches_from_safe(&args);
        let cmd = PushdCommand::new(args.clone());
        assert_eq!(cmd.usage.is_none(), built.is_ok(), "{:?}", args);
        let path = match built {
            Ok(m) => m.value_of("directory").map(|p| p.to_string()),
            Err(_) => None,
        };
        assert_eq!(cmd.path, path, "{:?}", args);
    }
}

#[test]
fn dirs_arguments_agree_with_builder() {
    for args in lists() {
        let built = app("dirs")
            .arg(Arg::with_name("verbose").short("v"))
            .get_matches_from_safe(&args);
        let cmd = DirsCommand::new(args.clone());
        assert_eq!(cmd.usage.is_none(), built.is_ok(), "{:?}", args);
        assert_eq!(cmd.verbose, built.map_or(false, |m| m.is_present("verbose")), "{:?}", args);
    }
}

#[test]
fn export_and_unset_arguments_agree_with_builder() {
    for args in lists() {
        let built = app("export")
            .arg(Arg::with_name("vars").multiple(true))
            .get_matches_from_safe(&args);
        let cmd = ExportCommand::new(args.clone());
        assert_eq!(cmd.usage.is_none(), built.is_ok(), "{:?}", args);
        let cmd = UnsetCommand::new(args.clone());
        assert_eq!(cmd.usage.is_none(), built.is_ok(), "{:?}", args);
    }
}

#[test]
fn history_arguments_agree_with_builder() {
    for args in lists() {
        let built = app("history")
            .arg(Arg::with_name("clear").short("c").long("clear"))
            .arg(Arg::with_name("write").short("w").long("write"))
            .get_matches_from_safe(&args);
        let cmd = HistoryCommand::new(args.clone());
        assert_eq!(cmd.usage.is_none(), built.is_ok(), "{:?}", args);
        let action = match built {
            Ok(m) if m.is_present("clear") => HistoryAction::Clear,
            Ok(m) if m.is_present("write") => HistoryAction::Write,
            _ => HistoryAction::List,
        };
        assert_eq!(cmd.action, action, "{:?}", args);
    }
}

#[test]
fn hash_arguments_agree_with_builder() {
    for args in lists() {
        let built = app("hash")
            .arg(Arg::with_name("rehash").short("r").long("rehash"))
            .arg(Arg::with_name("command").index(1))
            .get_matches_from_safe(&args);
        let cmd = HashCommand::new(args.clone());
        assert_eq!(cmd.usage.is_none(), built.is_ok(), "{:?}", args);
        let (rehash, command) = match built {
            Ok(m) => (
                m.is_present("rehash"),
                m.value_of("command").map(|c| c.to_string()),
            ),
            Err(_) => (false, None),
        };
        assert_eq!(cmd.rehash, rehash, "{:?}", args);
        assert_eq!(cmd.command, command, "{:?}", args);
    }
}

#[test]
fn set_arguments_agree_with_builder() {
    for args in lists() {
        let built = app("set")
            .arg(Arg::with_name("xtrace").short("x"))
            .arg(Arg::with_name("errexit").short("e"))
            .arg(Arg::with_name("verbose").short("v").multiple(true))
            .arg(
                Arg::with_name("option")
                    .short("o")
                    .long("option")
                    .takes_value(true)
                    .value_name("name"),
            )
            .arg(Arg::with_name("unset").value_name("+NAME"))
            .arg(Arg::with_name("unset-name").hidden(true))
            .get_matches_from_safe(&args);
        let cmd = SetCommand::new(args.clone());
        assert_eq!(
            !matches!(cmd.action, SetAction::Usage(_)),
            built.is_ok(),
            "{:?}",
            args
        );
        if let Ok(m) = built {
            if m.is_present("xtrace") {
                assert!(
                    matches!(&cmd.action, SetAction::Toggle { option, enable: true } if option == "x"),
                    "{:?}",
                    args
                );
            } else if m.is_present("errexit") {
                assert!(
                    matches!(&cmd.action, SetAction::Toggle { option, enable: true } if option == "e"),
                    "{:?}",
                    args
                );
            } else if m.is_present("verbose") {
                assert!(
                    matches!(&cmd.action, SetAction::Verbose(n) if *n == m.occurrences_of("verbose")),
                    "{:?}",
                    args
                );
            } else if m.value_of("option").is_none() && m.value_of("unset").is_none() {
                assert!(matches!(cmd.action, SetAction::Nothing), "{:?}", args);
            } else {
                assert!(
                    !matches!(cmd.action, SetAction::Nothing | SetAction::Verbose(_)),
                    "{:?}",
                    args
                );
            }
        }
    }
}
