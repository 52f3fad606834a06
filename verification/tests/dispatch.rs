use command_engine::arg::ArgValue;
use command_engine::builder::{bool, command, group, message, sub, CommandOption};
use command_engine::error::{CommandError, Response};
use command_engine::function::Function;
use command_engine::handle::{
    classic_dispatch, interaction_dispatch, reduce_results, slash_dispatch, Commands,
    PayloadOption, PayloadValue,
};

fn registry() -> Commands {
    let mut commands = Commands::new();
    assert!(commands.register(command("ping", "answers").attach(Function::Classic(1)).build()));
    assert!(commands.register(
        command("root", "d")
            .attach(Function::Classic(10))
            .attach(Function::Slash(20))
            .option(CommandOption::Group(
                group("g", "grouped")
                    .option(
                        sub("s", "leaf")
                            .attach(Function::Classic(11))
                            .attach(Function::Slash(21))
                            .option(CommandOption::Arg(bool("a", "flag").required()))
                            .build(),
                    )
                    .build(),
            ))
            .build(),
    ));
    assert!(commands.register(
        command("reply", "needs a replied-to message")
            .attach(Function::Classic(30))
            .option(CommandOption::Arg(message("target", "the message").required()))
            .build(),
    ));
    commands
}

fn prefixes() -> Vec<String> {
    vec!["!".to_string()]
}

#[test]
fn free_text_ping_resolves_to_leaf_with_empty_args() {
    let commands = registry();
    let (base, leaf, handlers, args) =
        classic_dispatch(&commands, &prefixes(), "!ping", None, None).unwrap();
    assert_eq!("ping", base.command.name);
    assert_eq!("ping", leaf.name);
    assert_eq!(vec![1], handlers);
    assert_eq!(0, args.len());
}

#[test]
fn free_text_descends_to_nested_subcommand() {
    let commands = registry();
    let (_, leaf, handlers, args) =
        classic_dispatch(&commands, &prefixes(), "!root g s true", None, None).unwrap();
    assert_eq!("s", leaf.name);
    assert_eq!(vec![11], handlers);
    assert_eq!(Ok(true), args.bool("a"));
}

#[test]
fn free_text_error_classification() {
    let commands = registry();
    let p = prefixes();

    // No configured prefix: a classification signal, not a failure.
    assert_eq!(
        Err(CommandError::NotPrefixed),
        classic_dispatch(&commands, &p, "ping", None, None).map(|_| ())
    );

    // Unknown top-level command.
    match classic_dispatch(&commands, &p, "!nope", None, None) {
        Err(CommandError::NotFound(m)) => assert_eq!(m, "Command 'nope' does not exist"),
        other => panic!("expected NotFound, got {other:?}"),
    }

    // A group reached with no matching subcommand is a usage error.
    match classic_dispatch(&commands, &p, "!root g xyz", None, None) {
        Err(CommandError::UnexpectedArgs(m)) => {
            assert_eq!(m, "Expected command, found group 'g'");
        },
        other => panic!("expected UnexpectedArgs, got {other:?}"),
    }

    // A required argument with no remaining text.
    match classic_dispatch(&commands, &p, "!root g s", None, None) {
        Err(CommandError::MissingArgs(m)) => {
            assert_eq!(m, "Expected a required argument 'a' of type 'bool'");
        },
        other => panic!("expected MissingArgs, got {other:?}"),
    }

    // A token that does not decode under the declared kind.
    match classic_dispatch(&commands, &p, "!root g s seven", None, None) {
        Err(CommandError::Other(m)) => assert_eq!(m, "Failed to parse 'seven' as bool"),
        other => panic!("expected a decode error, got {other:?}"),
    }
}

#[test]
fn required_message_argument_takes_the_replied_to_message() {
    let commands = registry();
    let p = prefixes();

    // With a replied-to message its identifier is bound implicitly.
    let (_, _, _, args) =
        classic_dispatch(&commands, &p, "!reply", Some(777), None).unwrap();
    assert_eq!(777, args.message("target").unwrap().id());

    // Without one, the identifier is read from the text.
    let (_, _, _, args) = classic_dispatch(&commands, &p, "!reply 555", None, None).unwrap();
    assert_eq!(555, args.message("target").unwrap().id());

    // Without either source the argument is missing.
    match classic_dispatch(&commands, &p, "!reply", None, None) {
        Err(CommandError::MissingArgs(_)) => {},
        other => panic!("expected MissingArgs, got {other:?}"),
    }
}

#[test]
fn structured_payload_resolves_group_sub_and_binds_bool() {
    let commands = registry();
    let payload = vec![PayloadOption {
        name: "g".to_string(),
        value: PayloadValue::SubCommandGroup(vec![PayloadOption {
            name: "s".to_string(),
            value: PayloadValue::SubCommand(vec![PayloadOption {
                name: "a".to_string(),
                value: PayloadValue::Bool(true),
            }]),
        }]),
    }];
    let (base, leaf, handlers, args) =
        interaction_dispatch(&commands, "root", payload).unwrap();
    assert_eq!("root", base.command.name);
    assert_eq!("s", leaf.name);
    assert_eq!(vec![21], handlers);
    assert_eq!(1, args.len());
    assert_eq!(Ok(true), args.bool("a"));
}

#[test]
fn structured_payload_errors() {
    let commands = registry();

    match interaction_dispatch(&commands, "missing", Vec::new()) {
        Err(CommandError::NotFound(m)) => assert_eq!(m, "Command 'missing' does not exist"),
        other => panic!("expected NotFound, got {other:?}"),
    }

    // An option naming no subcommand or group under the current node.
    let base = commands.get("root").unwrap();
    let payload = vec![PayloadOption {
        name: "zzz".to_string(),
        value: PayloadValue::SubCommand(vec![]),
    }];
    match slash_dispatch(base, payload) {
        Err(CommandError::NotFound(m)) => {
            assert_eq!(m, "Subcommand or group not found: 'zzz'");
        },
        other => panic!("expected NotFound, got {other:?}"),
    }

    // A payload ending on a group rather than an invocable leaf.
    let payload = vec![PayloadOption {
        name: "g".to_string(),
        value: PayloadValue::SubCommandGroup(vec![]),
    }];
    match slash_dispatch(base, payload) {
        Err(CommandError::UnexpectedArgs(m)) => {
            assert_eq!(m, "Expected command, found group 'g'");
        },
        other => panic!("expected UnexpectedArgs, got {other:?}"),
    }

    // A focused (autocomplete) value cannot be bound.
    let payload = vec![PayloadOption {
        name: "a".to_string(),
        value: PayloadValue::Focused,
    }];
    match slash_dispatch(base, payload) {
        Err(CommandError::Other(m)) => assert_eq!(m, "Could not process argument: 'a'"),
        other => panic!("expected a conversion error, got {other:?}"),
    }

    // A leaf without slash handlers cannot serve a structured invocation.
    let ping = commands.get("ping").unwrap();
    match slash_dispatch(ping, Vec::new()) {
        Err(CommandError::Other(m)) => {
            assert_eq!(m, "No slash commands found for command call: 'ping'");
        },
        other => panic!("expected a no-handlers error, got {other:?}"),
    }
}

#[test]
fn first_seen_error_wins_in_reduction() {
    // One erroring and one succeeding handler: the error is the outcome,
    // whichever completed first.
    let r = reduce_results(vec![
        Err(CommandError::AccessDenied),
        Ok(Response::CreateMessage("done".to_string())),
    ]);
    assert_eq!(Err(CommandError::AccessDenied), r);

    let r = reduce_results(vec![
        Ok(Response::CreateMessage("done".to_string())),
        Err(CommandError::AccessDenied),
    ]);
    assert_eq!(Err(CommandError::AccessDenied), r);
}

#[test]
fn all_succeeding_handlers_reduce_to_exactly_one_of_them() {
    let produced = vec![
        Ok(Response::CreateMessage("one".to_string())),
        Ok(Response::CreateMessage("two".to_string())),
    ];
    let r = reduce_results(produced.clone());
    assert!(r.is_ok());
    // Exactly one of the produced set, not a specific one: completion
    // order is nondeterministic across runs.
    assert!(produced.iter().any(|p| *p == r));

    let r = reduce_results(vec![Ok(Response::Nothing)]);
    assert_eq!(Ok(Response::none()), r);
}

#[test]
fn registry_rejects_duplicate_names() {
    let mut commands = Commands::new();
    assert!(commands.register(command("x", "d").build()));
    assert!(!commands.register(command("x", "other").build()));
    assert!(commands.get("x").is_some());
    assert!(commands.get("y").is_none());
}
