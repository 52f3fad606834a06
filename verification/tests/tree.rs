use command_engine::builder::{
    attachment, bool, channel, command, group, integer, mention, message, number, role, string,
    sub, user, BaseCommand, CommandOption, ConstraintIssue, ValidationIssue,
};
use command_engine::function::{Function, FunctionKind};

const SEND_MESSAGES: u64 = 1 << 11;

fn commands() -> Vec<BaseCommand> {
    let mut commands = Vec::with_capacity(8);

    commands.push(
        command("message", "test")
            .attach(Function::Classic(1))
            .attach(Function::Slash(2))
            .attach(Function::Message(3))
            .attach(Function::User(4))
            .dm()
            .option(CommandOption::Arg(message("message", "description"))),
    );

    commands.push(command("a", "description"));

    commands.push(
        command("b", "description")
            .attach(Function::Message(3))
            .attach(Function::User(4)),
    );

    commands.push(
        command("c", "description")
            .attach(Function::Classic(1))
            .permissions(SEND_MESSAGES)
            .option(CommandOption::Arg(bool("ca", "description").required()))
            .option(CommandOption::Arg(bool("cb", "description"))),
    );

    commands.push(
        command("d", "")
            .attach(Function::Classic(1))
            .attach(Function::Slash(2))
            .attach(Function::Message(3))
            .attach(Function::User(4))
            .permissions(0)
            .option(CommandOption::Arg(
                number("da", "description")
                    .required()
                    .min((0.0f64).to_bits())
                    .max((100.0f64).to_bits())
                    .choices(vec![
                        ("daa".to_string(), (24.0f64).to_bits()),
                        ("dab".to_string(), (42.0f64).to_bits()),
                    ])
                    .build(),
            ))
            .option(CommandOption::Arg(
                integer("db", "description")
                    .required()
                    .min(0)
                    .max(100)
                    .choices(vec![("dba".to_string(), 24), ("dbb".to_string(), 42)])
                    .build(),
            ))
            .option(CommandOption::Arg(
                string("dc", "description")
                    .required()
                    .choices(vec![("dca".to_string(), 1234.to_string())])
                    .build(),
            ))
            .option(CommandOption::Arg(
                channel("dd", "description").required().types(vec![0]).build(),
            ))
            .option(CommandOption::Arg(bool("de", "description").required()))
            .option(CommandOption::Arg(user("df", "description").required()))
            .option(CommandOption::Arg(role("dg", "description").required()))
            .option(CommandOption::Arg(message("dh", "description").required()))
            .option(CommandOption::Arg(mention("di", "description").required()))
            .option(CommandOption::Arg(attachment("dj", "description"))),
    );

    commands.push(
        command("e", "description")
            .attach(Function::Classic(1))
            .attach(Function::Slash(2))
            .attach(Function::Message(3))
            .attach(Function::User(4))
            .dm()
            .permissions(u64::MAX)
            .option(CommandOption::Sub(sub("ea", "description").build()))
            .option(CommandOption::Sub(
                sub("eb", "description")
                    .attach(Function::Classic(1))
                    .attach(Function::Slash(2))
                    .option(CommandOption::Arg(
                        number("eaa", "description")
                            .min((0.0f64).to_bits())
                            .max((100.0f64).to_bits())
                            .choices(vec![
                                ("eaaa".to_string(), (24.0f64).to_bits()),
                                ("eaab".to_string(), (42.0f64).to_bits()),
                            ])
                            .build(),
                    ))
                    .option(CommandOption::Arg(
                        integer("eab", "description")
                            .min(0)
                            .max(100)
                            .choices(vec![("eaba".to_string(), 24), ("eabb".to_string(), 42)])
                            .build(),
                    ))
                    .option(CommandOption::Arg(
                        string("eac", "description")
                            .choices(vec![("foo".to_string(), "bar".to_string())])
                            .build(),
                    ))
                    .option(CommandOption::Arg(
                        channel("ead", "description").types(vec![0]).build(),
                    ))
                    .option(CommandOption::Arg(bool("eae", "description")))
                    .option(CommandOption::Arg(user("eaf", "description")))
                    .option(CommandOption::Arg(role("eag", "description")))
                    .option(CommandOption::Arg(message("eah", "description")))
                    .option(CommandOption::Arg(mention("eai", "description")))
                    .option(CommandOption::Arg(attachment("eaj", "description")))
                    .build(),
            ))
            .option(CommandOption::Group(
                group("ec", "description")
                    .option(sub("eca", "description").build())
                    .option(
                        sub("ecb", "description")
                            .attach(Function::Classic(1))
                            .attach(Function::Slash(2))
                            .option(CommandOption::Arg(bool("ecba", "description").required()))
                            .option(CommandOption::Arg(bool("ecbb", "description")))
                            .build(),
                    )
                    .build(),
            )),
    );

    commands.into_iter().map(|c| c.build()).collect::<Vec<_>>()
}

#[test]
fn valid_commands() {
    commands()
        .iter()
        .filter_map(|c| Some((c.validate().err()?, c)))
        .for_each(|(e, c)| panic!("\n{c:#?}\n\n{e:?}"));
}

#[test]
fn commands_help() {
    commands()
        .iter()
        .for_each(|c| println!("{}\n", c.generate_help()))
}

#[test]
fn help_text_layout() {
    let c = command("ping", "answers")
        .attach(Function::Classic(1))
        .option(CommandOption::Arg(bool("flag", "does-it").required()))
        .build();
    let expected = "```yaml\n\
                    ping             answers\n\
                    \t<flag>           does-it\n\
                    \n\
                    Permissions required: None\n\
                    Enabled in DMs: No\n\
                    Types: Classic\n\
                    ```";
    assert_eq!(expected, c.generate_help());

    let d = command("longcommandnamepastpad", "d")
        .attach(Function::Classic(1))
        .attach(Function::Slash(2))
        .dm()
        .permissions(5)
        .help("extra words".to_string())
        .build();
    let expected = "```yaml\n\
                    longcommandnamepastpad d\n\
                    \n\
                    extra words\n\
                    Permissions required: 5\n\
                    Enabled in DMs: Yes\n\
                    Types: Classic, Slash\n\
                    ```";
    assert_eq!(expected, d.generate_help());
}

#[test]
fn validation_rejects_uncovered_subcommand_kind() {
    // The subcommand serves Slash, which its parent does not serve.
    let bad = command("root", "d")
        .attach(Function::Classic(1))
        .option(CommandOption::Sub(
            sub("s", "d").attach(Function::Slash(2)).build(),
        ))
        .build();
    match bad.validate() {
        Err(e) => {
            assert_eq!(1, e.0.len());
            match &e.0[0] {
                ValidationIssue::MissingKind { base, sub, kind } => {
                    assert_eq!("root", base);
                    assert_eq!("s", sub);
                    assert_eq!(FunctionKind::Slash, *kind);
                },
                other => panic!("expected a missing-kind issue, got {other:?}"),
            }
        },
        Ok(()) => panic!("expected validation to fail"),
    }

    // The same shape with the kind covered validates.
    let good = command("root", "d")
        .attach(Function::Classic(1))
        .attach(Function::Slash(2))
        .option(CommandOption::Sub(
            sub("s", "d").attach(Function::Slash(2)).build(),
        ))
        .build();
    assert!(good.validate().is_ok());
}

#[test]
fn validation_descends_into_nested_subcommands() {
    // The innermost subcommand serves a kind that its nearest ancestor
    // command — the middle subcommand — does not serve.
    let bad = command("root", "d")
        .attach(Function::Classic(1))
        .option(CommandOption::Sub(
            sub("mid", "d")
                .attach(Function::Classic(1))
                .option(CommandOption::Sub(
                    sub("inner", "d").attach(Function::Slash(2)).build(),
                ))
                .build(),
        ))
        .build();
    let e = bad.validate().unwrap_err();
    assert_eq!(1, e.0.len());
    match &e.0[0] {
        ValidationIssue::MissingKind { base, sub, kind } => {
            assert_eq!("mid", base);
            assert_eq!("inner", sub);
            assert_eq!(FunctionKind::Slash, *kind);
        },
        other => panic!("expected a missing-kind issue, got {other:?}"),
    }

    // A subcommand nested under a group's subcommand is checked the same
    // way, against the group's subcommand.
    let bad = command("root", "d")
        .attach(Function::Classic(1))
        .option(CommandOption::Group(
            group("g", "d")
                .option(
                    sub("mid", "d")
                        .attach(Function::Classic(1))
                        .option(CommandOption::Sub(
                            sub("inner", "d").attach(Function::User(4)).build(),
                        ))
                        .build(),
                )
                .build(),
        ))
        .build();
    let e = bad.validate().unwrap_err();
    assert_eq!(1, e.0.len());
    match &e.0[0] {
        ValidationIssue::MissingKind { base, sub, kind } => {
            assert_eq!("mid", base);
            assert_eq!("inner", sub);
            assert_eq!(FunctionKind::User, *kind);
        },
        other => panic!("expected a missing-kind issue, got {other:?}"),
    }

    // With every nesting level covered by its ancestor, the tree passes.
    let good = command("root", "d")
        .attach(Function::Classic(1))
        .attach(Function::Slash(2))
        .option(CommandOption::Sub(
            sub("mid", "d")
                .attach(Function::Classic(1))
                .attach(Function::Slash(2))
                .option(CommandOption::Sub(
                    sub("inner", "d").attach(Function::Slash(2)).build(),
                ))
                .build(),
        ))
        .build();
    assert!(good.validate().is_ok());
}

#[test]
fn validation_collects_every_violation() {
    // Two subcommands with uncovered kinds, one inside a group: all are
    // reported together.
    let bad = command("root", "d")
        .attach(Function::Slash(2))
        .option(CommandOption::Sub(
            sub("s1", "d").attach(Function::Classic(1)).build(),
        ))
        .option(CommandOption::Group(
            group("g", "d")
                .option(sub("s2", "d").attach(Function::User(4)).build())
                .build(),
        ))
        .build();
    let e = bad.validate().unwrap_err();
    assert_eq!(2, e.0.len());
}

#[test]
fn validation_rejects_bad_string_bounds() {
    let bad = command("root", "d")
        .attach(Function::Slash(2))
        .option(CommandOption::Arg(
            string("s", "d").max_length(0).min_length(6001).build(),
        ))
        .build();
    // Out-of-range maximum, out-of-range minimum, and minimum above
    // maximum are each reported.
    let e = bad.validate().unwrap_err();
    assert_eq!(3, e.0.len());
    match &e.0[0] {
        ValidationIssue::BadConstraint { command, arg, issue } => {
            assert_eq!("root", command);
            assert_eq!("s", arg);
            assert_eq!(ConstraintIssue::MaxLengthRange, *issue);
        },
        other => panic!("expected a constraint issue, got {other:?}"),
    }

    // Without any descriptor-converting kind the same bounds pass, since
    // no platform descriptor is derived.
    let classic_only = command("root", "d")
        .attach(Function::Classic(1))
        .option(CommandOption::Arg(
            string("s", "d").max_length(0).min_length(6001).build(),
        ))
        .build();
    assert!(classic_only.validate().is_ok());
}

#[test]
fn descriptors_deduplicate_kinds_in_first_seen_order() {
    let b = command("top", "d")
        .attach(Function::Slash(1))
        .attach(Function::Classic(2))
        .attach(Function::User(3))
        .attach(Function::Slash(4))
        .dm()
        .permissions(7)
        .build();
    let ds = b.descriptors().unwrap();
    assert_eq!(2, ds.len());
    assert_eq!(FunctionKind::Slash, ds[0].kind);
    assert_eq!(FunctionKind::User, ds[1].kind);
    assert_eq!("top", ds[0].name);
    assert_eq!(true, ds[1].dm_enabled);
    assert_eq!(Some(7), ds[1].member_permissions);
}
