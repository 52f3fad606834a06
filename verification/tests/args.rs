use command_engine::arg::{Arg, ArgValue, ArgValueExt, Args, Ref};
use command_engine::builder;
use command_engine::builder::ArgKind;
use command_engine::error::CommandError;

fn sample_args() -> Args {
    Args::from(vec![
        Arg { name: "b".to_string(), value: ArgValue::Bool(true) },
        Arg { name: "n".to_string(), value: ArgValue::Number((2.5f64).to_bits()) },
        Arg { name: "i".to_string(), value: ArgValue::Integer(-42) },
        Arg { name: "s".to_string(), value: ArgValue::String("hello".to_string()) },
        Arg { name: "c".to_string(), value: ArgValue::Channel(Ref::Id(11)) },
        Arg { name: "m".to_string(), value: ArgValue::Message(Ref::Obj(12)) },
        Arg { name: "a".to_string(), value: ArgValue::Attachment(Ref::Id(13)) },
        Arg { name: "u".to_string(), value: ArgValue::User(Ref::Id(14)) },
        Arg { name: "r".to_string(), value: ArgValue::Role(Ref::Id(15)) },
        Arg { name: "g".to_string(), value: ArgValue::Mention(16) },
    ])
}

#[test]
fn lookup_returns_exact_stored_values() {
    let args = sample_args();
    assert_eq!(Ok(true), args.bool("b"));
    assert_eq!(Ok((2.5f64).to_bits()), args.number("n"));
    assert_eq!(Ok(-42), args.integer("i"));
    assert_eq!("hello", args.string("s").unwrap());
    assert_eq!(Ok(Ref::Id(11)), args.channel("c"));
    assert_eq!(Ok(Ref::Obj(12)), args.message("m"));
    assert_eq!(Ok(Ref::Id(13)), args.attachment("a"));
    assert_eq!(Ok(Ref::Id(14)), args.user("u"));
    assert_eq!(Ok(Ref::Id(15)), args.role("r"));
    assert_eq!(Ok(16), args.mention("g"));
    assert_eq!(Some(&ArgValue::Bool(true)), args.get("b"));
    assert_eq!(None, args.get("absent"));
}

#[test]
fn lookup_missing_and_mismatched() {
    let args = sample_args();
    // Absent names are MissingArgs for every accessor kind.
    assert_eq!(Err(CommandError::MissingArgs(String::new())), args.bool("zzz"));
    assert_eq!(Err(CommandError::MissingArgs(String::new())), args.number("zzz"));
    assert_eq!(Err(CommandError::MissingArgs(String::new())), args.mention("zzz"));
    match args.integer("nope") {
        Err(CommandError::MissingArgs(m)) => assert_eq!(m, "nope"),
        other => panic!("expected MissingArgs, got {other:?}"),
    }
    // Present under a different variant is ArgsMismatch for every kind.
    assert_eq!(Err(CommandError::ArgsMismatch), args.bool("i"));
    assert_eq!(Err(CommandError::ArgsMismatch), args.number("b"));
    assert_eq!(Err(CommandError::ArgsMismatch), args.integer("s"));
    assert_eq!(Err(CommandError::ArgsMismatch), args.string("c"));
    assert_eq!(Err(CommandError::ArgsMismatch), args.channel("m"));
    assert_eq!(Err(CommandError::ArgsMismatch), args.message("a"));
    assert_eq!(Err(CommandError::ArgsMismatch), args.attachment("u"));
    assert_eq!(Err(CommandError::ArgsMismatch), args.user("r"));
    assert_eq!(Err(CommandError::ArgsMismatch), args.role("g"));
    assert_eq!(Err(CommandError::ArgsMismatch), args.mention("b"));
}

#[test]
fn first_binding_wins_and_inner_vector_round_trips() {
    let args = Args::from(vec![
        Arg { name: "x".to_string(), value: ArgValue::Integer(1) },
        Arg { name: "x".to_string(), value: ArgValue::Integer(2) },
    ]);
    assert_eq!(Ok(1), args.integer("x"));
    assert_eq!(2, args.len());
    let inner = args.into_inner();
    assert_eq!(2, inner.len());
    assert_eq!(ArgValue::Integer(2), inner[1].value);
}

#[test]
fn decode_bool_and_integer_tokens() {
    let b = ArgKind::Bool;
    assert_eq!(Ok(ArgValue::Bool(true)), ArgValue::from_kind(&b, "true"));
    assert_eq!(Ok(ArgValue::Bool(true)), ArgValue::from_kind(&b, "TRUE"));
    assert_eq!(Ok(ArgValue::Bool(false)), ArgValue::from_kind(&b, "FaLsE"));
    match ArgValue::from_kind(&b, "yes") {
        Err(CommandError::Other(m)) => assert_eq!(m, "Failed to parse 'yes' as bool"),
        other => panic!("expected decode error, got {other:?}"),
    }

    let i = builder::integer("n", "d").build().kind;
    assert_eq!(Ok(ArgValue::Integer(-7)), ArgValue::from_kind(&i, "-7"));
    assert_eq!(
        Ok(ArgValue::Integer(i64::MIN)),
        ArgValue::from_kind(&i, "-9223372036854775808")
    );
    assert!(ArgValue::from_kind(&i, "9223372036854775808").is_err());
    assert!(ArgValue::from_kind(&i, "1.5").is_err());
}

#[test]
fn decode_number_tokens_through_json_parser() {
    let n = builder::number("n", "d").build().kind;
    assert_eq!(
        Ok(ArgValue::Number((2.5f64).to_bits())),
        ArgValue::from_kind(&n, "2.5")
    );
    assert_eq!(
        Ok(ArgValue::Number((-0.125f64).to_bits())),
        ArgValue::from_kind(&n, "-0.125")
    );
    assert_eq!(Ok(ArgValue::Number((100f64).to_bits())), ArgValue::from_kind(&n, "1e2"));
    match ArgValue::from_kind(&n, "abc") {
        Err(CommandError::Other(m)) => assert_eq!(m, "Failed to parse 'abc' as number"),
        other => panic!("expected decode error, got {other:?}"),
    }
}

#[test]
fn decode_string_keeps_token() {
    let k = builder::string("s", "d").build().kind;
    assert_eq!(
        Ok(ArgValue::String("some words".to_string())),
        ArgValue::from_kind(&k, "some words")
    );
}

#[test]
fn decode_reference_tokens_mention_first_then_raw_id() {
    let c = builder::channel("c", "d").build().kind;
    assert_eq!(Ok(ArgValue::Channel(Ref::Id(123))), ArgValue::from_kind(&c, "<#123>"));
    assert_eq!(Ok(ArgValue::Channel(Ref::Id(123))), ArgValue::from_kind(&c, "  <#123> "));
    assert_eq!(Ok(ArgValue::Channel(Ref::Id(99))), ArgValue::from_kind(&c, "99"));
    assert!(ArgValue::from_kind(&c, "<@123>").is_err());

    let u = ArgKind::User;
    assert_eq!(Ok(ArgValue::User(Ref::Id(42))), ArgValue::from_kind(&u, "<@42>"));
    assert_eq!(Ok(ArgValue::User(Ref::Id(42))), ArgValue::from_kind(&u, "<@!42>"));
    assert_eq!(Ok(ArgValue::User(Ref::Id(7))), ArgValue::from_kind(&u, "7"));

    let r = ArgKind::Role;
    assert_eq!(Ok(ArgValue::Role(Ref::Id(5))), ArgValue::from_kind(&r, "<@&5>"));
    assert!(ArgValue::from_kind(&r, "<@5>").is_err());

    let m = ArgKind::Message;
    assert_eq!(Ok(ArgValue::Message(Ref::Id(31))), ArgValue::from_kind(&m, "31"));
    assert!(ArgValue::from_kind(&m, "0").is_err());

    let g = ArgKind::Mention;
    assert_eq!(Ok(ArgValue::Mention(8)), ArgValue::from_kind(&g, "8"));
    assert!(ArgValue::from_kind(&g, "<#8>").is_err());
}

#[test]
fn reference_decode_failure_chains_both_messages() {
    // Both readings of a reference token failed, and the error says so:
    // the mention attempt and the raw-identifier attempt are chained.
    let c = builder::channel("c", "d").build().kind;
    match ArgValue::from_kind(&c, "zzz") {
        Err(CommandError::Other(m)) => assert_eq!(
            m,
            "Failed to parse 'zzz' as channel \
             (as mention: no inline mention; as id: not a nonzero decimal identifier)"
        ),
        other => panic!("expected a chained decode error, got {other:?}"),
    }
    match ArgValue::from_kind(&ArgKind::User, "<#1>") {
        Err(CommandError::Other(m)) => assert_eq!(
            m,
            "Failed to parse '<#1>' as user \
             (as mention: no inline mention; as id: not a nonzero decimal identifier)"
        ),
        other => panic!("expected a chained decode error, got {other:?}"),
    }
    match ArgValue::from_kind(&ArgKind::Role, "0") {
        Err(CommandError::Other(m)) => assert_eq!(
            m,
            "Failed to parse '0' as role \
             (as mention: no inline mention; as id: not a nonzero decimal identifier)"
        ),
        other => panic!("expected a chained decode error, got {other:?}"),
    }
    // A kind without a mention form keeps the plain message.
    match ArgValue::from_kind(&ArgKind::Message, "xyz") {
        Err(CommandError::Other(m)) => assert_eq!(m, "Failed to parse 'xyz' as message"),
        other => panic!("expected a plain decode error, got {other:?}"),
    }
}

#[test]
fn optional_values_expose_typed_accessors() {
    let args = sample_args();
    assert_eq!(Some(true), args.get("b").bool());
    assert_eq!(None, args.get("b").integer());
    assert_eq!(None, args.get("zzz").bool());
    assert_eq!(Some(Ref::Id(15)), args.get("r").role());
    assert_eq!("hello", args.get("s").string().unwrap());
    let owned: Option<ArgValue> = Some(ArgValue::Mention(9));
    assert_eq!(Some(9), owned.mention());
    let absent: Option<ArgValue> = None;
    assert_eq!(None, absent.user());
}

#[test]
fn ref_exposes_identifier_for_both_variants() {
    assert_eq!(10, Ref::Id(10).id());
    assert_eq!(20, Ref::from_obj(20).id());
}
