//! The router and execution engine: resolving an inbound invocation to one
//! leaf command with bound arguments, and reducing handler outcomes to a
//! single response.

use crate::arg::{
    decode_error_message, spec_decode_fails, spec_decode_ok, Arg, ArgValue, Args, Ref,
};
use crate::builder::{
    handlers_of_kind, has_kind, ArgDesc, ArgKind, BaseCommand, CommandFunction, CommandGroup,
    CommandOption,
};
use crate::error::{CommandError, Response};
use crate::function::FunctionKind;
use crate::parser::{
    find_char, find_ws, is_delimiter, missing_delimiter_message, str_eq, trimmed,
    maybe_quoted_arg, split_once_whitespace,
};
use vstd::prelude::*;
use vstd::string::StrSliceExecFns;
use vstd::string::StringExecFns;

verus! {

/// The registry of top-level commands, name to command, built once at
/// startup and shared read-only thereafter.
#[derive(Debug)]
pub struct Commands(pub Vec<BaseCommand>);

impl View for Commands {
    type V = Seq<BaseCommand>;

    open spec fn view(&self) -> Seq<BaseCommand> {
        self.0@
    }
}

/// The command registered under `name` in `s`, taking the first when a
/// name repeats.
pub open spec fn spec_commands_get(s: Seq<BaseCommand>, name: Seq<char>) -> Option<BaseCommand>
    decreases s.len(),
{
    if s.len() == 0 {
        None
    } else if s[0].command.name@ == name {
        Some(s[0])
    } else {
        spec_commands_get(s.skip(1), name)
    }
}

proof fn lemma_commands_get_skip(s: Seq<BaseCommand>, name: Seq<char>, i: int)
    requires
        0 <= i <= s.len(),
        forall|j: int| 0 <= j < i ==> s[j].command.name@ != name,
    ensures
        spec_commands_get(s, name) == spec_commands_get(s.skip(i), name),
    decreases i,
{
    if i > 0 {
        lemma_commands_get_skip(s, name, i - 1);
        let t = s.skip(i - 1);
        assert(t.len() > 0);
        assert(t[0] == s[i - 1]);
        assert(t.skip(1) =~= s.skip(i));
    } else {
        assert(s.skip(0) =~= s);
    }
}

impl Commands {
    /// An empty registry.
    pub fn new() -> (r: Commands)
        ensures
            r@.len() == 0,
    {
        Commands(Vec::new())
    }

    /// Registers a command. Returns `true` and appends it when no command
    /// of that name is present; returns `false` and leaves the registry
    /// unchanged otherwise.
    pub fn register(&mut self, cmd: BaseCommand) -> (r: bool)
        ensures
            r == (spec_commands_get(old(self)@, cmd.command.name@) is None),
            r ==> final(self)@ == old(self)@.push(cmd),
            !r ==> final(self)@ == old(self)@,
    {
        let absent = self.get(cmd.command.name.as_str()).is_none();
        if absent {
            self.0.push(cmd);
            true
        } else {
            false
        }
    }

    /// The command registered under `name`, if any.
    pub fn get(&self, name: &str) -> (r: Option<&BaseCommand>)
        ensures
            match r {
                Some(b) => spec_commands_get(self@, name@) == Some(*b),
                None => spec_commands_get(self@, name@) is None,
            },
    {
        let n = self.0.len();
        let mut i: usize = 0;
        while i < n
            invariant
                i <= n,
                n == self.0@.len(),
                forall|j: int| 0 <= j < i ==> self.0@[j].command.name@ != name@,
            decreases n - i,
        {
            if str_eq(self.0[i].command.name.as_str(), name) {
                proof {
                    lemma_commands_get_skip(self.0@, name@, i as int);
                    assert(self.0@.skip(i as int)[0] == self.0@[i as int]);
                }
                return Some(&self.0[i]);
            }
            i = i + 1;
        }
        proof {
            lemma_commands_get_skip(self.0@, name@, n as int);
            assert(self.0@.skip(n as int) =~= Seq::<BaseCommand>::empty());
        }
        None
    }
}

/// The view of an optional remaining-text slice.
pub open spec fn view_opt(rest: Option<&str>) -> Option<Seq<char>> {
    match rest {
        Some(s) => Some(s@),
        None => None,
    }
}

/// The head token and the remainder of an optional remaining text, read as
/// the text router reads it: absent text is read as empty.
pub open spec fn spec_split_head(rest: Option<Seq<char>>) -> (Seq<char>, Option<Seq<char>>) {
    let t = match rest {
        Some(s) => s,
        None => Seq::empty(),
    };
    match find_ws(t, 0) {
        Some(j) => (t.subrange(0, j as int), Some(t.subrange(j as int + 1, t.len() as int))),
        None => (t, None),
    }
}

/// The index of the first subcommand or group among `opts` named `name`;
/// argument options never match.
pub open spec fn spec_find_node(opts: Seq<CommandOption>, name: Seq<char>) -> Option<int>
    decreases opts.len(),
{
    if opts.len() == 0 {
        None
    } else {
        let head_matches = match opts[0] {
            CommandOption::Sub(s) => s.name@ == name,
            CommandOption::Group(g) => g.name@ == name,
            CommandOption::Arg(_) => false,
        };
        if head_matches {
            Some(0)
        } else {
            match spec_find_node(opts.skip(1), name) {
                Some(i) => Some(i + 1),
                None => None,
            }
        }
    }
}

proof fn lemma_find_node(opts: Seq<CommandOption>, name: Seq<char>)
    ensures
        match spec_find_node(opts, name) {
            Some(i) => 0 <= i < opts.len() && (opts[i] is Sub || opts[i] is Group)
                && opts[i].spec_name() == name,
            None => true,
        },
    decreases opts.len(),
{
    if opts.len() > 0 {
        lemma_find_node(opts.skip(1), name);
        if let Some(i) = spec_find_node(opts, name) {
            if i > 0 {
                assert(opts.skip(1)[i - 1] == opts[i]);
            }
        }
    }
}

/// The index of the first subcommand among `subs` named `name`.
pub open spec fn spec_find_sub(subs: Seq<CommandFunction>, name: Seq<char>) -> Option<int>
    decreases subs.len(),
{
    if subs.len() == 0 {
        None
    } else if subs[0].name@ == name {
        Some(0)
    } else {
        match spec_find_sub(subs.skip(1), name) {
            Some(i) => Some(i + 1),
            None => None,
        }
    }
}

proof fn lemma_find_sub(subs: Seq<CommandFunction>, name: Seq<char>)
    ensures
        match spec_find_sub(subs, name) {
            Some(i) => 0 <= i < subs.len() && subs[i].name@ == name,
            None => true,
        },
    decreases subs.len(),
{
    if subs.len() > 0 {
        lemma_find_sub(subs.skip(1), name);
        if let Some(i) = spec_find_sub(subs, name) {
            if i > 0 {
                assert(subs.skip(1)[i - 1] == subs[i]);
            }
        }
    }
}

/// Walks the tree from `c` by whitespace-delimited name tokens: descends
/// through matching subcommand and group children and stops at the first
/// non-match, yielding the reached leaf and the unconsumed text. A group
/// reached with no matching child is an error carrying the group's name.
pub open spec fn spec_resolve_text(c: CommandFunction, rest: Option<Seq<char>>) -> Result<
    (CommandFunction, Option<Seq<char>>),
    Seq<char>,
>
    decreases c,
    via spec_resolve_text_decreases
{
    let (name, next) = spec_split_head(rest);
    match spec_find_node(c.options@, name) {
        Some(i) => match c.options@[i] {
            CommandOption::Sub(s) => spec_resolve_text(s, next),
            CommandOption::Group(g) => spec_resolve_group(g, next),
            CommandOption::Arg(_) => Ok((c, rest)),
        },
        None => Ok((c, rest)),
    }
}

#[via_fn]
proof fn spec_resolve_text_decreases(c: CommandFunction, rest: Option<Seq<char>>) {
    let (name, next) = spec_split_head(rest);
    if let Some(i) = spec_find_node(c.options@, name) {
        lemma_find_node(c.options@, name);
        assert(decreases_to!(c => c.options));
        assert(decreases_to!(c.options => c.options@[i]));
        match c.options@[i] {
            CommandOption::Sub(s) => {
                assert(decreases_to!(c.options@[i] => s));
                assert(decreases_to!(c => s));
            },
            CommandOption::Group(g) => {
                assert(decreases_to!(c.options@[i] => g));
                assert(decreases_to!(c => g));
            },
            CommandOption::Arg(_) => {},
        }
    }
}

/// Walks on from group `g`: its next token must name one of its
/// subcommands, else the walk errs with the group's name.
pub open spec fn spec_resolve_group(g: CommandGroup, rest: Option<Seq<char>>) -> Result<
    (CommandFunction, Option<Seq<char>>),
    Seq<char>,
>
    decreases g,
    via spec_resolve_group_decreases
{
    let (name, next) = spec_split_head(rest);
    match spec_find_sub(g.subs@, name) {
        Some(i) => spec_resolve_text(g.subs@[i], next),
        None => Err(g.name@),
    }
}

#[via_fn]
proof fn spec_resolve_group_decreases(g: CommandGroup, rest: Option<Seq<char>>) {
    let (name, next) = spec_split_head(rest);
    if let Some(i) = spec_find_sub(g.subs@, name) {
        lemma_find_sub(g.subs@, name);
        assert(decreases_to!(g => g.subs));
        assert(decreases_to!(g.subs => g.subs@[i]));
        assert(decreases_to!(g => g.subs@[i]));
    }
}

fn find_node(opts: &Vec<CommandOption>, name: &str) -> (r: Option<usize>)
    ensures
        match r {
            Some(i) => spec_find_node(opts@, name@) == Some(i as int),
            None => spec_find_node(opts@, name@) is None,
        },
{
    let n = opts.len();
    let mut i: usize = 0;
    proof {
        assert(opts@.skip(0) =~= opts@);
    }
    while i < n
        invariant
            i <= n,
            n == opts@.len(),
            spec_find_node(opts@, name@) == match spec_find_node(opts@.skip(i as int), name@) {
                Some(k) => Some(k + i),
                None => None::<int>,
            },
        decreases n - i,
    {
        proof {
            assert(opts@.skip(i as int)[0] == opts@[i as int]);
            assert(opts@.skip(i as int).skip(1) =~= opts@.skip(i as int + 1));
        }
        let hit = match &opts[i] {
            CommandOption::Sub(s) => str_eq(s.name.as_str(), name),
            CommandOption::Group(g) => str_eq(g.name.as_str(), name),
            CommandOption::Arg(_) => false,
        };
        if hit {
            return Some(i);
        }
        i = i + 1;
    }
    proof {
        assert(opts@.skip(n as int) =~= Seq::<CommandOption>::empty());
    }
    None
}

fn find_sub(subs: &Vec<CommandFunction>, name: &str) -> (r: Option<usize>)
    ensures
        match r {
            Some(i) => spec_find_sub(subs@, name@) == Some(i as int),
            None => spec_find_sub(subs@, name@) is None,
        },
{
    let n = subs.len();
    let mut i: usize = 0;
    proof {
        assert(subs@.skip(0) =~= subs@);
    }
    while i < n
        invariant
            i <= n,
            n == subs@.len(),
            spec_find_sub(subs@, name@) == match spec_find_sub(subs@.skip(i as int), name@) {
                Some(k) => Some(k + i),
                None => None::<int>,
            },
        decreases n - i,
    {
        proof {
            assert(subs@.skip(i as int)[0] == subs@[i as int]);
            assert(subs@.skip(i as int).skip(1) =~= subs@.skip(i as int + 1));
        }
        if str_eq(subs[i].name.as_str(), name) {
            return Some(i);
        }
        i = i + 1;
    }
    proof {
        assert(subs@.skip(n as int) =~= Seq::<CommandFunction>::empty());
    }
    None
}

/// The message of the group-reached error.
pub open spec fn expected_command_message(gname: Seq<char>) -> Seq<char> {
    "Expected command, found group '"@ + gname + "'"@
}

fn build_expected_command_message(gname: &str) -> (m: String)
    ensures
        m@ == expected_command_message(gname@),
{
    let mut m = String::from_str("Expected command, found group '");
    m.append(gname);
    m.append("'");
    m
}

/// Resolves free text against the tree rooted at `c`: reads
/// whitespace-delimited candidate names and descends while they match a
/// subcommand or group child; everything after the first non-match is left
/// as the leaf's raw argument text. Reaching a group whose next token
/// matches none of its subcommands is a usage error.
pub fn resolve_text<'a, 'b>(c: &'a CommandFunction, rest: Option<&'b str>) -> (r: Result<
    (&'a CommandFunction, Option<&'b str>),
    CommandError,
>)
    ensures
        match r {
            Ok((leaf, lrest)) => spec_resolve_text(*c, view_opt(rest)) == Ok::<
                (CommandFunction, Option<Seq<char>>),
                Seq<char>,
            >((*leaf, view_opt(lrest))),
            Err(e) => match spec_resolve_text(*c, view_opt(rest)) {
                Err(gname) => match e {
                    CommandError::UnexpectedArgs(m) => m@ == expected_command_message(gname),
                    _ => false,
                },
                Ok(_) => false,
            },
        },
    decreases *c,
{
    let (name, next) = split_once_whitespace(match rest {
        Some(s) => s,
        None => "",
    });
    proof {
        reveal_strlit("");
        assert(spec_split_head(view_opt(rest)) == (name@, view_opt(next)));
    }
    match find_node(&c.options, name) {
        Some(i) => {
            proof {
                lemma_find_node(c.options@, name@);
            }
            match &c.options[i] {
                CommandOption::Sub(s) => {
                    proof {
                        assert(decreases_to!(*c => c.options));
                        assert(decreases_to!(c.options => c.options@[i as int]));
                        assert(decreases_to!(c.options@[i as int] => *s));
                        assert(decreases_to!(*c => *s));
                    }
                    resolve_text(s, next)
                },
                CommandOption::Group(g) => {
                    proof {
                        assert(decreases_to!(*c => c.options));
                        assert(decreases_to!(c.options => c.options@[i as int]));
                        assert(decreases_to!(c.options@[i as int] => *g));
                        assert(decreases_to!(*c => *g));
                    }
                    resolve_group_walk(g, next)
                },
                CommandOption::Arg(_) => Ok((c, rest)),
            }
        },
        None => Ok((c, rest)),
    }
}

/// Resolves on from a reached group: the next token must name one of its
/// subcommands.
fn resolve_group_walk<'a, 'b>(g: &'a CommandGroup, rest: Option<&'b str>) -> (r: Result<
    (&'a CommandFunction, Option<&'b str>),
    CommandError,
>)
    ensures
        match r {
            Ok((leaf, lrest)) => spec_resolve_group(*g, view_opt(rest)) == Ok::<
                (CommandFunction, Option<Seq<char>>),
                Seq<char>,
            >((*leaf, view_opt(lrest))),
            Err(e) => match spec_resolve_group(*g, view_opt(rest)) {
                Err(gname) => match e {
                    CommandError::UnexpectedArgs(m) => m@ == expected_command_message(gname),
                    _ => false,
                },
                Ok(_) => false,
            },
        },
    decreases *g,
{
    let (name, next) = split_once_whitespace(match rest {
        Some(s) => s,
        None => "",
    });
    proof {
        reveal_strlit("");
        assert(spec_split_head(view_opt(rest)) == (name@, view_opt(next)));
    }
    match find_sub(&g.subs, name) {
        Some(i) => {
            proof {
                lemma_find_sub(g.subs@, name@);
                assert(decreases_to!(*g => g.subs));
                assert(decreases_to!(g.subs => g.subs@[i as int]));
                assert(decreases_to!(*g => g.subs@[i as int]));
            }
            resolve_text(&g.subs[i], next)
        },
        None => Err(CommandError::UnexpectedArgs(build_expected_command_message(g.name.as_str()))),
    }
}

/// The declared arguments among `opts`, in declaration order.
pub open spec fn spec_arg_descs(opts: Seq<CommandOption>) -> Seq<ArgDesc>
    decreases opts.len(),
{
    if opts.len() == 0 {
        Seq::empty()
    } else {
        match opts[0] {
            CommandOption::Arg(a) => seq![a] + spec_arg_descs(opts.skip(1)),
            _ => spec_arg_descs(opts.skip(1)),
        }
    }
}

/// The argument descriptions behind a sequence of references.
pub open spec fn deref_descs(s: Seq<&ArgDesc>) -> Seq<ArgDesc> {
    Seq::new(s.len(), |i: int| *s[i])
}

/// The declared arguments among the options, in declaration order.
pub fn arg_descs<'x>(opts: &'x Vec<CommandOption>) -> (r: Vec<&'x ArgDesc>)
    ensures
        deref_descs(r@) == spec_arg_descs(opts@),
{
    let n = opts.len();
    let mut out: Vec<&'x ArgDesc> = Vec::new();
    let mut i: usize = 0;
    proof {
        assert(opts@.skip(0) =~= opts@);
        assert(deref_descs(out@) =~= Seq::<ArgDesc>::empty());
        assert(Seq::<ArgDesc>::empty() + spec_arg_descs(opts@) =~= spec_arg_descs(opts@));
    }
    while i < n
        invariant
            i <= n,
            n == opts@.len(),
            deref_descs(out@) + spec_arg_descs(opts@.skip(i as int)) == spec_arg_descs(opts@),
        decreases n - i,
    {
        proof {
            assert(opts@.skip(i as int)[0] == opts@[i as int]);
            assert(opts@.skip(i as int).skip(1) =~= opts@.skip(i as int + 1));
        }
        let ghost prev = out@;
        match &opts[i] {
            CommandOption::Arg(a) => {
                out.push(a);
                proof {
                    assert(deref_descs(out@) =~= deref_descs(prev).push(*a));
                    assert(deref_descs(prev) + (seq![*a] + spec_arg_descs(
                        opts@.skip(i as int + 1),
                    )) =~= deref_descs(prev).push(*a) + spec_arg_descs(opts@.skip(i as int + 1)));
                }
            },
            _ => {},
        }
        i = i + 1;
    }
    proof {
        assert(opts@.skip(n as int) =~= Seq::<CommandOption>::empty());
        assert(deref_descs(out@) + Seq::<ArgDesc>::empty() =~= deref_descs(out@));
    }
    out
}

/// Whether the remaining text holds no further token: it is absent or all
/// whitespace. Running out of tokens here is a clean stop for optional
/// arguments and a missing-argument error for required ones.
pub open spec fn spec_no_token(rest: Option<Seq<char>>) -> bool {
    match rest {
        None => true,
        Some(s) => trimmed(s).len() == 0,
    }
}

/// Whether reading the next token fails on an unmatched opening delimiter.
pub open spec fn spec_token_err(rest: Option<Seq<char>>) -> bool {
    match rest {
        None => false,
        Some(s) => {
            let t = trimmed(s);
            t.len() > 0 && is_delimiter(t[0]) && find_char(t, 1, t[0]) is None
        },
    }
}

/// The next token and the text after it, when one can be read.
pub open spec fn spec_token(rest: Option<Seq<char>>) -> (Seq<char>, Option<Seq<char>>) {
    match rest {
        None => (Seq::empty(), None),
        Some(s) => {
            let t = trimmed(s);
            if t.len() > 0 && is_delimiter(t[0]) {
                match find_char(t, 1, t[0]) {
                    Some(j) => (
                        t.subrange(1, j as int),
                        Some(t.subrange(j as int + 1, t.len() as int)),
                    ),
                    None => (Seq::empty(), None),
                }
            } else {
                match find_ws(t, 0) {
                    Some(j) => (
                        t.subrange(0, j as int),
                        Some(t.subrange(j as int + 1, t.len() as int)),
                    ),
                    None => (t, None),
                }
            }
        },
    }
}

/// Whether binding the declared arguments `descs` against the implicit
/// sources and the remaining text may yield exactly the bound list `out`.
///
/// Required arguments are bound in declaration order: a required `Message`
/// takes the replied-to message when there is one, a required `Attachment`
/// the first uploaded attachment, both falling back to the text otherwise;
/// every other required argument takes the next token. A non-required
/// argument is bound only if text remains; running out of text there ends
/// the binding cleanly.
pub open spec fn spec_bind_ok(
    descs: Seq<ArgDesc>,
    replied: Option<u64>,
    attached: Option<u64>,
    rest: Option<Seq<char>>,
    out: Seq<Arg>,
) -> bool
    decreases descs.len(),
{
    if descs.len() == 0 {
        out.len() == 0
    } else {
        let d = descs[0];
        if d.required && d.kind is Message && replied is Some {
            out.len() > 0 && out[0].name@ == d.name@ && out[0].value == ArgValue::Message(
                Ref::Obj(replied->0),
            ) && spec_bind_ok(descs.skip(1), replied, attached, rest, out.skip(1))
        } else if d.required && d.kind is Attachment && attached is Some {
            out.len() > 0 && out[0].name@ == d.name@ && out[0].value == ArgValue::Attachment(
                Ref::Obj(attached->0),
            ) && spec_bind_ok(descs.skip(1), replied, attached, rest, out.skip(1))
        } else if spec_no_token(rest) {
            !d.required && out.len() == 0
        } else if spec_token_err(rest) {
            false
        } else {
            let (tok, next) = spec_token(rest);
            out.len() > 0 && out[0].name@ == d.name@ && spec_decode_ok(&d.kind, tok, out[0].value)
                && spec_bind_ok(descs.skip(1), replied, attached, next, out.skip(1))
        }
    }
}

/// Why argument binding fails: a required argument with no source (carrying
/// its description), an unmatched opening delimiter (carrying the trimmed
/// offending text), or a token that does not decode under the argument's
/// kind (carrying the description and the token).
pub enum BindFailure {
    Missing(ArgDesc),
    Token(Seq<char>),
    Decode(ArgDesc, Seq<char>),
}

/// The first failure that binding the declared arguments runs into, if any.
pub open spec fn spec_bind_failure(
    descs: Seq<ArgDesc>,
    replied: Option<u64>,
    attached: Option<u64>,
    rest: Option<Seq<char>>,
) -> Option<BindFailure>
    decreases descs.len(),
{
    if descs.len() == 0 {
        None
    } else {
        let d = descs[0];
        if d.required && d.kind is Message && replied is Some {
            spec_bind_failure(descs.skip(1), replied, attached, rest)
        } else if d.required && d.kind is Attachment && attached is Some {
            spec_bind_failure(descs.skip(1), replied, attached, rest)
        } else if spec_no_token(rest) {
            if d.required {
                Some(BindFailure::Missing(d))
            } else {
                None
            }
        } else if spec_token_err(rest) {
            Some(BindFailure::Token(trimmed(rest->0)))
        } else {
            let (tok, next) = spec_token(rest);
            if spec_decode_fails(&d.kind, tok) {
                Some(BindFailure::Decode(d, tok))
            } else {
                spec_bind_failure(descs.skip(1), replied, attached, next)
            }
        }
    }
}

/// The message of the missing-required-argument error: it names the
/// argument and its kind.
pub open spec fn missing_arg_message(d: ArgDesc) -> Seq<char> {
    "Expected a required argument '"@ + d.name@ + "' of type '"@ + d.kind.spec_kind_name() + "'"@
}

fn build_missing_arg_message(d: &ArgDesc) -> (m: String)
    ensures
        m@ == missing_arg_message(*d),
{
    let mut m = String::from_str("Expected a required argument '");
    m.append(d.name.as_str());
    m.append("' of type '");
    m.append(d.kind.kind_name());
    m.append("'");
    m
}

fn bind_from(
    descs: &Vec<&ArgDesc>,
    k: usize,
    replied: Option<u64>,
    attached: Option<u64>,
    rest: Option<&str>,
) -> (r: Result<Vec<Arg>, CommandError>)
    requires
        k <= descs@.len(),
    ensures
        ({
            let ds = deref_descs(descs@).skip(k as int);
            match r {
                Ok(v) => spec_bind_ok(ds, replied, attached, view_opt(rest), v@)
                    && spec_bind_failure(ds, replied, attached, view_opt(rest)) is None,
                Err(e) => match spec_bind_failure(ds, replied, attached, view_opt(rest)) {
                    Some(BindFailure::Missing(d)) => match e {
                        CommandError::MissingArgs(m) => m@ == missing_arg_message(d),
                        _ => false,
                    },
                    Some(BindFailure::Token(t)) => match e {
                        CommandError::Other(m) => m@ == missing_delimiter_message(t),
                        _ => false,
                    },
                    Some(BindFailure::Decode(d, tok)) => match e {
                        CommandError::Other(m) => m@ == decode_error_message(&d.kind, tok),
                        _ => false,
                    },
                    None => false,
                },
            }
        }),
    decreases descs@.len() - k,
{
    let ghost ds = deref_descs(descs@).skip(k as int);
    if k == descs.len() {
        proof {
            assert(ds.len() == 0);
        }
        return Ok(Vec::new());
    }
    let d: &ArgDesc = descs[k];
    proof {
        assert(ds[0] == *d);
        assert(ds.skip(1) =~= deref_descs(descs@).skip(k as int + 1));
    }
    let special: Option<ArgValue> = if d.required {
        match &d.kind {
            ArgKind::Message => match replied {
                Some(id) => Some(ArgValue::Message(Ref::from_obj(id))),
                None => None,
            },
            ArgKind::Attachment => match attached {
                Some(id) => Some(ArgValue::Attachment(Ref::from_obj(id))),
                None => None,
            },
            _ => None,
        }
    } else {
        None
    };
    if let Some(value) = special {
        match bind_from(descs, k + 1, replied, attached, rest) {
            Ok(tail) => {
                let mut out: Vec<Arg> = Vec::new();
                out.push(Arg { name: d.name.clone(), value });
                let mut tail = tail;
                let ghost tailv = tail@;
                out.append(&mut tail);
                proof {
                    assert(out@.skip(1) =~= tailv);
                }
                Ok(out)
            },
            Err(e) => Err(e),
        }
    } else {
        // Bind from the remaining text.
        let no_text = match rest {
            Some(s) => false,
            None => true,
        };
        if no_text {
            if d.required {
                return Err(CommandError::MissingArgs(build_missing_arg_message(d)));
            }
            return Ok(Vec::new());
        }
        let unparsed = match rest {
            Some(s) => s,
            None => "",
        };
        match maybe_quoted_arg(unparsed) {
            Err(e) => match e {
                crate::parser::ParseError::MissingArgs => {
                    if d.required {
                        Err(CommandError::MissingArgs(build_missing_arg_message(d)))
                    } else {
                        Ok(Vec::new())
                    }
                },
                crate::parser::ParseError::Other(m) => Err(CommandError::Other(m)),
                crate::parser::ParseError::UnexpectedArgs(_) => {
                    proof {
                        assert(false);
                    }
                    Err(CommandError::ArgsMismatch)
                },
            },
            Ok((tok, next)) => {
                proof {
                    assert((tok@, view_opt(next)) == spec_token(view_opt(rest)));
                }
                match Arg::from_desc(d, tok) {
                    Err(e) => Err(e),
                    Ok(a) => match bind_from(descs, k + 1, replied, attached, next) {
                        Ok(tail) => {
                            let mut out: Vec<Arg> = Vec::new();
                            out.push(a);
                            let mut tail = tail;
                            let ghost tailv = tail@;
                            out.append(&mut tail);
                            proof {
                                assert(out@.skip(1) =~= tailv);
                            }
                            Ok(out)
                        },
                        Err(e) => Err(e),
                    },
                }
            },
        }
    }
}

/// Binds the declared arguments of leaf `c` for a free-text invocation,
/// from the request's implicit sources (the replied-to message and the
/// first uploaded attachment, by identifier) and the remaining text.
pub fn parse_classic_args(
    c: &CommandFunction,
    replied: Option<u64>,
    first_attachment: Option<u64>,
    rest: Option<&str>,
) -> (r: Result<Args, CommandError>)
    ensures
        ({
            let ds = spec_arg_descs(c.options@);
            match r {
                Ok(args) => spec_bind_ok(ds, replied, first_attachment, view_opt(rest), args@)
                    && spec_bind_failure(ds, replied, first_attachment, view_opt(rest)) is None,
                Err(e) => match spec_bind_failure(ds, replied, first_attachment, view_opt(rest)) {
                    Some(BindFailure::Missing(d)) => match e {
                        CommandError::MissingArgs(m) => m@ == missing_arg_message(d),
                        _ => false,
                    },
                    Some(BindFailure::Token(t)) => match e {
                        CommandError::Other(m) => m@ == missing_delimiter_message(t),
                        _ => false,
                    },
                    Some(BindFailure::Decode(d, tok)) => match e {
                        CommandError::Other(m) => m@ == decode_error_message(&d.kind, tok),
                        _ => false,
                    },
                    None => false,
                },
            }
        }),
{
    let descs = arg_descs(&c.options);
    proof {
        assert(deref_descs(descs@).skip(0) =~= spec_arg_descs(c.options@));
    }
    match bind_from(&descs, 0, replied, first_attachment, rest) {
        Ok(v) => Ok(Args::from(v)),
        Err(e) => Err(e),
    }
}

/// A value of one option in a structured invocation payload: either a
/// nested subcommand or group wrapper, or a typed leaf value. Numbers carry
/// IEEE-754 bit patterns; reference-typed values carry identifiers.
#[derive(Debug)]
pub enum PayloadValue {
    SubCommand(Vec<PayloadOption>),
    SubCommandGroup(Vec<PayloadOption>),
    Bool(bool),
    Number(u64),
    Integer(i64),
    Str(String),
    Channel(u64),
    Mentionable(u64),
    Attachment(u64),
    User(u64),
    Role(u64),
    /// A partially-entered value of an autocomplete interaction; it carries
    /// no decoded data and cannot be bound as an argument.
    Focused,
}

/// One named option of a structured invocation payload.
#[derive(Debug)]
pub struct PayloadOption {
    pub name: String,
    pub value: PayloadValue,
}

/// The argument value a leaf payload value decodes to; nested wrappers and
/// focused values decode to nothing.
pub open spec fn spec_payload_arg(v: PayloadValue) -> Option<ArgValue> {
    match v {
        PayloadValue::SubCommand(_) => None,
        PayloadValue::SubCommandGroup(_) => None,
        PayloadValue::Bool(b) => Some(ArgValue::Bool(b)),
        PayloadValue::Number(bits) => Some(ArgValue::Number(bits)),
        PayloadValue::Integer(x) => Some(ArgValue::Integer(x)),
        PayloadValue::Str(s) => Some(ArgValue::String(s)),
        PayloadValue::Channel(id) => Some(ArgValue::Channel(Ref::Id(id))),
        PayloadValue::Mentionable(id) => Some(ArgValue::Mention(id)),
        PayloadValue::Attachment(id) => Some(ArgValue::Attachment(Ref::Id(id))),
        PayloadValue::User(id) => Some(ArgValue::User(Ref::Id(id))),
        PayloadValue::Role(id) => Some(ArgValue::Role(Ref::Id(id))),
        PayloadValue::Focused => None,
    }
}

fn payload_arg(v: PayloadValue) -> (r: Option<ArgValue>)
    ensures
        r == spec_payload_arg(v),
{
    match v {
        PayloadValue::SubCommand(_) => None,
        PayloadValue::SubCommandGroup(_) => None,
        PayloadValue::Bool(b) => Some(ArgValue::Bool(b)),
        PayloadValue::Number(bits) => Some(ArgValue::Number(bits)),
        PayloadValue::Integer(x) => Some(ArgValue::Integer(x)),
        PayloadValue::Str(s) => Some(ArgValue::String(s)),
        PayloadValue::Channel(id) => Some(ArgValue::Channel(Ref::Id(id))),
        PayloadValue::Mentionable(id) => Some(ArgValue::Mention(id)),
        PayloadValue::Attachment(id) => Some(ArgValue::Attachment(Ref::Id(id))),
        PayloadValue::User(id) => Some(ArgValue::User(Ref::Id(id))),
        PayloadValue::Role(id) => Some(ArgValue::Role(Ref::Id(id))),
        PayloadValue::Focused => None,
    }
}

/// Why the structured walk fails: an option names no subcommand or group
/// under the current node, an option value cannot be bound as an argument,
/// or the walk ends on a group instead of an invocable leaf; each carries
/// the offending name.
pub enum SlashFailure {
    NotFoundSub(Seq<char>),
    BadOption(Seq<char>),
    GroupLeaf(Seq<char>),
}

/// Unwinds a structured payload against the tree node `c`, processing
/// options from the back: nested subcommand and group wrappers descend the
/// tree, leaf values are decoded and accumulated onto `acc` (so bound
/// arguments end up in reverse payload order), and an exhausted payload
/// yields the reached node with its accumulated arguments.
pub open spec fn spec_slash_cmd(
    c: CommandFunction,
    opts: Seq<PayloadOption>,
    acc: Seq<Arg>,
) -> Result<(CommandFunction, Seq<Arg>), SlashFailure>
    decreases opts, 1int,
    via spec_slash_cmd_decreases
{
    if opts.len() == 0 {
        Ok((c, acc))
    } else {
        let o = opts.last();
        match o.value {
            PayloadValue::SubCommand(inner) => spec_slash_descend(c, o.name@, inner@, acc),
            PayloadValue::SubCommandGroup(inner) => spec_slash_descend(c, o.name@, inner@, acc),
            _ => match spec_payload_arg(o.value) {
                Some(v) => spec_slash_cmd(
                    c,
                    opts.drop_last(),
                    acc.push(Arg { name: o.name, value: v }),
                ),
                None => Err(SlashFailure::BadOption(o.name@)),
            },
        }
    }
}

/// Looks `name` up among the children of `c` and walks on into the match.
pub open spec fn spec_slash_descend(
    c: CommandFunction,
    name: Seq<char>,
    inner: Seq<PayloadOption>,
    acc: Seq<Arg>,
) -> Result<(CommandFunction, Seq<Arg>), SlashFailure>
    decreases inner, 2int,
    via spec_slash_descend_decreases
{
    match spec_find_node(c.options@, name) {
        Some(i) => match c.options@[i] {
            CommandOption::Sub(s) => spec_slash_cmd(s, inner, acc),
            CommandOption::Group(g) => spec_slash_group(g, inner, acc),
            CommandOption::Arg(_) => Err(SlashFailure::NotFoundSub(name)),
        },
        None => Err(SlashFailure::NotFoundSub(name)),
    }
}

/// Unwinds the payload against group `g`: wrappers must name one of its
/// subcommands, leaf values accumulate, and an exhausted payload on a
/// group is an error carrying the group's name.
pub open spec fn spec_slash_group(
    g: CommandGroup,
    opts: Seq<PayloadOption>,
    acc: Seq<Arg>,
) -> Result<(CommandFunction, Seq<Arg>), SlashFailure>
    decreases opts, 1int,
    via spec_slash_group_decreases
{
    if opts.len() == 0 {
        Err(SlashFailure::GroupLeaf(g.name@))
    } else {
        let o = opts.last();
        match o.value {
            PayloadValue::SubCommand(inner) => spec_group_descend(g, o.name@, inner@, acc),
            PayloadValue::SubCommandGroup(inner) => spec_group_descend(g, o.name@, inner@, acc),
            _ => match spec_payload_arg(o.value) {
                Some(v) => spec_slash_group(
                    g,
                    opts.drop_last(),
                    acc.push(Arg { name: o.name, value: v }),
                ),
                None => Err(SlashFailure::BadOption(o.name@)),
            },
        }
    }
}

/// Looks `name` up among the subcommands of `g` and walks on into it.
pub open spec fn spec_group_descend(
    g: CommandGroup,
    name: Seq<char>,
    inner: Seq<PayloadOption>,
    acc: Seq<Arg>,
) -> Result<(CommandFunction, Seq<Arg>), SlashFailure>
    decreases inner, 2int,
{
    match spec_find_sub(g.subs@, name) {
        Some(i) => spec_slash_cmd(g.subs@[i], inner, acc),
        None => Err(SlashFailure::NotFoundSub(name)),
    }
}

#[via_fn]
proof fn spec_slash_cmd_decreases(c: CommandFunction, opts: Seq<PayloadOption>, acc: Seq<Arg>) {
    if opts.len() > 0 {
        let o = opts.last();
        assert(decreases_to!(opts => opts[opts.len() - 1]));
        match o.value {
            PayloadValue::SubCommand(inner) => {
                assert(decreases_to!(o => o.value));
                assert(decreases_to!(o.value => inner));
                assert(decreases_to!(inner => inner@));
                assert(decreases_to!(opts => inner@));
            },
            PayloadValue::SubCommandGroup(inner) => {
                assert(decreases_to!(o => o.value));
                assert(decreases_to!(o.value => inner));
                assert(decreases_to!(inner => inner@));
                assert(decreases_to!(opts => inner@));
            },
            _ => {},
        }
    }
}

#[via_fn]
proof fn spec_slash_descend_decreases(
    c: CommandFunction,
    name: Seq<char>,
    inner: Seq<PayloadOption>,
    acc: Seq<Arg>,
) {
}

#[via_fn]
proof fn spec_slash_group_decreases(g: CommandGroup, opts: Seq<PayloadOption>, acc: Seq<Arg>) {
    if opts.len() > 0 {
        let o = opts.last();
        assert(decreases_to!(opts => opts[opts.len() - 1]));
        match o.value {
            PayloadValue::SubCommand(inner) => {
                assert(decreases_to!(o => o.value));
                assert(decreases_to!(o.value => inner));
                assert(decreases_to!(inner => inner@));
                assert(decreases_to!(opts => inner@));
            },
            PayloadValue::SubCommandGroup(inner) => {
                assert(decreases_to!(o => o.value));
                assert(decreases_to!(o.value => inner));
                assert(decreases_to!(inner => inner@));
                assert(decreases_to!(opts => inner@));
            },
            _ => {},
        }
    }
}

/// The message of the unknown-subcommand error of the structured walk.
pub open spec fn unknown_sub_message(name: Seq<char>) -> Seq<char> {
    "Subcommand or group not found: '"@ + name + "'"@
}

fn build_unknown_sub_message(name: &str) -> (m: String)
    ensures
        m@ == unknown_sub_message(name@),
{
    let mut m = String::from_str("Subcommand or group not found: '");
    m.append(name);
    m.append("'");
    m
}

/// The message of the unbindable-option error of the structured walk.
pub open spec fn bad_option_message(name: Seq<char>) -> Seq<char> {
    "Could not process argument: '"@ + name + "'"@
}

fn build_bad_option_message(name: &str) -> (m: String)
    ensures
        m@ == bad_option_message(name@),
{
    let mut m = String::from_str("Could not process argument: '");
    m.append(name);
    m.append("'");
    m
}

/// The message of the no-handlers-of-this-kind error.
pub open spec fn no_handlers_message(kind: Seq<char>, name: Seq<char>) -> Seq<char> {
    "No "@ + kind + " commands found for command call: '"@ + name + "'"@
}

fn build_no_handlers_message(kind: &str, name: &str) -> (m: String)
    ensures
        m@ == no_handlers_message(kind@, name@),
{
    let mut m = String::from_str("No ");
    m.append(kind);
    m.append(" commands found for command call: '");
    m.append(name);
    m.append("'");
    m
}

/// Whether `e` is the command error a structured-walk failure maps to.
pub open spec fn slash_failure_error(f: SlashFailure, e: CommandError) -> bool {
    match f {
        SlashFailure::NotFoundSub(name) => match e {
            CommandError::NotFound(m) => m@ == unknown_sub_message(name),
            _ => false,
        },
        SlashFailure::BadOption(name) => match e {
            CommandError::Other(m) => m@ == bad_option_message(name),
            _ => false,
        },
        SlashFailure::GroupLeaf(gname) => match e {
            CommandError::UnexpectedArgs(m) => m@ == expected_command_message(gname),
            _ => false,
        },
    }
}

fn walk_cmd<'a>(c: &'a CommandFunction, opts: Vec<PayloadOption>, acc: Vec<Arg>) -> (r: Result<
    (&'a CommandFunction, Vec<Arg>),
    CommandError,
>)
    ensures
        match r {
            Ok((leaf, args)) => spec_slash_cmd(*c, opts@, acc@) == Ok::<
                (CommandFunction, Seq<Arg>),
                SlashFailure,
            >((*leaf, args@)),
            Err(e) => match spec_slash_cmd(*c, opts@, acc@) {
                Err(f) => slash_failure_error(f, e),
                Ok(_) => false,
            },
        },
    decreases opts@, 1int,
{
    let ghost opts0 = opts@;
    let mut opts = opts;
    let mut acc = acc;
    match opts.pop() {
        None => Ok((c, acc)),
        Some(o) => {
            proof {
                assert(o == opts0.last());
                assert(opts@ =~= opts0.drop_last());
            }
            let PayloadOption { name, value } = o;
            match value {
                PayloadValue::SubCommand(inner) => {
                    proof {
                        assert(decreases_to!(opts0 => opts0[opts0.len() - 1]));
                        assert(decreases_to!(opts0 => inner@));
                    }
                    walk_descend(c, name.as_str(), inner, acc)
                },
                PayloadValue::SubCommandGroup(inner) => {
                    proof {
                        assert(decreases_to!(opts0 => opts0[opts0.len() - 1]));
                        assert(decreases_to!(opts0 => inner@));
                    }
                    walk_descend(c, name.as_str(), inner, acc)
                },
                other => match payload_arg(other) {
                    Some(v) => {
                        acc.push(Arg { name, value: v });
                        walk_cmd(c, opts, acc)
                    },
                    None => Err(CommandError::Other(build_bad_option_message(name.as_str()))),
                },
            }
        },
    }
}

fn walk_descend<'a>(
    c: &'a CommandFunction,
    name: &str,
    inner: Vec<PayloadOption>,
    acc: Vec<Arg>,
) -> (r: Result<(&'a CommandFunction, Vec<Arg>), CommandError>)
    ensures
        match r {
            Ok((leaf, args)) => spec_slash_descend(*c, name@, inner@, acc@) == Ok::<
                (CommandFunction, Seq<Arg>),
                SlashFailure,
            >((*leaf, args@)),
            Err(e) => match spec_slash_descend(*c, name@, inner@, acc@) {
                Err(f) => slash_failure_error(f, e),
                Ok(_) => false,
            },
        },
    decreases inner@, 2int,
{
    match find_node(&c.options, name) {
        Some(i) => {
            proof {
                lemma_find_node(c.options@, name@);
            }
            match &c.options[i] {
                CommandOption::Sub(s) => walk_cmd(s, inner, acc),
                CommandOption::Group(g) => walk_group(g, inner, acc),
                CommandOption::Arg(_) => Err(
                    CommandError::NotFound(build_unknown_sub_message(name)),
                ),
            }
        },
        None => Err(CommandError::NotFound(build_unknown_sub_message(name))),
    }
}

fn walk_group<'a>(g: &'a CommandGroup, opts: Vec<PayloadOption>, acc: Vec<Arg>) -> (r: Result<
    (&'a CommandFunction, Vec<Arg>),
    CommandError,
>)
    ensures
        match r {
            Ok((leaf, args)) => spec_slash_group(*g, opts@, acc@) == Ok::<
                (CommandFunction, Seq<Arg>),
                SlashFailure,
            >((*leaf, args@)),
            Err(e) => match spec_slash_group(*g, opts@, acc@) {
                Err(f) => slash_failure_error(f, e),
                Ok(_) => false,
            },
        },
    decreases opts@, 1int,
{
    let ghost opts0 = opts@;
    let mut opts = opts;
    let mut acc = acc;
    match opts.pop() {
        None => Err(CommandError::UnexpectedArgs(build_expected_command_message(g.name.as_str()))),
        Some(o) => {
            proof {
                assert(o == opts0.last());
                assert(opts@ =~= opts0.drop_last());
            }
            let PayloadOption { name, value } = o;
            match value {
                PayloadValue::SubCommand(inner) => {
                    proof {
                        assert(decreases_to!(opts0 => opts0[opts0.len() - 1]));
                        assert(decreases_to!(opts0 => inner@));
                    }
                    group_descend(g, name.as_str(), inner, acc)
                },
                PayloadValue::SubCommandGroup(inner) => {
                    proof {
                        assert(decreases_to!(opts0 => opts0[opts0.len() - 1]));
                        assert(decreases_to!(opts0 => inner@));
                    }
                    group_descend(g, name.as_str(), inner, acc)
                },
                other => match payload_arg(other) {
                    Some(v) => {
                        acc.push(Arg { name, value: v });
                        walk_group(g, opts, acc)
                    },
                    None => Err(CommandError::Other(build_bad_option_message(name.as_str()))),
                },
            }
        },
    }
}

fn group_descend<'a>(
    g: &'a CommandGroup,
    name: &str,
    inner: Vec<PayloadOption>,
    acc: Vec<Arg>,
) -> (r: Result<(&'a CommandFunction, Vec<Arg>), CommandError>)
    ensures
        match r {
            Ok((leaf, args)) => spec_group_descend(*g, name@, inner@, acc@) == Ok::<
                (CommandFunction, Seq<Arg>),
                SlashFailure,
            >((*leaf, args@)),
            Err(e) => match spec_group_descend(*g, name@, inner@, acc@) {
                Err(f) => slash_failure_error(f, e),
                Ok(_) => false,
            },
        },
    decreases inner@, 2int,
{
    match find_sub(&g.subs, name) {
        Some(i) => {
            proof {
                lemma_find_sub(g.subs@, name@);
            }
            walk_cmd(&g.subs[i], inner, acc)
        },
        None => Err(CommandError::NotFound(build_unknown_sub_message(name))),
    }
}

/// Resolves a structured payload against top-level command `base`: unwinds
/// the nested wrappers to exactly one leaf, binds the payload's typed
/// values as arguments (in reverse payload order), and gathers the leaf's
/// slash handlers. A leaf without slash handlers, or a walk ending on a
/// group, is an error.
pub fn slash_dispatch<'a>(base: &'a BaseCommand, options: Vec<PayloadOption>) -> (r: Result<
    (&'a CommandFunction, Vec<u64>, Args),
    CommandError,
>)
    ensures
        match spec_slash_cmd(base.command, options@, Seq::empty()) {
            Ok((leaf, bound)) => if has_kind(leaf.functions@, FunctionKind::Slash) {
                match r {
                    Ok((l, hs, args)) => *l == leaf && hs@ == handlers_of_kind(
                        leaf.functions@,
                        FunctionKind::Slash,
                    ) && args@ == bound,
                    Err(_) => false,
                }
            } else {
                match r {
                    Err(CommandError::Other(m)) => m@ == no_handlers_message(
                        "slash"@,
                        leaf.name@,
                    ),
                    _ => false,
                }
            },
            Err(f) => match r {
                Err(e) => slash_failure_error(f, e),
                Ok(_) => false,
            },
        },
{
    match walk_cmd(&base.command, options, Vec::new()) {
        Err(e) => Err(e),
        Ok((leaf, bound)) => {
            if leaf.has_slash() {
                let hs = leaf.slash();
                Ok((leaf, hs, Args::from(bound)))
            } else {
                Err(
                    CommandError::Other(
                        build_no_handlers_message("slash", leaf.name.as_str()),
                    ),
                )
            }
        },
    }
}

/// The message of the unknown-top-level-command error.
pub open spec fn unknown_command_message(name: Seq<char>) -> Seq<char> {
    "Command '"@ + name + "' does not exist"@
}

fn build_unknown_command_message(name: &str) -> (m: String)
    ensures
        m@ == unknown_command_message(name@),
{
    let mut m = String::from_str("Command '");
    m.append(name);
    m.append("' does not exist");
    m
}

/// Resolves a structured invocation: looks the named top-level command up
/// in the registry and dispatches its payload, yielding the command, the
/// resolved leaf, its slash handlers, and the bound arguments.
pub fn interaction_dispatch<'a>(
    commands: &'a Commands,
    name: &str,
    options: Vec<PayloadOption>,
) -> (r: Result<(&'a BaseCommand, &'a CommandFunction, Vec<u64>, Args), CommandError>)
    ensures
        match spec_commands_get(commands@, name@) {
            None => match r {
                Err(CommandError::NotFound(m)) => m@ == unknown_command_message(name@),
                _ => false,
            },
            Some(base) => match spec_slash_cmd(base.command, options@, Seq::empty()) {
                Ok((leaf, bound)) => if has_kind(leaf.functions@, FunctionKind::Slash) {
                    match r {
                        Ok((b, l, hs, args)) => *b == base && *l == leaf && hs@
                            == handlers_of_kind(leaf.functions@, FunctionKind::Slash) && args@
                            == bound,
                        Err(_) => false,
                    }
                } else {
                    match r {
                        Err(CommandError::Other(m)) => m@ == no_handlers_message(
                            "slash"@,
                            leaf.name@,
                        ),
                        _ => false,
                    }
                },
                Err(f) => match r {
                    Err(e) => slash_failure_error(f, e),
                    Ok(_) => false,
                },
            },
        },
{
    match commands.get(name) {
        None => Err(CommandError::NotFound(build_unknown_command_message(name))),
        Some(base) => match slash_dispatch(base, options) {
            Ok((l, hs, args)) => Ok((base, l, hs, args)),
            Err(e) => Err(e),
        },
    }
}

/// The index of the first configured prefix that `text` begins with.
pub open spec fn spec_first_prefix(prefixes: Seq<String>, text: Seq<char>) -> Option<int>
    decreases prefixes.len(),
{
    if prefixes.len() == 0 {
        None
    } else if crate::parser::is_prefix_of(prefixes[0]@, text) {
        Some(0)
    } else {
        match spec_first_prefix(prefixes.skip(1), text) {
            Some(i) => Some(i + 1),
            None => None,
        }
    }
}

proof fn lemma_first_prefix_some(prefixes: Seq<String>, text: Seq<char>, k: int)
    requires
        0 <= k < prefixes.len(),
        crate::parser::is_prefix_of(prefixes[k]@, text),
        forall|j: int| 0 <= j < k ==> !crate::parser::is_prefix_of(prefixes[j]@, text),
    ensures
        spec_first_prefix(prefixes, text) == Some(k),
    decreases k,
{
    if k > 0 {
        assert(prefixes.skip(1)[k - 1] == prefixes[k]);
        assert forall|j: int|
            0 <= j < k - 1 implies !crate::parser::is_prefix_of(
            #[trigger] prefixes.skip(1)[j]@,
            text,
        ) by {
            assert(prefixes.skip(1)[j] == prefixes[j + 1]);
        }
        lemma_first_prefix_some(prefixes.skip(1), text, k - 1);
    }
}

proof fn lemma_first_prefix_none(prefixes: Seq<String>, text: Seq<char>)
    requires
        forall|j: int| 0 <= j < prefixes.len() ==> !crate::parser::is_prefix_of(prefixes[j]@, text),
    ensures
        spec_first_prefix(prefixes, text) is None,
    decreases prefixes.len(),
{
    if prefixes.len() > 0 {
        assert forall|j: int|
            0 <= j < prefixes.skip(1).len() implies !crate::parser::is_prefix_of(
            #[trigger] prefixes.skip(1)[j]@,
            text,
        ) by {
            assert(prefixes.skip(1)[j] == prefixes[j + 1]);
        }
        lemma_first_prefix_none(prefixes.skip(1), text);
    }
}

/// Resolves a free-text invocation end to end: matches `content` against
/// the configured prefixes (no match is `NotPrefixed`, a classification
/// signal rather than a failure), reads the leading token as the top-level
/// command name, walks the tree by further tokens, binds the leaf's
/// declared arguments from the request context and the remaining text, and
/// gathers the leaf's classic handlers. Yields the command, the resolved
/// leaf, the handler identifiers, and the bound arguments.
pub fn classic_dispatch<'a>(
    commands: &'a Commands,
    prefixes: &Vec<String>,
    content: &str,
    replied: Option<u64>,
    first_attachment: Option<u64>,
) -> (r: Result<(&'a BaseCommand, &'a CommandFunction, Vec<u64>, Args), CommandError>)
    ensures
        ({
            match spec_first_prefix(prefixes@, content@) {
                None => r matches Err(CommandError::NotPrefixed),
                Some(k) => {
                    let unprefixed = content@.skip(prefixes@[k]@.len() as int);
                    let (name, rest0) = spec_split_head(Some(unprefixed));
                    match spec_commands_get(commands@, name) {
                        None => match r {
                            Err(CommandError::NotFound(m)) => m@ == unknown_command_message(name),
                            _ => false,
                        },
                        Some(base) => match spec_resolve_text(base.command, rest0) {
                            Err(gname) => match r {
                                Err(CommandError::UnexpectedArgs(m)) => m@
                                    == expected_command_message(gname),
                                _ => false,
                            },
                            Ok((leaf, lrest)) => {
                                let ds = spec_arg_descs(leaf.options@);
                                match spec_bind_failure(ds, replied, first_attachment, lrest) {
                                    Some(BindFailure::Missing(d)) => match r {
                                        Err(CommandError::MissingArgs(m)) => m@
                                            == missing_arg_message(d),
                                        _ => false,
                                    },
                                    Some(BindFailure::Token(t)) => match r {
                                        Err(CommandError::Other(m)) => m@
                                            == missing_delimiter_message(t),
                                        _ => false,
                                    },
                                    Some(BindFailure::Decode(d, tok)) => match r {
                                        Err(CommandError::Other(m)) => m@ == decode_error_message(
                                            &d.kind,
                                            tok,
                                        ),
                                        _ => false,
                                    },
                                    None => if has_kind(leaf.functions@, FunctionKind::Classic) {
                                        match r {
                                            Ok((b, l, hs, args)) => *b == base && *l == leaf
                                                && hs@ == handlers_of_kind(
                                                leaf.functions@,
                                                FunctionKind::Classic,
                                            ) && spec_bind_ok(
                                                ds,
                                                replied,
                                                first_attachment,
                                                lrest,
                                                args@,
                                            ),
                                            Err(_) => false,
                                        }
                                    } else {
                                        match r {
                                            Err(CommandError::Other(m)) => m@
                                                == no_handlers_message("classic"@, leaf.name@),
                                            _ => false,
                                        }
                                    },
                                }
                            },
                        },
                    }
                },
            }
        }),
{
    let unprefixed = match crate::parser::unprefix_with(prefixes, content) {
        Some((_, u)) => {
            proof {
                let k = choose|k: int|
                    0 <= k < prefixes@.len() && crate::parser::is_prefix_of(
                        prefixes@[k]@,
                        content@,
                    ) && (forall|j: int|
                        0 <= j < k ==> !crate::parser::is_prefix_of(prefixes@[j]@, content@))
                        && u@ == content@.skip(prefixes@[k]@.len() as int);
                lemma_first_prefix_some(prefixes@, content@, k);
            }
            u
        },
        None => {
            proof {
                lemma_first_prefix_none(prefixes@, content@);
            }
            return Err(CommandError::NotPrefixed);
        },
    };
    let (name, rest) = split_once_whitespace(unprefixed);
    proof {
        assert(spec_split_head(Some(unprefixed@)) == (name@, view_opt(rest)));
    }
    let base = match commands.get(name) {
        Some(b) => b,
        None => {
            return Err(CommandError::NotFound(build_unknown_command_message(name)));
        },
    };
    let (leaf, lrest) = match resolve_text(&base.command, rest) {
        Ok(x) => x,
        Err(e) => {
            return Err(e);
        },
    };
    let args = match parse_classic_args(leaf, replied, first_attachment, lrest) {
        Ok(a) => a,
        Err(e) => {
            return Err(e);
        },
    };
    if !leaf.has_classic() {
        return Err(
            CommandError::Other(build_no_handlers_message("classic", leaf.name.as_str())),
        );
    }
    let hs = leaf.classic();
    Ok((base, leaf, hs, args))
}

/// The first error among the results reduced ahead of the last-completed
/// one.
pub open spec fn spec_first_error(rs: Seq<Result<Response, CommandError>>) -> Option<
    Result<Response, CommandError>,
>
    decreases rs.len(),
{
    if rs.len() == 0 {
        None
    } else if rs[0] is Err {
        Some(rs[0])
    } else {
        spec_first_error(rs.skip(1))
    }
}

proof fn lemma_first_error_skip(rs: Seq<Result<Response, CommandError>>, i: int)
    requires
        0 <= i <= rs.len(),
        forall|j: int| 0 <= j < i ==> rs[j] is Ok,
    ensures
        spec_first_error(rs) == spec_first_error(rs.skip(i)),
    decreases i,
{
    if i > 0 {
        lemma_first_error_skip(rs, i - 1);
        let t = rs.skip(i - 1);
        assert(t.len() > 0);
        assert(t[0] == rs[i - 1]);
        assert(t.skip(1) =~= rs.skip(i));
    } else {
        assert(rs.skip(0) =~= rs);
    }
}

/// What a completed batch of handler results reduces to: the first error
/// among all but the last-completed result is surfaced immediately; when
/// none of those erred, the last-completed result — error or not — is the
/// canonical outcome.
pub open spec fn spec_reduce(rs: Seq<Result<Response, CommandError>>) -> Result<
    Response,
    CommandError,
>
    recommends
        rs.len() >= 1,
{
    match spec_first_error(rs.drop_last()) {
        Some(e) => e,
        None => rs.last(),
    }
}

/// Reduces the completed handler results of one dispatch, given in
/// completion order, to the single canonical outcome: the first error
/// found among the earlier-completed results wins; otherwise the
/// last-completed result is returned. With more than one handler attached
/// the completion order — and so the surviving response — is
/// nondeterministic across runs.
pub fn reduce_results(results: Vec<Result<Response, CommandError>>) -> (r: Result<
    Response,
    CommandError,
>)
    requires
        results@.len() >= 1,
    ensures
        r == spec_reduce(results@),
{
    let ghost rs = results@;
    let mut rest = results;
    let last = match rest.pop() {
        Some(x) => x,
        None => {
            proof {
                assert(false);
            }
            Err(CommandError::ArgsMismatch)
        },
    };
    proof {
        assert(rest@ =~= rs.drop_last());
        assert(rest@.skip(0) =~= rest@);
    }
    let ghost init = rs.drop_last();
    let ghost mut i: int = 0;
    while rest.len() > 0
        invariant
            rest@ == init.skip(i),
            0 <= i <= init.len(),
            forall|j: int| 0 <= j < i ==> init[j] is Ok,
            last == rs.last(),
            rs.len() >= 1,
            rs == results@,
            init == rs.drop_last(),
        decreases rest@.len(),
    {
        let x = rest.remove(0);
        proof {
            assert(init.skip(i)[0] == init[i]);
            assert(init.skip(i).remove(0) =~= init.skip(i + 1));
        }
        let is_err = match &x {
            Err(_) => true,
            Ok(_) => false,
        };
        if is_err {
            proof {
                lemma_first_error_skip(init, i);
                assert(init.skip(i)[0] == x);
                assert(spec_first_error(init.skip(i)) == Some(x));
            }
            return x;
        }
        proof {
            i = i + 1;
        }
    }
    proof {
        assert(init.skip(i) =~= Seq::<Result<Response, CommandError>>::empty());
        lemma_first_error_skip(init, i);
    }
    last
}

/// With two handler results of which exactly one erred, the reduction's
/// outcome is the error, whichever position it completed in: the first
/// error seen wins.
pub proof fn lemma_first_error_wins(rs: Seq<Result<Response, CommandError>>, i: int)
    requires
        rs.len() == 2,
        0 <= i < 2,
        rs[i] is Err,
        rs[1 - i] is Ok,
    ensures
        spec_reduce(rs) == rs[i],
{
    let init = rs.drop_last();
    assert(init.len() == 1);
    assert(init[0] == rs[0]);
    assert(init.skip(1) =~= Seq::<Result<Response, CommandError>>::empty());
    if i == 0 {
        assert(spec_first_error(init) == Some(rs[0]));
    } else {
        assert(spec_first_error(init) == spec_first_error(init.skip(1)));
        assert(spec_first_error(init) is None);
        assert(rs.last() == rs[1]);
    }
}

proof fn lemma_first_error_all_ok(rs: Seq<Result<Response, CommandError>>)
    requires
        forall|i: int| 0 <= i < rs.len() ==> rs[i] is Ok,
    ensures
        spec_first_error(rs) is None,
    decreases rs.len(),
{
    if rs.len() > 0 {
        assert forall|i: int| 0 <= i < rs.skip(1).len() implies #[trigger] rs.skip(1)[i] is Ok by {
            assert(rs.skip(1)[i] == rs[i + 1]);
        }
        lemma_first_error_all_ok(rs.skip(1));
    }
}

/// With every handler succeeding, the reduction returns exactly one of the
/// produced responses — the last-completed one — and it is a success.
pub proof fn lemma_all_ok_one_response(rs: Seq<Result<Response, CommandError>>)
    requires
        rs.len() >= 1,
        forall|i: int| 0 <= i < rs.len() ==> rs[i] is Ok,
    ensures
        spec_reduce(rs) == rs[rs.len() - 1],
        spec_reduce(rs) is Ok,
        exists|i: int| 0 <= i < rs.len() && spec_reduce(rs) == rs[i],
{
    assert forall|i: int| 0 <= i < rs.drop_last().len() implies #[trigger] rs.drop_last()[i]
        is Ok by {
        assert(rs.drop_last()[i] == rs[i]);
    }
    lemma_first_error_all_ok(rs.drop_last());
    assert(spec_reduce(rs) == rs[rs.len() - 1]);
}

} // verus!
