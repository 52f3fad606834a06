//! The command tree: argument schema, tree nodes, and fluent builders.
//!
//! A tree is built once at startup from fluent builders, validated whole,
//! and then shared read-only. Numeric bounds and choices of floating-point
//! arguments are carried as IEEE-754 bit patterns, so the tree itself holds
//! plain values only.

use crate::function::{Function, FunctionKind};
use vstd::prelude::*;
use vstd::string::StringExecFns;

verus! {

/// Bounds and choices of a numeric argument. For floating-point arguments
/// `T` is `u64`, each value the bit pattern of the 64-bit float.
#[derive(Debug)]
pub struct NumericalData<T> {
    pub min: Option<T>,
    pub max: Option<T>,
    pub choices: Vec<(String, T)>,
}

/// Length bounds and choices of a string argument.
#[derive(Debug)]
pub struct StringData {
    pub max_length: Option<u16>,
    pub min_length: Option<u16>,
    pub choices: Vec<(String, String)>,
}

/// The channel types a channel argument admits, as platform type codes.
#[derive(Debug)]
pub struct ChannelData {
    pub channel_types: Vec<u8>,
}

/// The closed set of argument types, with their kind-specific constraints.
#[derive(Debug)]
pub enum ArgKind {
    Bool,
    /// A 64-bit floating-point argument; constraints carry bit patterns.
    Number(NumericalData<u64>),
    Integer(NumericalData<i64>),
    String(StringData),
    Channel(ChannelData),
    Message,
    Attachment,
    User,
    Role,
    Mention,
}

impl ArgKind {
    /// The lower-case name of the kind.
    pub fn kind_name(&self) -> (r: &'static str)
        ensures
            r@ == self.spec_kind_name(),
    {
        match self {
            ArgKind::Bool => "bool",
            ArgKind::Number(_) => "number",
            ArgKind::Integer(_) => "integer",
            ArgKind::String(_) => "string",
            ArgKind::Channel(_) => "channel",
            ArgKind::Message => "message",
            ArgKind::Attachment => "attachment",
            ArgKind::User => "user",
            ArgKind::Role => "role",
            ArgKind::Mention => "mention",
        }
    }

    /// The lower-case name of the kind.
    pub open spec fn spec_kind_name(&self) -> Seq<char> {
        match self {
            ArgKind::Bool => "bool"@,
            ArgKind::Number(_) => "number"@,
            ArgKind::Integer(_) => "integer"@,
            ArgKind::String(_) => "string"@,
            ArgKind::Channel(_) => "channel"@,
            ArgKind::Message => "message"@,
            ArgKind::Attachment => "attachment"@,
            ArgKind::User => "user"@,
            ArgKind::Role => "role"@,
            ArgKind::Mention => "mention"@,
        }
    }
}

/// One declared parameter of a command: name, description, type, and
/// whether it is mandatory. By convention required arguments precede
/// optional ones within a command's parameter list.
#[derive(Debug)]
pub struct ArgDesc {
    pub name: String,
    pub description: String,
    pub kind: ArgKind,
    pub required: bool,
}

impl ArgDesc {
    fn new(name: &str, description: &str, kind: ArgKind) -> (r: ArgDesc)
        ensures
            r.name@ == name@,
            r.description@ == description@,
            r.kind == kind,
            !r.required,
    {
        ArgDesc {
            name: String::from_str(name),
            description: String::from_str(description),
            kind,
            required: false,
        }
    }

    /// Marks the argument as required.
    pub fn required(self) -> (r: ArgDesc)
        ensures
            r.name == self.name,
            r.description == self.description,
            r.kind == self.kind,
            r.required,
    {
        ArgDesc { required: true, ..self }
    }
}

/// One entry of a command's option list: a declared argument, a nested
/// subcommand, or a group of subcommands. Arguments conventionally precede
/// nested entries.
#[derive(Debug)]
pub enum CommandOption {
    Arg(ArgDesc),
    Sub(CommandFunction),
    Group(CommandGroup),
}

impl CommandOption {
    /// The name of the option.
    pub open spec fn spec_name(&self) -> Seq<char> {
        match self {
            CommandOption::Arg(a) => a.name@,
            CommandOption::Sub(s) => s.name@,
            CommandOption::Group(g) => g.name@,
        }
    }

    /// The name of the option.
    pub fn name(&self) -> (r: &str)
        ensures
            r@ == self.spec_name(),
    {
        match self {
            CommandOption::Arg(a) => a.name.as_str(),
            CommandOption::Sub(s) => s.name.as_str(),
            CommandOption::Group(g) => g.name.as_str(),
        }
    }
}

/// One invocable or structural tree node: its handler registrations and its
/// ordered option list.
#[derive(Debug)]
pub struct CommandFunction {
    pub name: String,
    pub description: String,
    pub functions: Vec<Function>,
    pub options: Vec<CommandOption>,
}

/// Whether any registration in `fs` serves kind `k`.
pub open spec fn has_kind(fs: Seq<Function>, k: FunctionKind) -> bool {
    exists|i: int| 0 <= i < fs.len() && fs[i].spec_kind() == k
}

/// The handler identifiers of the registrations in `fs` serving kind `k`,
/// in registration order.
pub open spec fn handlers_of_kind(fs: Seq<Function>, k: FunctionKind) -> Seq<u64>
    decreases fs.len(),
{
    if fs.len() == 0 {
        Seq::empty()
    } else if fs[0].spec_kind() == k {
        seq![fs[0].spec_handler()] + handlers_of_kind(fs.skip(1), k)
    } else {
        handlers_of_kind(fs.skip(1), k)
    }
}

impl CommandFunction {
    /// Whether a handler of kind `k` is attached.
    pub fn has_kind_fn(&self, k: FunctionKind) -> (r: bool)
        ensures
            r == has_kind(self.functions@, k),
    {
        let n = self.functions.len();
        let mut i: usize = 0;
        while i < n
            invariant
                i <= n,
                n == self.functions@.len(),
                forall|j: int| 0 <= j < i ==> self.functions@[j].spec_kind() != k,
            decreases n - i,
        {
            if self.functions[i].kind() == k {
                return true;
            }
            i = i + 1;
        }
        false
    }

    /// Whether a classic (prefixed free-text) handler is attached.
    pub fn has_classic(&self) -> (r: bool)
        ensures
            r == has_kind(self.functions@, FunctionKind::Classic),
    {
        self.has_kind_fn(FunctionKind::Classic)
    }

    /// Whether a slash (structured) handler is attached.
    pub fn has_slash(&self) -> (r: bool)
        ensures
            r == has_kind(self.functions@, FunctionKind::Slash),
    {
        self.has_kind_fn(FunctionKind::Slash)
    }

    /// Whether a message GUI handler is attached.
    pub fn has_message(&self) -> (r: bool)
        ensures
            r == has_kind(self.functions@, FunctionKind::Message),
    {
        self.has_kind_fn(FunctionKind::Message)
    }

    /// Whether a user GUI handler is attached.
    pub fn has_user(&self) -> (r: bool)
        ensures
            r == has_kind(self.functions@, FunctionKind::User),
    {
        self.has_kind_fn(FunctionKind::User)
    }

    /// The handler identifiers attached for kind `k`, in registration order.
    pub fn handlers(&self, k: FunctionKind) -> (r: Vec<u64>)
        ensures
            r@ == handlers_of_kind(self.functions@, k),
    {
        let ghost fs = self.functions@;
        let n = self.functions.len();
        let mut out: Vec<u64> = Vec::new();
        let mut i: usize = 0;
        proof {
            assert(fs.skip(0) =~= fs);
            assert(Seq::<u64>::empty() + handlers_of_kind(fs, k) =~= handlers_of_kind(fs, k));
        }
        while i < n
            invariant
                i <= n,
                n == fs.len(),
                fs == self.functions@,
                out@ + handlers_of_kind(fs.skip(i as int), k) == handlers_of_kind(fs, k),
            decreases n - i,
        {
            proof {
                assert(fs.skip(i as int).len() > 0);
                assert(fs.skip(i as int)[0] == fs[i as int]);
                assert(fs.skip(i as int).skip(1) =~= fs.skip(i as int + 1));
            }
            let f = &self.functions[i];
            if f.kind() == k {
                let h = f.handler();
                let ghost prev = out@;
                out.push(h);
                proof {
                    assert(out@ =~= prev.push(h));
                    assert(handlers_of_kind(fs.skip(i as int), k) == seq![h] + handlers_of_kind(
                        fs.skip(i as int + 1),
                        k,
                    ));
                    assert(prev + (seq![h] + handlers_of_kind(fs.skip(i as int + 1), k))
                        =~= prev.push(h) + handlers_of_kind(fs.skip(i as int + 1), k));
                }
            } else {
                proof {
                    assert(handlers_of_kind(fs.skip(i as int), k) == handlers_of_kind(
                        fs.skip(i as int + 1),
                        k,
                    ));
                }
            }
            i = i + 1;
        }
        proof {
            assert(fs.skip(n as int) =~= Seq::<Function>::empty());
            assert(out@ + Seq::<u64>::empty() =~= out@);
        }
        out
    }

    /// The handler identifiers of attached classic handlers.
    pub fn classic(&self) -> (r: Vec<u64>)
        ensures
            r@ == handlers_of_kind(self.functions@, FunctionKind::Classic),
    {
        self.handlers(FunctionKind::Classic)
    }

    /// The handler identifiers of attached slash handlers.
    pub fn slash(&self) -> (r: Vec<u64>)
        ensures
            r@ == handlers_of_kind(self.functions@, FunctionKind::Slash),
    {
        self.handlers(FunctionKind::Slash)
    }

    /// The handler identifiers of attached message GUI handlers.
    pub fn message(&self) -> (r: Vec<u64>)
        ensures
            r@ == handlers_of_kind(self.functions@, FunctionKind::Message),
    {
        self.handlers(FunctionKind::Message)
    }

    /// The handler identifiers of attached user GUI handlers.
    pub fn user(&self) -> (r: Vec<u64>)
        ensures
            r@ == handlers_of_kind(self.functions@, FunctionKind::User),
    {
        self.handlers(FunctionKind::User)
    }
}

/// A purely structural branch: a named group of subcommands, itself not
/// invocable.
#[derive(Debug)]
pub struct CommandGroup {
    pub name: String,
    pub description: String,
    pub subs: Vec<CommandFunction>,
}

/// One top-level command: the root tree node with its metadata.
///
/// `member_permissions` is a permission bit set: `None` admits anyone; an
/// empty or all-bits set means administrators only; any other set must be
/// wholly satisfied.
#[derive(Debug)]
pub struct BaseCommand {
    /// The command structure.
    pub command: CommandFunction,
    /// Additional help for using the command.
    pub help: String,
    /// Whether the command can be used in direct messages.
    pub dm_enabled: bool,
    /// Default required member permissions.
    pub member_permissions: Option<u64>,
}

/// A kind-specific constraint that a declared argument violates.
#[derive(Debug, Clone, Copy, PartialEq, Eq, Structural)]
pub enum ConstraintIssue {
    /// A string maximum length lies outside `1..=6000`.
    MaxLengthRange,
    /// A string minimum length exceeds `6000`.
    MinLengthRange,
    /// A string minimum length exceeds its maximum length.
    LengthOrder,
    /// An integer minimum exceeds its maximum.
    IntegerOrder,
}

/// One violation found while validating a command tree.
#[derive(Debug)]
pub enum ValidationIssue {
    /// A subcommand serves an invocation kind that its root command does
    /// not: the kind is unreachable through the root's routing.
    MissingKind { base: String, sub: String, kind: FunctionKind },
    /// A declared argument's constraints cannot convert to a platform
    /// descriptor.
    BadConstraint { command: String, arg: String, issue: ConstraintIssue },
}

/// The aggregate validation failure: every violation found across the
/// whole tree, in traversal order. Startup must treat a non-empty result
/// as fatal.
#[derive(Debug)]
pub struct ValidationError(pub Vec<ValidationIssue>);

/// The missing-kind issues of one subcommand's registrations `fs` against
/// its nearest ancestor command's registrations `parent_fns`: one issue
/// per registration whose kind the ancestor does not serve.
pub open spec fn spec_missing_for_functions(
    parent_name: String,
    parent_fns: Seq<Function>,
    sub_name: String,
    fs: Seq<Function>,
) -> Seq<ValidationIssue>
    decreases fs.len(),
{
    if fs.len() == 0 {
        Seq::empty()
    } else {
        let rest = spec_missing_for_functions(parent_name, parent_fns, sub_name, fs.skip(1));
        if !has_kind(parent_fns, fs[0].spec_kind()) {
            seq![
                ValidationIssue::MissingKind {
                    base: parent_name,
                    sub: sub_name,
                    kind: fs[0].spec_kind(),
                },
            ] + rest
        } else {
            rest
        }
    }
}

/// The missing-kind issues of a group's subcommands: each is checked
/// against the command holding the group — its nearest ancestor command,
/// since a group itself is not one — and then walked for its own nested
/// subcommands.
pub open spec fn spec_missing_for_subs(
    parent_name: String,
    parent_fns: Seq<Function>,
    subs: Seq<CommandFunction>,
) -> Seq<ValidationIssue>
    decreases subs,
    via spec_missing_for_subs_decreases
{
    if subs.len() == 0 {
        Seq::empty()
    } else {
        spec_missing_for_functions(parent_name, parent_fns, subs[0].name, subs[0].functions@)
            + spec_missing_for_opts(subs[0].name, subs[0].functions@, subs[0].options@)
            + spec_missing_for_subs(parent_name, parent_fns, subs.skip(1))
    }
}

/// The missing-kind issues across a command's option list, the whole tree
/// down: each subcommand — direct, in a group, or nested under another
/// subcommand — is checked against its nearest ancestor command.
pub open spec fn spec_missing_for_opts(
    parent_name: String,
    parent_fns: Seq<Function>,
    opts: Seq<CommandOption>,
) -> Seq<ValidationIssue>
    decreases opts,
    via spec_missing_for_opts_decreases
{
    if opts.len() == 0 {
        Seq::empty()
    } else {
        let head = match opts[0] {
            CommandOption::Arg(_) => Seq::empty(),
            CommandOption::Sub(s) => spec_missing_for_functions(
                parent_name,
                parent_fns,
                s.name,
                s.functions@,
            ) + spec_missing_for_opts(s.name, s.functions@, s.options@),
            CommandOption::Group(g) => spec_missing_for_subs(parent_name, parent_fns, g.subs@),
        };
        head + spec_missing_for_opts(parent_name, parent_fns, opts.skip(1))
    }
}

#[via_fn]
proof fn spec_missing_for_subs_decreases(
    parent_name: String,
    parent_fns: Seq<Function>,
    subs: Seq<CommandFunction>,
) {
    if subs.len() > 0 {
        assert(decreases_to!(subs => subs[0]));
        assert(decreases_to!(subs[0] => subs[0].options));
        assert(decreases_to!(subs[0].options => subs[0].options@));
        assert(decreases_to!(subs => subs[0].options@));
    }
}

#[via_fn]
proof fn spec_missing_for_opts_decreases(
    parent_name: String,
    parent_fns: Seq<Function>,
    opts: Seq<CommandOption>,
) {
    if opts.len() > 0 {
        assert(decreases_to!(opts => opts[0]));
        match opts[0] {
            CommandOption::Arg(_) => {},
            CommandOption::Sub(s) => {
                assert(decreases_to!(opts[0] => s));
                assert(decreases_to!(s => s.options));
                assert(decreases_to!(s.options => s.options@));
                assert(decreases_to!(opts => s.options@));
            },
            CommandOption::Group(g) => {
                assert(decreases_to!(opts[0] => g));
                assert(decreases_to!(g => g.subs));
                assert(decreases_to!(g.subs => g.subs@));
                assert(decreases_to!(opts => g.subs@));
            },
        }
    }
}

/// The missing-kind issues of a whole tree.
pub open spec fn spec_missing_issues(b: BaseCommand) -> Seq<ValidationIssue> {
    spec_missing_for_opts(b.command.name, b.command.functions@, b.command.options@)
}

/// The constraint issues of one declared argument.
pub open spec fn spec_arg_issues(cmd_name: String, a: ArgDesc) -> Seq<ValidationIssue> {
    match a.kind {
        ArgKind::String(d) => {
            let max_bad = match d.max_length {
                Some(m) => m < 1 || m > 6000,
                None => false,
            };
            let min_bad = match d.min_length {
                Some(m) => m > 6000,
                None => false,
            };
            let order_bad = match (d.min_length, d.max_length) {
                (Some(mn), Some(mx)) => mn > mx,
                _ => false,
            };
            (if max_bad {
                seq![
                    ValidationIssue::BadConstraint {
                        command: cmd_name,
                        arg: a.name,
                        issue: ConstraintIssue::MaxLengthRange,
                    },
                ]
            } else {
                Seq::empty()
            }) + (if min_bad {
                seq![
                    ValidationIssue::BadConstraint {
                        command: cmd_name,
                        arg: a.name,
                        issue: ConstraintIssue::MinLengthRange,
                    },
                ]
            } else {
                Seq::empty()
            }) + (if order_bad {
                seq![
                    ValidationIssue::BadConstraint {
                        command: cmd_name,
                        arg: a.name,
                        issue: ConstraintIssue::LengthOrder,
                    },
                ]
            } else {
                Seq::empty()
            })
        },
        ArgKind::Integer(d) => match (d.min, d.max) {
            (Some(mn), Some(mx)) => if mn > mx {
                seq![
                    ValidationIssue::BadConstraint {
                        command: cmd_name,
                        arg: a.name,
                        issue: ConstraintIssue::IntegerOrder,
                    },
                ]
            } else {
                Seq::empty()
            },
            _ => Seq::empty(),
        },
        _ => Seq::empty(),
    }
}

/// The constraint issues of the arguments directly declared on a node.
pub open spec fn spec_arg_issues_for_opts(cmd_name: String, opts: Seq<CommandOption>) -> Seq<
    ValidationIssue,
>
    decreases opts.len(),
{
    if opts.len() == 0 {
        Seq::empty()
    } else {
        let head = match opts[0] {
            CommandOption::Arg(a) => spec_arg_issues(cmd_name, a),
            _ => Seq::empty(),
        };
        head + spec_arg_issues_for_opts(cmd_name, opts.skip(1))
    }
}

/// The constraint issues of a group's subcommands' arguments.
pub open spec fn spec_arg_issues_for_subs(subs: Seq<CommandFunction>) -> Seq<ValidationIssue>
    decreases subs.len(),
{
    if subs.len() == 0 {
        Seq::empty()
    } else {
        spec_arg_issues_for_opts(subs[0].name, subs[0].options@) + spec_arg_issues_for_subs(
            subs.skip(1),
        )
    }
}

/// The constraint issues across a root command's option list: its own
/// arguments, its subcommands' arguments, and its groups' subcommands'
/// arguments.
pub open spec fn spec_tree_arg_issues(c: CommandFunction) -> Seq<ValidationIssue> {
    spec_arg_issues_for_opts(c.name, c.options@) + spec_deep_arg_issues(c.options@)
}

/// The constraint issues of nested nodes among `opts`.
pub open spec fn spec_deep_arg_issues(opts: Seq<CommandOption>) -> Seq<ValidationIssue>
    decreases opts.len(),
{
    if opts.len() == 0 {
        Seq::empty()
    } else {
        let head = match opts[0] {
            CommandOption::Arg(_) => Seq::empty(),
            CommandOption::Sub(s) => spec_arg_issues_for_opts(s.name, s.options@),
            CommandOption::Group(g) => spec_arg_issues_for_subs(g.subs@),
        };
        head + spec_deep_arg_issues(opts.skip(1))
    }
}

/// Whether any registration on the root requires a platform descriptor:
/// every kind but `Classic` converts to one.
pub open spec fn spec_needs_descriptors(b: BaseCommand) -> bool {
    has_kind(b.command.functions@, FunctionKind::Slash) || has_kind(
        b.command.functions@,
        FunctionKind::Message,
    ) || has_kind(b.command.functions@, FunctionKind::User)
}

/// The descriptor-conversion issues of a whole tree: the argument
/// constraint violations, checked when some registration converts to a
/// platform descriptor at all.
pub open spec fn spec_descriptor_issues(b: BaseCommand) -> Seq<ValidationIssue> {
    if spec_needs_descriptors(b) {
        spec_tree_arg_issues(b.command)
    } else {
        Seq::empty()
    }
}

/// Every violation validation finds in the tree, in traversal order.
pub open spec fn spec_validation_issues(b: BaseCommand) -> Seq<ValidationIssue> {
    spec_missing_issues(b) + spec_descriptor_issues(b)
}

/// Whether any registration in `fs` serves kind `k`.
pub fn vec_has_kind(fs: &Vec<Function>, k: FunctionKind) -> (r: bool)
    ensures
        r == has_kind(fs@, k),
{
    let n = fs.len();
    let mut i: usize = 0;
    while i < n
        invariant
            i <= n,
            n == fs@.len(),
            forall|j: int| 0 <= j < i ==> fs@[j].spec_kind() != k,
        decreases n - i,
    {
        if fs[i].kind() == k {
            return true;
        }
        i = i + 1;
    }
    false
}

fn missing_for_functions_exec(
    base_name: &String,
    base_fns: &Vec<Function>,
    sub_name: &String,
    fs: &Vec<Function>,
    k: usize,
) -> (r: Vec<ValidationIssue>)
    requires
        k <= fs@.len(),
    ensures
        r@ == spec_missing_for_functions(*base_name, base_fns@, *sub_name, fs@.skip(k as int)),
    decreases fs@.len() - k,
{
    if k == fs.len() {
        proof {
            assert(fs@.skip(k as int) =~= Seq::<Function>::empty());
        }
        return Vec::new();
    }
    proof {
        assert(fs@.skip(k as int)[0] == fs@[k as int]);
        assert(fs@.skip(k as int).skip(1) =~= fs@.skip(k as int + 1));
    }
    let rest = missing_for_functions_exec(base_name, base_fns, sub_name, fs, k + 1);
    let kind = fs[k].kind();
    if !vec_has_kind(base_fns, kind) {
        let mut out: Vec<ValidationIssue> = Vec::new();
        out.push(
            ValidationIssue::MissingKind {
                base: base_name.clone(),
                sub: sub_name.clone(),
                kind,
            },
        );
        let mut rest = rest;
        let ghost restv = rest@;
        out.append(&mut rest);
        proof {
            assert(out@ =~= seq![
                ValidationIssue::MissingKind {
                    base: *base_name,
                    sub: *sub_name,
                    kind: fs@[k as int].spec_kind(),
                },
            ] + restv);
        }
        out
    } else {
        rest
    }
}

fn missing_for_subs_exec(
    parent_name: &String,
    parent_fns: &Vec<Function>,
    subs: &Vec<CommandFunction>,
    k: usize,
) -> (r: Vec<ValidationIssue>)
    requires
        k <= subs@.len(),
    ensures
        r@ == spec_missing_for_subs(*parent_name, parent_fns@, subs@.skip(k as int)),
    decreases subs@, subs@.len() - k,
{
    if k == subs.len() {
        proof {
            assert(subs@.skip(k as int) =~= Seq::<CommandFunction>::empty());
        }
        return Vec::new();
    }
    proof {
        assert(subs@.skip(k as int)[0] == subs@[k as int]);
        assert(subs@.skip(k as int).skip(1) =~= subs@.skip(k as int + 1));
    }
    let mut out = missing_for_functions_exec(
        parent_name,
        parent_fns,
        &subs[k].name,
        &subs[k].functions,
        0,
    );
    proof {
        assert(subs@[k as int].functions@.skip(0) =~= subs@[k as int].functions@);
        assert(decreases_to!(subs@ => subs@[k as int]));
        assert(decreases_to!(subs@[k as int] => subs@[k as int].options));
        assert(decreases_to!(subs@[k as int].options => subs@[k as int].options@));
        assert(decreases_to!(subs@ => subs@[k as int].options@));
        assert(subs@[k as int].options@.skip(0) =~= subs@[k as int].options@);
    }
    let mut nested = missing_for_opts_exec(&subs[k].name, &subs[k].functions, &subs[k].options, 0);
    let ghost outv = out@;
    let ghost nestedv = nested@;
    out.append(&mut nested);
    let mut rest = missing_for_subs_exec(parent_name, parent_fns, subs, k + 1);
    let ghost restv = rest@;
    out.append(&mut rest);
    proof {
        assert(out@ =~= outv + nestedv + restv);
    }
    out
}

fn missing_for_opts_exec(
    parent_name: &String,
    parent_fns: &Vec<Function>,
    opts: &Vec<CommandOption>,
    k: usize,
) -> (r: Vec<ValidationIssue>)
    requires
        k <= opts@.len(),
    ensures
        r@ == spec_missing_for_opts(*parent_name, parent_fns@, opts@.skip(k as int)),
    decreases opts@, opts@.len() - k,
{
    if k == opts.len() {
        proof {
            assert(opts@.skip(k as int) =~= Seq::<CommandOption>::empty());
        }
        return Vec::new();
    }
    proof {
        assert(opts@.skip(k as int)[0] == opts@[k as int]);
        assert(opts@.skip(k as int).skip(1) =~= opts@.skip(k as int + 1));
    }
    let mut out: Vec<ValidationIssue> = match &opts[k] {
        CommandOption::Arg(_) => Vec::new(),
        CommandOption::Sub(s) => {
            let mut h = missing_for_functions_exec(parent_name, parent_fns, &s.name, &s.functions, 0);
            proof {
                assert(s.functions@.skip(0) =~= s.functions@);
                assert(decreases_to!(opts@ => opts@[k as int]));
                assert(decreases_to!(opts@[k as int] => *s));
                assert(decreases_to!(*s => s.options));
                assert(decreases_to!(s.options => s.options@));
                assert(decreases_to!(opts@ => s.options@));
                assert(s.options@.skip(0) =~= s.options@);
            }
            let mut nested = missing_for_opts_exec(&s.name, &s.functions, &s.options, 0);
            let ghost hv = h@;
            let ghost nestedv = nested@;
            h.append(&mut nested);
            proof {
                assert(h@ =~= hv + nestedv);
            }
            h
        },
        CommandOption::Group(g) => {
            proof {
                assert(decreases_to!(opts@ => opts@[k as int]));
                assert(decreases_to!(opts@[k as int] => *g));
                assert(decreases_to!(*g => g.subs));
                assert(decreases_to!(g.subs => g.subs@));
                assert(decreases_to!(opts@ => g.subs@));
            }
            let h = missing_for_subs_exec(parent_name, parent_fns, &g.subs, 0);
            proof {
                assert(g.subs@.skip(0) =~= g.subs@);
            }
            h
        },
    };
    let mut rest = missing_for_opts_exec(parent_name, parent_fns, opts, k + 1);
    let ghost outv = out@;
    let ghost restv = rest@;
    out.append(&mut rest);
    proof {
        assert(out@ =~= outv + restv);
        if outv.len() == 0 {
            assert(outv =~= Seq::<ValidationIssue>::empty());
        }
    }
    out
}

fn arg_issues_exec(cmd_name: &String, a: &ArgDesc) -> (r: Vec<ValidationIssue>)
    ensures
        r@ == spec_arg_issues(*cmd_name, *a),
{
    let mut out: Vec<ValidationIssue> = Vec::new();
    match &a.kind {
        ArgKind::String(d) => {
            let max_bad = match d.max_length {
                Some(m) => m < 1 || m > 6000,
                None => false,
            };
            let min_bad = match d.min_length {
                Some(m) => m > 6000,
                None => false,
            };
            let order_bad = match (d.min_length, d.max_length) {
                (Some(mn), Some(mx)) => mn > mx,
                _ => false,
            };
            if max_bad {
                out.push(
                    ValidationIssue::BadConstraint {
                        command: cmd_name.clone(),
                        arg: a.name.clone(),
                        issue: ConstraintIssue::MaxLengthRange,
                    },
                );
            }
            if min_bad {
                out.push(
                    ValidationIssue::BadConstraint {
                        command: cmd_name.clone(),
                        arg: a.name.clone(),
                        issue: ConstraintIssue::MinLengthRange,
                    },
                );
            }
            if order_bad {
                out.push(
                    ValidationIssue::BadConstraint {
                        command: cmd_name.clone(),
                        arg: a.name.clone(),
                        issue: ConstraintIssue::LengthOrder,
                    },
                );
            }
            proof {
                assert(out@ =~= spec_arg_issues(*cmd_name, *a));
            }
        },
        ArgKind::Integer(d) => {
            let order_bad = match (d.min, d.max) {
                (Some(mn), Some(mx)) => mn > mx,
                _ => false,
            };
            if order_bad {
                out.push(
                    ValidationIssue::BadConstraint {
                        command: cmd_name.clone(),
                        arg: a.name.clone(),
                        issue: ConstraintIssue::IntegerOrder,
                    },
                );
            }
            proof {
                assert(out@ =~= spec_arg_issues(*cmd_name, *a));
            }
        },
        _ => {
            proof {
                assert(out@ =~= spec_arg_issues(*cmd_name, *a));
            }
        },
    }
    out
}

fn arg_issues_for_opts_exec(cmd_name: &String, opts: &Vec<CommandOption>, k: usize) -> (r: Vec<
    ValidationIssue,
>)
    requires
        k <= opts@.len(),
    ensures
        r@ == spec_arg_issues_for_opts(*cmd_name, opts@.skip(k as int)),
    decreases opts@.len() - k,
{
    if k == opts.len() {
        proof {
            assert(opts@.skip(k as int) =~= Seq::<CommandOption>::empty());
        }
        return Vec::new();
    }
    proof {
        assert(opts@.skip(k as int)[0] == opts@[k as int]);
        assert(opts@.skip(k as int).skip(1) =~= opts@.skip(k as int + 1));
    }
    let mut out: Vec<ValidationIssue> = match &opts[k] {
        CommandOption::Arg(a) => arg_issues_exec(cmd_name, a),
        _ => Vec::new(),
    };
    let mut rest = arg_issues_for_opts_exec(cmd_name, opts, k + 1);
    let ghost outv = out@;
    let ghost restv = rest@;
    out.append(&mut rest);
    proof {
        assert(out@ =~= outv + restv);
        if outv.len() == 0 {
            assert(outv =~= Seq::<ValidationIssue>::empty());
        }
    }
    out
}

fn arg_issues_for_subs_exec(subs: &Vec<CommandFunction>, k: usize) -> (r: Vec<ValidationIssue>)
    requires
        k <= subs@.len(),
    ensures
        r@ == spec_arg_issues_for_subs(subs@.skip(k as int)),
    decreases subs@.len() - k,
{
    if k == subs.len() {
        proof {
            assert(subs@.skip(k as int) =~= Seq::<CommandFunction>::empty());
        }
        return Vec::new();
    }
    proof {
        assert(subs@.skip(k as int)[0] == subs@[k as int]);
        assert(subs@.skip(k as int).skip(1) =~= subs@.skip(k as int + 1));
    }
    let mut out = arg_issues_for_opts_exec(&subs[k].name, &subs[k].options, 0);
    proof {
        assert(subs@[k as int].options@.skip(0) =~= subs@[k as int].options@);
    }
    let mut rest = arg_issues_for_subs_exec(subs, k + 1);
    let ghost outv = out@;
    let ghost restv = rest@;
    out.append(&mut rest);
    proof {
        assert(out@ =~= outv + restv);
    }
    out
}

fn deep_arg_issues_exec(opts: &Vec<CommandOption>, k: usize) -> (r: Vec<ValidationIssue>)
    requires
        k <= opts@.len(),
    ensures
        r@ == spec_deep_arg_issues(opts@.skip(k as int)),
    decreases opts@.len() - k,
{
    if k == opts.len() {
        proof {
            assert(opts@.skip(k as int) =~= Seq::<CommandOption>::empty());
        }
        return Vec::new();
    }
    proof {
        assert(opts@.skip(k as int)[0] == opts@[k as int]);
        assert(opts@.skip(k as int).skip(1) =~= opts@.skip(k as int + 1));
    }
    let mut out: Vec<ValidationIssue> = match &opts[k] {
        CommandOption::Arg(_) => Vec::new(),
        CommandOption::Sub(s) => {
            let h = arg_issues_for_opts_exec(&s.name, &s.options, 0);
            proof {
                assert(s.options@.skip(0) =~= s.options@);
            }
            h
        },
        CommandOption::Group(g) => {
            let h = arg_issues_for_subs_exec(&g.subs, 0);
            proof {
                assert(g.subs@.skip(0) =~= g.subs@);
            }
            h
        },
    };
    let mut rest = deep_arg_issues_exec(opts, k + 1);
    let ghost outv = out@;
    let ghost restv = rest@;
    out.append(&mut rest);
    proof {
        assert(out@ =~= outv + restv);
        if outv.len() == 0 {
            assert(outv =~= Seq::<ValidationIssue>::empty());
        }
    }
    out
}

impl BaseCommand {
    /// Checks that, across the whole tree, every subcommand's invocation
    /// kinds are served by its nearest ancestor command; a kind missing
    /// from the ancestor would make the subcommand unreachable through its
    /// routing. All violations are collected, none is reported early.
    pub fn check_missing_functions(&self) -> (r: Result<(), ValidationError>)
        ensures
            match r {
                Ok(()) => spec_missing_issues(*self).len() == 0,
                Err(v) => v.0@ == spec_missing_issues(*self) && v.0@.len() > 0,
            },
    {
        let issues = missing_for_opts_exec(
            &self.command.name,
            &self.command.functions,
            &self.command.options,
            0,
        );
        proof {
            assert(self.command.options@.skip(0) =~= self.command.options@);
        }
        if issues.len() == 0 {
            Ok(())
        } else {
            Err(ValidationError(issues))
        }
    }

    /// Validates the whole tree: kind coverage of every subcommand against
    /// its nearest ancestor command, and conversion of every declared argument's constraints
    /// to platform descriptors. Every violation found is reported together
    /// in one aggregate error; startup must treat a non-empty result as
    /// fatal.
    pub fn validate(&self) -> (r: Result<(), ValidationError>)
        ensures
            match r {
                Ok(()) => spec_validation_issues(*self).len() == 0,
                Err(v) => v.0@ == spec_validation_issues(*self) && v.0@.len() > 0,
            },
    {
        let mut issues = missing_for_opts_exec(
            &self.command.name,
            &self.command.functions,
            &self.command.options,
            0,
        );
        proof {
            assert(self.command.options@.skip(0) =~= self.command.options@);
        }
        let ghost missing = issues@;
        let needs = self.command.has_slash() || self.command.has_message()
            || self.command.has_user();
        if needs {
            let mut own = arg_issues_for_opts_exec(&self.command.name, &self.command.options, 0);
            let mut deep = deep_arg_issues_exec(&self.command.options, 0);
            proof {
                assert(self.command.options@.skip(0) =~= self.command.options@);
            }
            let ghost ownv = own@;
            let ghost deepv = deep@;
            own.append(&mut deep);
            proof {
                assert(own@ =~= ownv + deepv);
            }
            let ghost treev = own@;
            issues.append(&mut own);
            proof {
                assert(issues@ =~= missing + treev);
            }
        } else {
            proof {
                assert(missing + Seq::<ValidationIssue>::empty() =~= missing);
            }
        }
        if issues.len() == 0 {
            Ok(())
        } else {
            Err(ValidationError(issues))
        }
    }
}

/// Whether every registration in `fs` has its kind served by `parent_fns`.
pub open spec fn sub_kinds_covered(parent_fns: Seq<Function>, fs: Seq<Function>) -> bool {
    forall|i: int| 0 <= i < fs.len() ==> has_kind(parent_fns, fs[i].spec_kind())
}

/// Whether every subcommand among `subs` is covered by `parent_fns`, and
/// every subcommand nested below it by its own nearest ancestor command.
pub open spec fn covered_subs(parent_fns: Seq<Function>, subs: Seq<CommandFunction>) -> bool
    decreases subs,
    via covered_subs_decreases
{
    if subs.len() == 0 {
        true
    } else {
        sub_kinds_covered(parent_fns, subs[0].functions@) && covered_opts(
            subs[0].functions@,
            subs[0].options@,
        ) && covered_subs(parent_fns, subs.skip(1))
    }
}

/// Whether every subcommand reachable through `opts`, at every nesting
/// depth, is covered by its nearest ancestor command's registrations,
/// starting from `parent_fns`.
pub open spec fn covered_opts(parent_fns: Seq<Function>, opts: Seq<CommandOption>) -> bool
    decreases opts,
    via covered_opts_decreases
{
    if opts.len() == 0 {
        true
    } else {
        (match opts[0] {
            CommandOption::Arg(_) => true,
            CommandOption::Sub(s) => sub_kinds_covered(parent_fns, s.functions@) && covered_opts(
                s.functions@,
                s.options@,
            ),
            CommandOption::Group(g) => covered_subs(parent_fns, g.subs@),
        }) && covered_opts(parent_fns, opts.skip(1))
    }
}

#[via_fn]
proof fn covered_subs_decreases(parent_fns: Seq<Function>, subs: Seq<CommandFunction>) {
    if subs.len() > 0 {
        assert(decreases_to!(subs => subs[0]));
        assert(decreases_to!(subs[0] => subs[0].options));
        assert(decreases_to!(subs[0].options => subs[0].options@));
        assert(decreases_to!(subs => subs[0].options@));
    }
}

#[via_fn]
proof fn covered_opts_decreases(parent_fns: Seq<Function>, opts: Seq<CommandOption>) {
    if opts.len() > 0 {
        assert(decreases_to!(opts => opts[0]));
        match opts[0] {
            CommandOption::Arg(_) => {},
            CommandOption::Sub(s) => {
                assert(decreases_to!(opts[0] => s));
                assert(decreases_to!(s => s.options));
                assert(decreases_to!(s.options => s.options@));
                assert(decreases_to!(opts => s.options@));
            },
            CommandOption::Group(g) => {
                assert(decreases_to!(opts[0] => g));
                assert(decreases_to!(g => g.subs));
                assert(decreases_to!(g.subs => g.subs@));
                assert(decreases_to!(opts => g.subs@));
            },
        }
    }
}

proof fn lemma_missing_fns_iff_covered(
    parent_name: String,
    parent_fns: Seq<Function>,
    sub_name: String,
    fs: Seq<Function>,
)
    ensures
        spec_missing_for_functions(parent_name, parent_fns, sub_name, fs).len() == 0
            <==> sub_kinds_covered(parent_fns, fs),
    decreases fs.len(),
{
    if fs.len() > 0 {
        lemma_missing_fns_iff_covered(parent_name, parent_fns, sub_name, fs.skip(1));
        assert forall|i: int|
            0 <= i < fs.skip(1).len() implies fs.skip(1)[i] == fs[i + 1] by {}
        if spec_missing_for_functions(parent_name, parent_fns, sub_name, fs).len() == 0 {
            assert forall|i: int|
                0 <= i < fs.len() implies has_kind(parent_fns, #[trigger] fs[i].spec_kind()) by {
                if i > 0 {
                    assert(fs.skip(1)[i - 1] == fs[i]);
                }
            }
        } else {
            if has_kind(parent_fns, fs[0].spec_kind()) {
                assert(!sub_kinds_covered(parent_fns, fs.skip(1)));
                let i = choose|i: int|
                    0 <= i < fs.skip(1).len() && !has_kind(
                        parent_fns,
                        fs.skip(1)[i].spec_kind(),
                    );
                assert(fs.skip(1)[i] == fs[i + 1]);
                assert(!has_kind(parent_fns, fs[i + 1].spec_kind()));
            } else {
                assert(!sub_kinds_covered(parent_fns, fs));
            }
        }
    }
}

proof fn lemma_missing_subs_iff_covered(
    parent_name: String,
    parent_fns: Seq<Function>,
    subs: Seq<CommandFunction>,
)
    ensures
        spec_missing_for_subs(parent_name, parent_fns, subs).len() == 0 <==> covered_subs(
            parent_fns,
            subs,
        ),
    decreases subs,
{
    if subs.len() > 0 {
        assert(decreases_to!(subs => subs.skip(1)));
        lemma_missing_subs_iff_covered(parent_name, parent_fns, subs.skip(1));
        lemma_missing_fns_iff_covered(parent_name, parent_fns, subs[0].name, subs[0].functions@);
        assert(decreases_to!(subs => subs[0]));
        assert(decreases_to!(subs[0] => subs[0].options));
        assert(decreases_to!(subs[0].options => subs[0].options@));
        assert(decreases_to!(subs => subs[0].options@));
        lemma_missing_opts_iff_covered(subs[0].name, subs[0].functions@, subs[0].options@);
    }
}

proof fn lemma_missing_opts_iff_covered(
    parent_name: String,
    parent_fns: Seq<Function>,
    opts: Seq<CommandOption>,
)
    ensures
        spec_missing_for_opts(parent_name, parent_fns, opts).len() == 0 <==> covered_opts(
            parent_fns,
            opts,
        ),
    decreases opts,
{
    if opts.len() > 0 {
        assert(decreases_to!(opts => opts.skip(1)));
        lemma_missing_opts_iff_covered(parent_name, parent_fns, opts.skip(1));
        match opts[0] {
            CommandOption::Arg(_) => {},
            CommandOption::Sub(s) => {
                lemma_missing_fns_iff_covered(parent_name, parent_fns, s.name, s.functions@);
                assert(decreases_to!(opts => opts[0]));
                assert(decreases_to!(opts[0] => s));
                assert(decreases_to!(s => s.options));
                assert(decreases_to!(s.options => s.options@));
                assert(decreases_to!(opts => s.options@));
                lemma_missing_opts_iff_covered(s.name, s.functions@, s.options@);
            },
            CommandOption::Group(g) => {
                assert(decreases_to!(opts => opts[0]));
                assert(decreases_to!(opts[0] => g));
                assert(decreases_to!(g => g.subs));
                assert(decreases_to!(g.subs => g.subs@));
                assert(decreases_to!(opts => g.subs@));
                lemma_missing_subs_iff_covered(parent_name, parent_fns, g.subs@);
            },
        }
    }
}

/// The kind-coverage law: validation finds no missing-kind violation
/// exactly when, across the whole tree, every subcommand's kinds are a
/// subset of its nearest ancestor command's kinds.
pub proof fn lemma_validate_kind_coverage(b: BaseCommand)
    ensures
        spec_missing_issues(b).len() == 0 <==> covered_opts(b.command.functions@, b.command.options@),
{
    lemma_missing_opts_iff_covered(b.command.name, b.command.functions@, b.command.options@);
}

/// One platform-facing command descriptor, derived from a top-level
/// command for one invocation kind.
#[derive(Debug)]
pub struct CommandDescriptor {
    pub kind: FunctionKind,
    pub name: String,
    pub description: String,
    pub dm_enabled: bool,
    pub member_permissions: Option<u64>,
}

/// The kinds among `fs` that convert to a platform descriptor — every kind
/// but `Classic` — in first-registration order, deduplicated; `seen` holds
/// the kinds already emitted.
pub open spec fn spec_descriptor_kinds(fs: Seq<Function>, seen: Seq<FunctionKind>) -> Seq<
    FunctionKind,
>
    decreases fs.len(),
{
    if fs.len() == 0 {
        Seq::empty()
    } else {
        let k = fs[0].spec_kind();
        if k == FunctionKind::Classic || seen.contains(k) {
            spec_descriptor_kinds(fs.skip(1), seen)
        } else {
            seq![k] + spec_descriptor_kinds(fs.skip(1), seen.push(k))
        }
    }
}

fn descriptor_kinds_exec(fs: &Vec<Function>, k: usize, seen: Vec<FunctionKind>) -> (r: Vec<
    FunctionKind,
>)
    requires
        k <= fs@.len(),
    ensures
        r@ == spec_descriptor_kinds(fs@.skip(k as int), seen@),
    decreases fs@.len() - k,
{
    if k == fs.len() {
        proof {
            assert(fs@.skip(k as int) =~= Seq::<Function>::empty());
        }
        return Vec::new();
    }
    proof {
        assert(fs@.skip(k as int)[0] == fs@[k as int]);
        assert(fs@.skip(k as int).skip(1) =~= fs@.skip(k as int + 1));
    }
    let kind = fs[k].kind();
    let mut already = kind == FunctionKind::Classic;
    let mut i: usize = 0;
    while i < seen.len()
        invariant
            i <= seen@.len(),
            already == (kind == FunctionKind::Classic || exists|j: int|
                0 <= j < i && seen@[j] == kind),
        decreases seen@.len() - i,
    {
        if seen[i] == kind {
            already = true;
        }
        i = i + 1;
    }
    proof {
        assert(already == (kind == FunctionKind::Classic || seen@.contains(kind)));
    }
    if already {
        descriptor_kinds_exec(fs, k + 1, seen)
    } else {
        let mut seen = seen;
        let ghost seenv = seen@;
        seen.push(kind);
        proof {
            assert(seen@ =~= seenv.push(kind));
        }
        let mut rest = descriptor_kinds_exec(fs, k + 1, seen);
        let mut out: Vec<FunctionKind> = Vec::new();
        out.push(kind);
        let ghost restv = rest@;
        out.append(&mut rest);
        proof {
            assert(out@ =~= seq![kind] + restv);
        }
        out
    }
}

impl BaseCommand {
    /// The platform descriptors this command registers: one per distinct
    /// non-classic handler kind, in first-registration order. When any
    /// declared argument's constraints cannot convert, every such
    /// violation is reported instead.
    pub fn descriptors(&self) -> (r: Result<Vec<CommandDescriptor>, ValidationError>)
        ensures
            match r {
                Ok(v) => spec_descriptor_issues(*self).len() == 0 && ({
                    let kinds = spec_descriptor_kinds(self.command.functions@, Seq::empty());
                    v@.len() == kinds.len() && forall|i: int|
                        0 <= i < kinds.len() ==> (#[trigger] v@[i]).kind == kinds[i]
                            && v@[i].name@ == self.command.name@ && v@[i].description@
                            == self.command.description@ && v@[i].dm_enabled == self.dm_enabled
                            && v@[i].member_permissions == self.member_permissions
                }),
                Err(e) => e.0@ == spec_descriptor_issues(*self) && e.0@.len() > 0,
            },
    {
        let needs = self.command.has_slash() || self.command.has_message()
            || self.command.has_user();
        if needs {
            let mut own = arg_issues_for_opts_exec(&self.command.name, &self.command.options, 0);
            let mut deep = deep_arg_issues_exec(&self.command.options, 0);
            proof {
                assert(self.command.options@.skip(0) =~= self.command.options@);
            }
            let ghost ownv = own@;
            let ghost deepv = deep@;
            own.append(&mut deep);
            proof {
                assert(own@ =~= ownv + deepv);
            }
            if own.len() > 0 {
                return Err(ValidationError(own));
            }
        }
        let kinds = descriptor_kinds_exec(&self.command.functions, 0, Vec::new());
        proof {
            assert(self.command.functions@.skip(0) =~= self.command.functions@);
        }
        let ghost kindsv = spec_descriptor_kinds(self.command.functions@, Seq::empty());
        let mut out: Vec<CommandDescriptor> = Vec::new();
        let mut i: usize = 0;
        while i < kinds.len()
            invariant
                i <= kinds@.len(),
                kinds@ == kindsv,
                out@.len() == i,
                forall|j: int|
                    0 <= j < i ==> (#[trigger] out@[j]).kind == kindsv[j] && out@[j].name@
                        == self.command.name@ && out@[j].description@
                        == self.command.description@ && out@[j].dm_enabled == self.dm_enabled
                        && out@[j].member_permissions == self.member_permissions,
            decreases kinds@.len() - i,
        {
            out.push(
                CommandDescriptor {
                    kind: kinds[i],
                    name: self.command.name.clone(),
                    description: self.command.description.clone(),
                    dm_enabled: self.dm_enabled,
                    member_permissions: self.member_permissions,
                },
            );
            i = i + 1;
        }
        Ok(out)
    }
}

/// Staging builder for a top-level command.
#[derive(Debug)]
pub struct BaseCommandBuilder(pub BaseCommand);

/// Staging builder for a command or subcommand node.
#[derive(Debug)]
pub struct CommandFunctionBuilder(pub CommandFunction);

/// Staging builder for a group of subcommands.
#[derive(Debug)]
pub struct CommandGroupBuilder(pub CommandGroup);

impl CommandFunctionBuilder {
    /// Starts a command node; an empty description is replaced by `-`.
    pub fn new(name: &str, description: &str) -> (r: CommandFunctionBuilder)
        ensures
            r.0.name@ == name@,
            r.0.description@ == if description@.len() == 0 {
                "-"@
            } else {
                description@
            },
            r.0.functions@.len() == 0,
            r.0.options@.len() == 0,
    {
        let desc = if description.is_empty() {
            "-"
        } else {
            description
        };
        CommandFunctionBuilder(
            CommandFunction {
                name: String::from_str(name),
                description: String::from_str(desc),
                functions: Vec::new(),
                options: Vec::new(),
            },
        )
    }

    /// Attaches a handler registration; it is called on the command event.
    pub fn attach(self, function: Function) -> (r: CommandFunctionBuilder)
        ensures
            r.0.name == self.0.name,
            r.0.description == self.0.description,
            r.0.functions@ == self.0.functions@.push(function),
            r.0.options == self.0.options,
    {
        let CommandFunctionBuilder(mut c) = self;
        c.functions.push(function);
        CommandFunctionBuilder(c)
    }

    /// Adds an option to the command.
    pub fn option(self, option: CommandOption) -> (r: CommandFunctionBuilder)
        ensures
            r.0.name == self.0.name,
            r.0.description == self.0.description,
            r.0.functions == self.0.functions,
            r.0.options@ == self.0.options@.push(option),
    {
        let CommandFunctionBuilder(mut c) = self;
        c.options.push(option);
        CommandFunctionBuilder(c)
    }

    /// Finalizes the command node.
    pub fn build(self) -> (r: CommandFunction)
        ensures
            r == self.0,
    {
        self.0
    }
}

impl BaseCommandBuilder {
    /// Starts a top-level command.
    pub fn new(name: &str, description: &str) -> (r: BaseCommandBuilder)
        ensures
            r.0.command.name@ == name@,
            r.0.command.description@ == if description@.len() == 0 {
                "-"@
            } else {
                description@
            },
            r.0.command.functions@.len() == 0,
            r.0.command.options@.len() == 0,
            r.0.help@.len() == 0,
            !r.0.dm_enabled,
            r.0.member_permissions is None,
    {
        BaseCommandBuilder(
            BaseCommand {
                command: CommandFunctionBuilder::new(name, description).build(),
                help: String::new(),
                dm_enabled: false,
                member_permissions: None,
            },
        )
    }

    /// Sets additional help to show with usage.
    pub fn help(self, text: String) -> (r: BaseCommandBuilder)
        ensures
            r.0.command == self.0.command,
            r.0.help == text,
            r.0.dm_enabled == self.0.dm_enabled,
            r.0.member_permissions == self.0.member_permissions,
    {
        let BaseCommandBuilder(mut b) = self;
        b.help = text;
        BaseCommandBuilder(b)
    }

    /// Makes the command available in direct messages.
    pub fn dm(self) -> (r: BaseCommandBuilder)
        ensures
            r.0.command == self.0.command,
            r.0.help == self.0.help,
            r.0.dm_enabled,
            r.0.member_permissions == self.0.member_permissions,
    {
        let BaseCommandBuilder(mut b) = self;
        b.dm_enabled = true;
        BaseCommandBuilder(b)
    }

    /// Sets the default required member permissions.
    pub fn permissions(self, permissions: u64) -> (r: BaseCommandBuilder)
        ensures
            r.0.command == self.0.command,
            r.0.help == self.0.help,
            r.0.dm_enabled == self.0.dm_enabled,
            r.0.member_permissions == Some(permissions),
    {
        let BaseCommandBuilder(mut b) = self;
        b.member_permissions = Some(permissions);
        BaseCommandBuilder(b)
    }

    /// Attaches a handler registration to the root command node.
    pub fn attach(self, function: Function) -> (r: BaseCommandBuilder)
        ensures
            r.0.command.name == self.0.command.name,
            r.0.command.description == self.0.command.description,
            r.0.command.functions@ == self.0.command.functions@.push(function),
            r.0.command.options == self.0.command.options,
            r.0.help == self.0.help,
            r.0.dm_enabled == self.0.dm_enabled,
            r.0.member_permissions == self.0.member_permissions,
    {
        let BaseCommandBuilder(mut b) = self;
        b.command.functions.push(function);
        BaseCommandBuilder(b)
    }

    /// Adds an option to the root command node.
    pub fn option(self, option: CommandOption) -> (r: BaseCommandBuilder)
        ensures
            r.0.command.name == self.0.command.name,
            r.0.command.description == self.0.command.description,
            r.0.command.functions == self.0.command.functions,
            r.0.command.options@ == self.0.command.options@.push(option),
            r.0.help == self.0.help,
            r.0.dm_enabled == self.0.dm_enabled,
            r.0.member_permissions == self.0.member_permissions,
    {
        let BaseCommandBuilder(mut b) = self;
        b.command.options.push(option);
        BaseCommandBuilder(b)
    }

    /// Validates the staged command; see `BaseCommand::validate`.
    pub fn validate(&self) -> (r: Result<(), ValidationError>)
        ensures
            match r {
                Ok(()) => spec_validation_issues(self.0).len() == 0,
                Err(v) => v.0@ == spec_validation_issues(self.0) && v.0@.len() > 0,
            },
    {
        self.0.validate()
    }

    /// Finalizes the command.
    pub fn build(self) -> (r: BaseCommand)
        ensures
            r == self.0,
    {
        self.0
    }
}

impl CommandGroupBuilder {
    /// Starts a group of subcommands.
    pub fn new(name: &str, description: &str) -> (r: CommandGroupBuilder)
        ensures
            r.0.name@ == name@,
            r.0.description@ == description@,
            r.0.subs@.len() == 0,
    {
        CommandGroupBuilder(
            CommandGroup {
                name: String::from_str(name),
                description: String::from_str(description),
                subs: Vec::new(),
            },
        )
    }

    /// Adds a subcommand to this group.
    pub fn option(self, sub: CommandFunction) -> (r: CommandGroupBuilder)
        ensures
            r.0.name == self.0.name,
            r.0.description == self.0.description,
            r.0.subs@ == self.0.subs@.push(sub),
    {
        let CommandGroupBuilder(mut g) = self;
        g.subs.push(sub);
        CommandGroupBuilder(g)
    }

    /// Adds several subcommands to this group.
    pub fn subs(self, subs: Vec<CommandFunction>) -> (r: CommandGroupBuilder)
        ensures
            r.0.name == self.0.name,
            r.0.description == self.0.description,
            r.0.subs@ == self.0.subs@ + subs@,
    {
        let CommandGroupBuilder(mut g) = self;
        let mut rest = subs;
        g.subs.append(&mut rest);
        CommandGroupBuilder(g)
    }

    /// Finalizes the group.
    pub fn build(self) -> (r: CommandGroup)
        ensures
            r == self.0,
    {
        self.0
    }
}

/// Starts a new top-level command.
pub fn command(name: &str, description: &str) -> (r: BaseCommandBuilder)
    ensures
        r.0.command.name@ == name@,
        r.0.command.description@ == if description@.len() == 0 {
            "-"@
        } else {
            description@
        },
        r.0.command.functions@.len() == 0,
        r.0.command.options@.len() == 0,
        r.0.help@.len() == 0,
        !r.0.dm_enabled,
        r.0.member_permissions is None,
{
    BaseCommandBuilder::new(name, description)
}

/// Starts a new subcommand.
pub fn sub(name: &str, description: &str) -> (r: CommandFunctionBuilder)
    ensures
        r.0.name@ == name@,
        r.0.description@ == if description@.len() == 0 {
            "-"@
        } else {
            description@
        },
        r.0.functions@.len() == 0,
        r.0.options@.len() == 0,
{
    CommandFunctionBuilder::new(name, description)
}

/// Starts a new command group.
pub fn group(name: &str, description: &str) -> (r: CommandGroupBuilder)
    ensures
        r.0.name@ == name@,
        r.0.description@ == description@,
        r.0.subs@.len() == 0,
{
    CommandGroupBuilder::new(name, description)
}

/// Staging builder for a floating-point argument; values are IEEE-754 bit
/// patterns of the 64-bit floats.
#[derive(Debug)]
pub struct NumberOptionBuilder(pub ArgDesc);

impl NumberOptionBuilder {
    /// Starts a floating-point argument.
    pub fn new(name: &str, description: &str) -> (r: NumberOptionBuilder)
        ensures
            r.0.name@ == name@,
            r.0.description@ == description@,
            !r.0.required,
            r.0.kind matches ArgKind::Number(d) && d.min is None && d.max is None
                && d.choices@.len() == 0,
    {
        NumberOptionBuilder(
            ArgDesc::new(
                name,
                description,
                ArgKind::Number(NumericalData { min: None, max: None, choices: Vec::new() }),
            ),
        )
    }

    /// Sets the minimum value, as a bit pattern.
    pub fn min(self, min: u64) -> (r: NumberOptionBuilder)
        ensures
            r.0.name == self.0.name,
            r.0.description == self.0.description,
            r.0.required == self.0.required,
            self.0.kind matches ArgKind::Number(d) ==> r.0.kind == ArgKind::Number(
                NumericalData { min: Some(min), max: d.max, choices: d.choices },
            ),
    {
        let NumberOptionBuilder(mut a) = self;
        match a.kind {
            ArgKind::Number(mut d) => {
                d.min = Some(min);
                a.kind = ArgKind::Number(d);
            },
            other => {
                a.kind = other;
            },
        }
        NumberOptionBuilder(a)
    }

    /// Sets the maximum value, as a bit pattern.
    pub fn max(self, max: u64) -> (r: NumberOptionBuilder)
        ensures
            r.0.name == self.0.name,
            r.0.description == self.0.description,
            r.0.required == self.0.required,
            self.0.kind matches ArgKind::Number(d) ==> r.0.kind == ArgKind::Number(
                NumericalData { min: d.min, max: Some(max), choices: d.choices },
            ),
    {
        let NumberOptionBuilder(mut a) = self;
        match a.kind {
            ArgKind::Number(mut d) => {
                d.max = Some(max);
                a.kind = ArgKind::Number(d);
            },
            other => {
                a.kind = other;
            },
        }
        NumberOptionBuilder(a)
    }

    /// Sets the named value choices, as bit patterns.
    pub fn choices(self, choices: Vec<(String, u64)>) -> (r: NumberOptionBuilder)
        ensures
            r.0.name == self.0.name,
            r.0.description == self.0.description,
            r.0.required == self.0.required,
            self.0.kind matches ArgKind::Number(d) ==> r.0.kind == ArgKind::Number(
                NumericalData { min: d.min, max: d.max, choices },
            ),
    {
        let NumberOptionBuilder(mut a) = self;
        match a.kind {
            ArgKind::Number(mut d) => {
                d.choices = choices;
                a.kind = ArgKind::Number(d);
            },
            other => {
                a.kind = other;
            },
        }
        NumberOptionBuilder(a)
    }

    /// Marks the argument as required.
    pub fn required(self) -> (r: NumberOptionBuilder)
        ensures
            r.0.name == self.0.name,
            r.0.description == self.0.description,
            r.0.kind == self.0.kind,
            r.0.required,
    {
        NumberOptionBuilder(self.0.required())
    }

    /// Finalizes the argument.
    pub fn build(self) -> (r: ArgDesc)
        ensures
            r == self.0,
    {
        self.0
    }
}

/// Staging builder for an integer argument.
#[derive(Debug)]
pub struct IntegerOptionBuilder(pub ArgDesc);

impl IntegerOptionBuilder {
    /// Starts an integer argument.
    pub fn new(name: &str, description: &str) -> (r: IntegerOptionBuilder)
        ensures
            r.0.name@ == name@,
            r.0.description@ == description@,
            !r.0.required,
            r.0.kind matches ArgKind::Integer(d) && d.min is None && d.max is None
                && d.choices@.len() == 0,
    {
        IntegerOptionBuilder(
            ArgDesc::new(
                name,
                description,
                ArgKind::Integer(NumericalData { min: None, max: None, choices: Vec::new() }),
            ),
        )
    }

    /// Sets the minimum value.
    pub fn min(self, min: i64) -> (r: IntegerOptionBuilder)
        ensures
            r.0.name == self.0.name,
            r.0.description == self.0.description,
            r.0.required == self.0.required,
            self.0.kind matches ArgKind::Integer(d) ==> r.0.kind == ArgKind::Integer(
                NumericalData { min: Some(min), max: d.max, choices: d.choices },
            ),
    {
        let IntegerOptionBuilder(mut a) = self;
        match a.kind {
            ArgKind::Integer(mut d) => {
                d.min = Some(min);
                a.kind = ArgKind::Integer(d);
            },
            other => {
                a.kind = other;
            },
        }
        IntegerOptionBuilder(a)
    }

    /// Sets the maximum value.
    pub fn max(self, max: i64) -> (r: IntegerOptionBuilder)
        ensures
            r.0.name == self.0.name,
            r.0.description == self.0.description,
            r.0.required == self.0.required,
            self.0.kind matches ArgKind::Integer(d) ==> r.0.kind == ArgKind::Integer(
                NumericalData { min: d.min, max: Some(max), choices: d.choices },
            ),
    {
        let IntegerOptionBuilder(mut a) = self;
        match a.kind {
            ArgKind::Integer(mut d) => {
                d.max = Some(max);
                a.kind = ArgKind::Integer(d);
            },
            other => {
                a.kind = other;
            },
        }
        IntegerOptionBuilder(a)
    }

    /// Sets the named value choices.
    pub fn choices(self, choices: Vec<(String, i64)>) -> (r: IntegerOptionBuilder)
        ensures
            r.0.name == self.0.name,
            r.0.description == self.0.description,
            r.0.required == self.0.required,
            self.0.kind matches ArgKind::Integer(d) ==> r.0.kind == ArgKind::Integer(
                NumericalData { min: d.min, max: d.max, choices },
            ),
    {
        let IntegerOptionBuilder(mut a) = self;
        match a.kind {
            ArgKind::Integer(mut d) => {
                d.choices = choices;
                a.kind = ArgKind::Integer(d);
            },
            other => {
                a.kind = other;
            },
        }
        IntegerOptionBuilder(a)
    }

    /// Marks the argument as required.
    pub fn required(self) -> (r: IntegerOptionBuilder)
        ensures
            r.0.name == self.0.name,
            r.0.description == self.0.description,
            r.0.kind == self.0.kind,
            r.0.required,
    {
        IntegerOptionBuilder(self.0.required())
    }

    /// Finalizes the argument.
    pub fn build(self) -> (r: ArgDesc)
        ensures
            r == self.0,
    {
        self.0
    }
}

/// Staging builder for a string argument.
#[derive(Debug)]
pub struct StringOptionBuilder(pub ArgDesc);

impl StringOptionBuilder {
    /// Starts a string argument.
    pub fn new(name: &str, description: &str) -> (r: StringOptionBuilder)
        ensures
            r.0.name@ == name@,
            r.0.description@ == description@,
            !r.0.required,
            r.0.kind matches ArgKind::String(d) && d.max_length is None && d.min_length is None
                && d.choices@.len() == 0,
    {
        StringOptionBuilder(
            ArgDesc::new(
                name,
                description,
                ArgKind::String(
                    StringData { max_length: None, min_length: None, choices: Vec::new() },
                ),
            ),
        )
    }

    /// Sets the maximum allowed length; it must be at least `1` and at most
    /// `6000` for the declaration to validate.
    pub fn max_length(self, max: u16) -> (r: StringOptionBuilder)
        ensures
            r.0.name == self.0.name,
            r.0.description == self.0.description,
            r.0.required == self.0.required,
            self.0.kind matches ArgKind::String(d) ==> r.0.kind == ArgKind::String(
                StringData { max_length: Some(max), min_length: d.min_length, choices: d.choices },
            ),
    {
        let StringOptionBuilder(mut a) = self;
        match a.kind {
            ArgKind::String(mut d) => {
                d.max_length = Some(max);
                a.kind = ArgKind::String(d);
            },
            other => {
                a.kind = other;
            },
        }
        StringOptionBuilder(a)
    }

    /// Sets the minimum allowed length; it must be at most `6000` for the
    /// declaration to validate.
    pub fn min_length(self, min: u16) -> (r: StringOptionBuilder)
        ensures
            r.0.name == self.0.name,
            r.0.description == self.0.description,
            r.0.required == self.0.required,
            self.0.kind matches ArgKind::String(d) ==> r.0.kind == ArgKind::String(
                StringData { max_length: d.max_length, min_length: Some(min), choices: d.choices },
            ),
    {
        let StringOptionBuilder(mut a) = self;
        match a.kind {
            ArgKind::String(mut d) => {
                d.min_length = Some(min);
                a.kind = ArgKind::String(d);
            },
            other => {
                a.kind = other;
            },
        }
        StringOptionBuilder(a)
    }

    /// Sets the choices as `(name, value)` pairs.
    pub fn choices(self, choices: Vec<(String, String)>) -> (r: StringOptionBuilder)
        ensures
            r.0.name == self.0.name,
            r.0.description == self.0.description,
            r.0.required == self.0.required,
            self.0.kind matches ArgKind::String(d) ==> r.0.kind == ArgKind::String(
                StringData { max_length: d.max_length, min_length: d.min_length, choices },
            ),
    {
        let StringOptionBuilder(mut a) = self;
        match a.kind {
            ArgKind::String(mut d) => {
                d.choices = choices;
                a.kind = ArgKind::String(d);
            },
            other => {
                a.kind = other;
            },
        }
        StringOptionBuilder(a)
    }

    /// Marks the argument as required.
    pub fn required(self) -> (r: StringOptionBuilder)
        ensures
            r.0.name == self.0.name,
            r.0.description == self.0.description,
            r.0.kind == self.0.kind,
            r.0.required,
    {
        StringOptionBuilder(self.0.required())
    }

    /// Finalizes the argument.
    pub fn build(self) -> (r: ArgDesc)
        ensures
            r == self.0,
    {
        self.0
    }
}

/// Staging builder for a channel argument.
#[derive(Debug)]
pub struct ChannelOptionBuilder(pub ArgDesc);

impl ChannelOptionBuilder {
    /// Starts a channel argument.
    pub fn new(name: &str, description: &str) -> (r: ChannelOptionBuilder)
        ensures
            r.0.name@ == name@,
            r.0.description@ == description@,
            !r.0.required,
            r.0.kind matches ArgKind::Channel(d) && d.channel_types@.len() == 0,
    {
        ChannelOptionBuilder(
            ArgDesc::new(name, description, ArgKind::Channel(ChannelData { channel_types: Vec::new() })),
        )
    }

    /// Restricts the channel choice to the given platform type codes.
    pub fn types(self, types: Vec<u8>) -> (r: ChannelOptionBuilder)
        ensures
            r.0.name == self.0.name,
            r.0.description == self.0.description,
            r.0.required == self.0.required,
            self.0.kind matches ArgKind::Channel(_) ==> r.0.kind == ArgKind::Channel(
                ChannelData { channel_types: types },
            ),
    {
        let ChannelOptionBuilder(mut a) = self;
        match a.kind {
            ArgKind::Channel(mut d) => {
                d.channel_types = types;
                a.kind = ArgKind::Channel(d);
            },
            other => {
                a.kind = other;
            },
        }
        ChannelOptionBuilder(a)
    }

    /// Marks the argument as required.
    pub fn required(self) -> (r: ChannelOptionBuilder)
        ensures
            r.0.name == self.0.name,
            r.0.description == self.0.description,
            r.0.kind == self.0.kind,
            r.0.required,
    {
        ChannelOptionBuilder(self.0.required())
    }

    /// Finalizes the argument.
    pub fn build(self) -> (r: ArgDesc)
        ensures
            r == self.0,
    {
        self.0
    }
}

/// Declares an argument of kind `Number`.
pub fn number(name: &str, description: &str) -> (r: NumberOptionBuilder)
    ensures
        r.0.name@ == name@,
        r.0.description@ == description@,
        !r.0.required,
        r.0.kind matches ArgKind::Number(d) && d.min is None && d.max is None && d.choices@.len()
            == 0,
{
    NumberOptionBuilder::new(name, description)
}

/// Declares an argument of kind `Integer`.
pub fn integer(name: &str, description: &str) -> (r: IntegerOptionBuilder)
    ensures
        r.0.name@ == name@,
        r.0.description@ == description@,
        !r.0.required,
        r.0.kind matches ArgKind::Integer(d) && d.min is None && d.max is None && d.choices@.len()
            == 0,
{
    IntegerOptionBuilder::new(name, description)
}

/// Declares an argument of kind `String`.
pub fn string(name: &str, description: &str) -> (r: StringOptionBuilder)
    ensures
        r.0.name@ == name@,
        r.0.description@ == description@,
        !r.0.required,
        r.0.kind matches ArgKind::String(d) && d.max_length is None && d.min_length is None
            && d.choices@.len() == 0,
{
    StringOptionBuilder::new(name, description)
}

/// Declares an argument of kind `Channel`.
pub fn channel(name: &str, description: &str) -> (r: ChannelOptionBuilder)
    ensures
        r.0.name@ == name@,
        r.0.description@ == description@,
        !r.0.required,
        r.0.kind matches ArgKind::Channel(d) && d.channel_types@.len() == 0,
{
    ChannelOptionBuilder::new(name, description)
}

/// Declares an argument of kind `Bool`.
pub fn bool(name: &str, description: &str) -> (r: ArgDesc)
    ensures
        r.name@ == name@,
        r.description@ == description@,
        r.kind is Bool,
        !r.required,
{
    ArgDesc::new(name, description, ArgKind::Bool)
}

/// Declares an argument of kind `Message`.
pub fn message(name: &str, description: &str) -> (r: ArgDesc)
    ensures
        r.name@ == name@,
        r.description@ == description@,
        r.kind is Message,
        !r.required,
{
    ArgDesc::new(name, description, ArgKind::Message)
}

/// Declares an argument of kind `Attachment`.
pub fn attachment(name: &str, description: &str) -> (r: ArgDesc)
    ensures
        r.name@ == name@,
        r.description@ == description@,
        r.kind is Attachment,
        !r.required,
{
    ArgDesc::new(name, description, ArgKind::Attachment)
}

/// Declares an argument of kind `User`.
pub fn user(name: &str, description: &str) -> (r: ArgDesc)
    ensures
        r.name@ == name@,
        r.description@ == description@,
        r.kind is User,
        !r.required,
{
    ArgDesc::new(name, description, ArgKind::User)
}

/// Declares an argument of kind `Role`.
pub fn role(name: &str, description: &str) -> (r: ArgDesc)
    ensures
        r.name@ == name@,
        r.description@ == description@,
        r.kind is Role,
        !r.required,
{
    ArgDesc::new(name, description, ArgKind::Role)
}

/// Declares an argument of kind `Mention`.
pub fn mention(name: &str, description: &str) -> (r: ArgDesc)
    ensures
        r.name@ == name@,
        r.description@ == description@,
        r.kind is Mention,
        !r.required,
{
    ArgDesc::new(name, description, ArgKind::Mention)
}

} // verus!
