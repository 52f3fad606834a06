//! The typed-argument value system: decoded values, bound argument lists,
//! and decoding of raw tokens into typed values.

use crate::builder::{ArgDesc, ArgKind};
use crate::error::CommandError;
use crate::mention::{
    parse_channel_mention, parse_role_mention, parse_user_mention, spec_channel_mention,
    spec_role_mention, spec_user_mention,
};
use crate::numbers::{parse_bool, parse_i64, spec_parse_bool, spec_parse_i64, spec_parse_u64};
use crate::numbers::parse_u64;
use crate::parser::{str_eq, trim_full, trimmed_both};
use vstd::prelude::*;
use vstd::string::StrSliceExecFns;
use vstd::string::StringExecFns;

verus! {

/// A reference-typed value: either a bare platform identifier, or a
/// materialized object held by the host, referred to here by its
/// identifier. Either way an identifier is exposed.
#[derive(Debug, Clone, Copy, PartialEq, Eq, Structural)]
pub enum Ref {
    /// A bare platform identifier.
    Id(u64),
    /// The identifier of an object the host has materialized.
    Obj(u64),
}

impl Ref {
    /// The identifier, regardless of variant.
    pub open spec fn spec_id(&self) -> u64 {
        match self {
            Ref::Id(v) => *v,
            Ref::Obj(v) => *v,
        }
    }

    /// The identifier, regardless of variant.
    pub fn id(&self) -> (r: u64)
        ensures
            r == self.spec_id(),
    {
        match self {
            Ref::Id(v) => *v,
            Ref::Obj(v) => *v,
        }
    }

    /// A reference to an object the host holds under `id`.
    pub fn from_obj(id: u64) -> (r: Ref)
        ensures
            r == Ref::Obj(id),
    {
        Ref::Obj(id)
    }
}

/// A decoded argument value, mirroring `ArgKind`'s variants. A `Number`
/// carries the IEEE-754 bit pattern of its 64-bit float value.
#[derive(Debug, Clone)]
pub enum ArgValue {
    Bool(bool),
    Number(u64),
    Integer(i64),
    String(String),
    Channel(Ref),
    Message(Ref),
    Attachment(Ref),
    User(Ref),
    Role(Ref),
    Mention(u64),
}

/// Structural equality of argument values; strings are compared by their
/// characters.
pub open spec fn arg_value_eq(a: &ArgValue, b: &ArgValue) -> bool {
    match (a, b) {
        (ArgValue::Bool(x), ArgValue::Bool(y)) => x == y,
        (ArgValue::Number(x), ArgValue::Number(y)) => x == y,
        (ArgValue::Integer(x), ArgValue::Integer(y)) => x == y,
        (ArgValue::String(x), ArgValue::String(y)) => x@ == y@,
        (ArgValue::Channel(x), ArgValue::Channel(y)) => x == y,
        (ArgValue::Message(x), ArgValue::Message(y)) => x == y,
        (ArgValue::Attachment(x), ArgValue::Attachment(y)) => x == y,
        (ArgValue::User(x), ArgValue::User(y)) => x == y,
        (ArgValue::Role(x), ArgValue::Role(y)) => x == y,
        (ArgValue::Mention(x), ArgValue::Mention(y)) => x == y,
        _ => false,
    }
}

impl PartialEq for ArgValue {
    fn eq(&self, other: &Self) -> (r: bool) {
        match (self, other) {
            (ArgValue::Bool(x), ArgValue::Bool(y)) => *x == *y,
            (ArgValue::Number(x), ArgValue::Number(y)) => *x == *y,
            (ArgValue::Integer(x), ArgValue::Integer(y)) => *x == *y,
            (ArgValue::String(x), ArgValue::String(y)) => *x == *y,
            (ArgValue::Channel(x), ArgValue::Channel(y)) => *x == *y,
            (ArgValue::Message(x), ArgValue::Message(y)) => *x == *y,
            (ArgValue::Attachment(x), ArgValue::Attachment(y)) => *x == *y,
            (ArgValue::User(x), ArgValue::User(y)) => *x == *y,
            (ArgValue::Role(x), ArgValue::Role(y)) => *x == *y,
            (ArgValue::Mention(x), ArgValue::Mention(y)) => *x == *y,
            _ => false,
        }
    }
}

impl vstd::std_specs::cmp::PartialEqSpecImpl for ArgValue {
    open spec fn obeys_eq_spec() -> bool {
        true
    }

    open spec fn eq_spec(&self, other: &Self) -> bool {
        arg_value_eq(self, other)
    }
}

impl ArgValue {
    /// The carried boolean, if this is a `Bool`.
    pub open spec fn spec_bool(&self) -> Option<bool> {
        match self {
            ArgValue::Bool(v) => Some(*v),
            _ => None,
        }
    }

    /// The carried boolean, if this is a `Bool`.
    pub fn bool(&self) -> (r: Option<bool>)
        ensures
            r == self.spec_bool(),
    {
        match self {
            ArgValue::Bool(v) => Some(*v),
            _ => None,
        }
    }

    /// The carried float bit pattern, if this is a `Number`.
    pub open spec fn spec_number(&self) -> Option<u64> {
        match self {
            ArgValue::Number(v) => Some(*v),
            _ => None,
        }
    }

    /// The carried float bit pattern, if this is a `Number`.
    pub fn number(&self) -> (r: Option<u64>)
        ensures
            r == self.spec_number(),
    {
        match self {
            ArgValue::Number(v) => Some(*v),
            _ => None,
        }
    }

    /// The carried integer, if this is an `Integer`.
    pub open spec fn spec_integer(&self) -> Option<i64> {
        match self {
            ArgValue::Integer(v) => Some(*v),
            _ => None,
        }
    }

    /// The carried integer, if this is an `Integer`.
    pub fn integer(&self) -> (r: Option<i64>)
        ensures
            r == self.spec_integer(),
    {
        match self {
            ArgValue::Integer(v) => Some(*v),
            _ => None,
        }
    }

    /// The characters of the carried string, if this is a `String`.
    pub open spec fn spec_string(&self) -> Option<Seq<char>> {
        match self {
            ArgValue::String(v) => Some(v@),
            _ => None,
        }
    }

    /// A copy of the carried string, if this is a `String`.
    pub fn string(&self) -> (r: Option<String>)
        ensures
            match r {
                Some(v) => self.spec_string() == Some(v@),
                None => self.spec_string() is None,
            },
    {
        match self {
            ArgValue::String(v) => Some(v.clone()),
            _ => None,
        }
    }

    /// The carried reference, if this is a `Channel`.
    pub open spec fn spec_channel(&self) -> Option<Ref> {
        match self {
            ArgValue::Channel(v) => Some(*v),
            _ => None,
        }
    }

    /// The carried reference, if this is a `Channel`.
    pub fn channel(&self) -> (r: Option<Ref>)
        ensures
            r == self.spec_channel(),
    {
        match self {
            ArgValue::Channel(v) => Some(*v),
            _ => None,
        }
    }

    /// The carried reference, if this is a `Message`.
    pub open spec fn spec_message(&self) -> Option<Ref> {
        match self {
            ArgValue::Message(v) => Some(*v),
            _ => None,
        }
    }

    /// The carried reference, if this is a `Message`.
    pub fn message(&self) -> (r: Option<Ref>)
        ensures
            r == self.spec_message(),
    {
        match self {
            ArgValue::Message(v) => Some(*v),
            _ => None,
        }
    }

    /// The carried reference, if this is an `Attachment`.
    pub open spec fn spec_attachment(&self) -> Option<Ref> {
        match self {
            ArgValue::Attachment(v) => Some(*v),
            _ => None,
        }
    }

    /// The carried reference, if this is an `Attachment`.
    pub fn attachment(&self) -> (r: Option<Ref>)
        ensures
            r == self.spec_attachment(),
    {
        match self {
            ArgValue::Attachment(v) => Some(*v),
            _ => None,
        }
    }

    /// The carried reference, if this is a `User`.
    pub open spec fn spec_user(&self) -> Option<Ref> {
        match self {
            ArgValue::User(v) => Some(*v),
            _ => None,
        }
    }

    /// The carried reference, if this is a `User`.
    pub fn user(&self) -> (r: Option<Ref>)
        ensures
            r == self.spec_user(),
    {
        match self {
            ArgValue::User(v) => Some(*v),
            _ => None,
        }
    }

    /// The carried reference, if this is a `Role`.
    pub open spec fn spec_role(&self) -> Option<Ref> {
        match self {
            ArgValue::Role(v) => Some(*v),
            _ => None,
        }
    }

    /// The carried reference, if this is a `Role`.
    pub fn role(&self) -> (r: Option<Ref>)
        ensures
            r == self.spec_role(),
    {
        match self {
            ArgValue::Role(v) => Some(*v),
            _ => None,
        }
    }

    /// The carried identifier, if this is a `Mention`.
    pub open spec fn spec_mention(&self) -> Option<u64> {
        match self {
            ArgValue::Mention(v) => Some(*v),
            _ => None,
        }
    }

    /// The carried identifier, if this is a `Mention`.
    pub fn mention(&self) -> (r: Option<u64>)
        ensures
            r == self.spec_mention(),
    {
        match self {
            ArgValue::Mention(v) => Some(*v),
            _ => None,
        }
    }
}

/// One bound argument: its declared name and its decoded value.
#[derive(Debug, Clone)]
pub struct Arg {
    pub name: String,
    pub value: ArgValue,
}

/// The value bound under `name` in `s`, taking the first binding when a
/// name repeats.
pub open spec fn spec_args_get(s: Seq<Arg>, name: Seq<char>) -> Option<ArgValue>
    decreases s.len(),
{
    if s.len() == 0 {
        None
    } else if s[0].name@ == name {
        Some(s[0].value)
    } else {
        spec_args_get(s.skip(1), name)
    }
}

proof fn lemma_args_get_skip(s: Seq<Arg>, name: Seq<char>, i: int)
    requires
        0 <= i <= s.len(),
        forall|j: int| 0 <= j < i ==> s[j].name@ != name,
    ensures
        spec_args_get(s, name) == spec_args_get(s.skip(i), name),
    decreases i,
{
    if i > 0 {
        lemma_args_get_skip(s, name, i - 1);
        let t = s.skip(i - 1);
        assert(t.len() > 0);
        assert(t[0] == s[i - 1]);
        assert(t.skip(1) =~= s.skip(i));
    } else {
        assert(s.skip(0) =~= s);
    }
}

/// The arguments bound for one invocation, in binding order; short-lived,
/// created and destroyed per request.
#[derive(Debug, Clone)]
pub struct Args(pub Vec<Arg>);

impl View for Args {
    type V = Seq<Arg>;

    open spec fn view(&self) -> Seq<Arg> {
        self.0@
    }
}

impl Default for Args {
    /// An empty argument list.
    fn default() -> (r: Args)
        ensures
            r@.len() == 0,
    {
        Args(Vec::new())
    }
}

impl From<Vec<Arg>> for Args {
    fn from(value: Vec<Arg>) -> (r: Args) {
        Args(value)
    }
}

impl vstd::std_specs::convert::FromSpecImpl<Vec<Arg>> for Args {
    open spec fn obeys_from_spec() -> bool {
        true
    }

    open spec fn from_spec(value: Vec<Arg>) -> Args {
        Args(value)
    }
}

impl Args {
    /// How many arguments are bound.
    pub fn len(&self) -> (r: usize)
        ensures
            r == self@.len(),
    {
        self.0.len()
    }

    /// The value bound under `name`, or `None` if the name is absent.
    pub fn get(&self, name: &str) -> (r: Option<&ArgValue>)
        ensures
            match r {
                Some(v) => spec_args_get(self@, name@) == Some(*v),
                None => spec_args_get(self@, name@) is None,
            },
    {
        let n = self.0.len();
        let mut i: usize = 0;
        while i < n
            invariant
                i <= n,
                n == self.0@.len(),
                forall|j: int| 0 <= j < i ==> self.0@[j].name@ != name@,
            decreases n - i,
        {
            if str_eq(self.0[i].name.as_str(), name) {
                proof {
                    lemma_args_get_skip(self.0@, name@, i as int);
                    let t = self.0@.skip(i as int);
                    assert(t[0] == self.0@[i as int]);
                }
                return Some(&self.0[i].value);
            }
            i = i + 1;
        }
        proof {
            lemma_args_get_skip(self.0@, name@, n as int);
            assert(self.0@.skip(n as int) =~= Seq::<Arg>::empty());
        }
        None
    }

    /// The inner argument vector.
    pub fn into_inner(self) -> (r: Vec<Arg>)
        ensures
            r@ == self@,
    {
        self.0
    }

    /// Looks up `name` and returns the boolean bound under it.
    /// `MissingArgs` (naming the argument) if the name is absent,
    /// `ArgsMismatch` if it is bound under a different type.
    pub fn bool(&self, name: &str) -> (r: Result<bool, CommandError>)
        ensures
            match spec_args_get(self@, name@) {
                None => r matches Err(CommandError::MissingArgs(m)) && m@ == name@,
                Some(v) => match v.spec_bool() {
                    Some(b) => r == Ok::<bool, CommandError>(b),
                    None => r matches Err(CommandError::ArgsMismatch),
                },
            },
    {
        match self.get(name) {
            None => Err(CommandError::MissingArgs(String::from_str(name))),
            Some(v) => match v.bool() {
                Some(b) => Ok(b),
                None => Err(CommandError::ArgsMismatch),
            },
        }
    }

    /// Looks up `name` and returns the float bit pattern bound under it.
    pub fn number(&self, name: &str) -> (r: Result<u64, CommandError>)
        ensures
            match spec_args_get(self@, name@) {
                None => r matches Err(CommandError::MissingArgs(m)) && m@ == name@,
                Some(v) => match v.spec_number() {
                    Some(b) => r == Ok::<u64, CommandError>(b),
                    None => r matches Err(CommandError::ArgsMismatch),
                },
            },
    {
        match self.get(name) {
            None => Err(CommandError::MissingArgs(String::from_str(name))),
            Some(v) => match v.number() {
                Some(b) => Ok(b),
                None => Err(CommandError::ArgsMismatch),
            },
        }
    }

    /// Looks up `name` and returns the integer bound under it.
    pub fn integer(&self, name: &str) -> (r: Result<i64, CommandError>)
        ensures
            match spec_args_get(self@, name@) {
                None => r matches Err(CommandError::MissingArgs(m)) && m@ == name@,
                Some(v) => match v.spec_integer() {
                    Some(b) => r == Ok::<i64, CommandError>(b),
                    None => r matches Err(CommandError::ArgsMismatch),
                },
            },
    {
        match self.get(name) {
            None => Err(CommandError::MissingArgs(String::from_str(name))),
            Some(v) => match v.integer() {
                Some(b) => Ok(b),
                None => Err(CommandError::ArgsMismatch),
            },
        }
    }

    /// Looks up `name` and returns the string bound under it.
    pub fn string(&self, name: &str) -> (r: Result<String, CommandError>)
        ensures
            match spec_args_get(self@, name@) {
                None => r matches Err(CommandError::MissingArgs(m)) && m@ == name@,
                Some(v) => match v.spec_string() {
                    Some(b) => r matches Ok(s) && s@ == b,
                    None => r matches Err(CommandError::ArgsMismatch),
                },
            },
    {
        match self.get(name) {
            None => Err(CommandError::MissingArgs(String::from_str(name))),
            Some(v) => match v.string() {
                Some(b) => Ok(b),
                None => Err(CommandError::ArgsMismatch),
            },
        }
    }

    /// Looks up `name` and returns the channel reference bound under it.
    pub fn channel(&self, name: &str) -> (r: Result<Ref, CommandError>)
        ensures
            match spec_args_get(self@, name@) {
                None => r matches Err(CommandError::MissingArgs(m)) && m@ == name@,
                Some(v) => match v.spec_channel() {
                    Some(b) => r == Ok::<Ref, CommandError>(b),
                    None => r matches Err(CommandError::ArgsMismatch),
                },
            },
    {
        match self.get(name) {
            None => Err(CommandError::MissingArgs(String::from_str(name))),
            Some(v) => match v.channel() {
                Some(b) => Ok(b),
                None => Err(CommandError::ArgsMismatch),
            },
        }
    }

    /// Looks up `name` and returns the message reference bound under it.
    pub fn message(&self, name: &str) -> (r: Result<Ref, CommandError>)
        ensures
            match spec_args_get(self@, name@) {
                None => r matches Err(CommandError::MissingArgs(m)) && m@ == name@,
                Some(v) => match v.spec_message() {
                    Some(b) => r == Ok::<Ref, CommandError>(b),
                    None => r matches Err(CommandError::ArgsMismatch),
                },
            },
    {
        match self.get(name) {
            None => Err(CommandError::MissingArgs(String::from_str(name))),
            Some(v) => match v.message() {
                Some(b) => Ok(b),
                None => Err(CommandError::ArgsMismatch),
            },
        }
    }

    /// Looks up `name` and returns the attachment reference bound under it.
    pub fn attachment(&self, name: &str) -> (r: Result<Ref, CommandError>)
        ensures
            match spec_args_get(self@, name@) {
                None => r matches Err(CommandError::MissingArgs(m)) && m@ == name@,
                Some(v) => match v.spec_attachment() {
                    Some(b) => r == Ok::<Ref, CommandError>(b),
                    None => r matches Err(CommandError::ArgsMismatch),
                },
            },
    {
        match self.get(name) {
            None => Err(CommandError::MissingArgs(String::from_str(name))),
            Some(v) => match v.attachment() {
                Some(b) => Ok(b),
                None => Err(CommandError::ArgsMismatch),
            },
        }
    }

    /// Looks up `name` and returns the user reference bound under it.
    pub fn user(&self, name: &str) -> (r: Result<Ref, CommandError>)
        ensures
            match spec_args_get(self@, name@) {
                None => r matches Err(CommandError::MissingArgs(m)) && m@ == name@,
                Some(v) => match v.spec_user() {
                    Some(b) => r == Ok::<Ref, CommandError>(b),
                    None => r matches Err(CommandError::ArgsMismatch),
                },
            },
    {
        match self.get(name) {
            None => Err(CommandError::MissingArgs(String::from_str(name))),
            Some(v) => match v.user() {
                Some(b) => Ok(b),
                None => Err(CommandError::ArgsMismatch),
            },
        }
    }

    /// Looks up `name` and returns the role reference bound under it.
    pub fn role(&self, name: &str) -> (r: Result<Ref, CommandError>)
        ensures
            match spec_args_get(self@, name@) {
                None => r matches Err(CommandError::MissingArgs(m)) && m@ == name@,
                Some(v) => match v.spec_role() {
                    Some(b) => r == Ok::<Ref, CommandError>(b),
                    None => r matches Err(CommandError::ArgsMismatch),
                },
            },
    {
        match self.get(name) {
            None => Err(CommandError::MissingArgs(String::from_str(name))),
            Some(v) => match v.role() {
                Some(b) => Ok(b),
                None => Err(CommandError::ArgsMismatch),
            },
        }
    }

    /// Looks up `name` and returns the mention identifier bound under it.
    pub fn mention(&self, name: &str) -> (r: Result<u64, CommandError>)
        ensures
            match spec_args_get(self@, name@) {
                None => r matches Err(CommandError::MissingArgs(m)) && m@ == name@,
                Some(v) => match v.spec_mention() {
                    Some(b) => r == Ok::<u64, CommandError>(b),
                    None => r matches Err(CommandError::ArgsMismatch),
                },
            },
    {
        match self.get(name) {
            None => Err(CommandError::MissingArgs(String::from_str(name))),
            Some(v) => match v.mention() {
                Some(b) => Ok(b),
                None => Err(CommandError::ArgsMismatch),
            },
        }
    }
}

/// The IEEE-754 bit pattern of the 64-bit float a decimal token denotes,
/// when it parses as a JSON number; what value a given text denotes is
/// fixed by the outside parser and not restated here.
pub uninterp spec fn number_bits_of(s: Seq<char>) -> Option<u64>;

/// Relies on `serde_json::from_str::<serde_json::Number>` and
/// `serde_json::Number::as_f64`: parsing a decimal token to a 64-bit float
/// under the JSON number grammar depends on the characters alone; the
/// float is carried as its bit pattern.
///
/// The JSON number grammar governs which tokens parse: a leading `+`, a
/// bare leading or trailing dot, and the infinity and not-a-number words
/// are rejected, where the standard library's float parse would accept
/// them. A float value cannot stand in verified code, so that parse cannot
/// be called here.
#[verifier::external_body]
fn parse_number_bits(text: &str) -> (r: Option<u64>)
    ensures
        r == number_bits_of(text@),
{
    serde_json::from_str::<serde_json::Number>(text).ok().and_then(|n| n.as_f64()).map(
        |x| x.to_bits(),
    )
}

/// Typed access on an optional argument value: each accessor yields the
/// carried data when a value is present under the matching variant, and
/// `None` otherwise.
pub trait ArgValueExt {
    /// The argument value viewed through this container, if any.
    spec fn value_view(&self) -> Option<ArgValue>;

    /// The carried boolean, when present as a `Bool`.
    fn bool(&self) -> (r: Option<bool>)
        ensures
            r == match self.value_view() {
                Some(v) => v.spec_bool(),
                None => None,
            },
    ;

    /// The carried float bit pattern, when present as a `Number`.
    fn number(&self) -> (r: Option<u64>)
        ensures
            r == match self.value_view() {
                Some(v) => v.spec_number(),
                None => None,
            },
    ;

    /// The carried integer, when present as an `Integer`.
    fn integer(&self) -> (r: Option<i64>)
        ensures
            r == match self.value_view() {
                Some(v) => v.spec_integer(),
                None => None,
            },
    ;

    /// A copy of the carried string, when present as a `String`.
    fn string(&self) -> (r: Option<String>)
        ensures
            match r {
                Some(out) => match self.value_view() {
                    Some(v) => v.spec_string() == Some(out@),
                    None => false,
                },
                None => match self.value_view() {
                    Some(v) => v.spec_string() is None,
                    None => true,
                },
            },
    ;

    /// The carried reference, when present as a `Channel`.
    fn channel(&self) -> (r: Option<Ref>)
        ensures
            r == match self.value_view() {
                Some(v) => v.spec_channel(),
                None => None,
            },
    ;

    /// The carried reference, when present as a `Message`.
    fn message(&self) -> (r: Option<Ref>)
        ensures
            r == match self.value_view() {
                Some(v) => v.spec_message(),
                None => None,
            },
    ;

    /// The carried reference, when present as an `Attachment`.
    fn attachment(&self) -> (r: Option<Ref>)
        ensures
            r == match self.value_view() {
                Some(v) => v.spec_attachment(),
                None => None,
            },
    ;

    /// The carried reference, when present as a `User`.
    fn user(&self) -> (r: Option<Ref>)
        ensures
            r == match self.value_view() {
                Some(v) => v.spec_user(),
                None => None,
            },
    ;

    /// The carried reference, when present as a `Role`.
    fn role(&self) -> (r: Option<Ref>)
        ensures
            r == match self.value_view() {
                Some(v) => v.spec_role(),
                None => None,
            },
    ;

    /// The carried identifier, when present as a `Mention`.
    fn mention(&self) -> (r: Option<u64>)
        ensures
            r == match self.value_view() {
                Some(v) => v.spec_mention(),
                None => None,
            },
    ;
}

impl<'x> ArgValueExt for Option<&'x ArgValue> {
    open spec fn value_view(&self) -> Option<ArgValue> {
        match self {
            Some(v) => Some(**v),
            None => None,
        }
    }

    fn bool(&self) -> (r: Option<bool>) {
        match self {
            Some(v) => v.bool(),
            None => None,
        }
    }

    fn number(&self) -> (r: Option<u64>) {
        match self {
            Some(v) => v.number(),
            None => None,
        }
    }

    fn integer(&self) -> (r: Option<i64>) {
        match self {
            Some(v) => v.integer(),
            None => None,
        }
    }

    fn string(&self) -> (r: Option<String>) {
        match self {
            Some(v) => v.string(),
            None => None,
        }
    }

    fn channel(&self) -> (r: Option<Ref>) {
        match self {
            Some(v) => v.channel(),
            None => None,
        }
    }

    fn message(&self) -> (r: Option<Ref>) {
        match self {
            Some(v) => v.message(),
            None => None,
        }
    }

    fn attachment(&self) -> (r: Option<Ref>) {
        match self {
            Some(v) => v.attachment(),
            None => None,
        }
    }

    fn user(&self) -> (r: Option<Ref>) {
        match self {
            Some(v) => v.user(),
            None => None,
        }
    }

    fn role(&self) -> (r: Option<Ref>) {
        match self {
            Some(v) => v.role(),
            None => None,
        }
    }

    fn mention(&self) -> (r: Option<u64>) {
        match self {
            Some(v) => v.mention(),
            None => None,
        }
    }
}

impl ArgValueExt for Option<ArgValue> {
    open spec fn value_view(&self) -> Option<ArgValue> {
        *self
    }

    fn bool(&self) -> (r: Option<bool>) {
        match self {
            Some(v) => v.bool(),
            None => None,
        }
    }

    fn number(&self) -> (r: Option<u64>) {
        match self {
            Some(v) => v.number(),
            None => None,
        }
    }

    fn integer(&self) -> (r: Option<i64>) {
        match self {
            Some(v) => v.integer(),
            None => None,
        }
    }

    fn string(&self) -> (r: Option<String>) {
        match self {
            Some(v) => v.string(),
            None => None,
        }
    }

    fn channel(&self) -> (r: Option<Ref>) {
        match self {
            Some(v) => v.channel(),
            None => None,
        }
    }

    fn message(&self) -> (r: Option<Ref>) {
        match self {
            Some(v) => v.message(),
            None => None,
        }
    }

    fn attachment(&self) -> (r: Option<Ref>) {
        match self {
            Some(v) => v.attachment(),
            None => None,
        }
    }

    fn user(&self) -> (r: Option<Ref>) {
        match self {
            Some(v) => v.user(),
            None => None,
        }
    }

    fn role(&self) -> (r: Option<Ref>) {
        match self {
            Some(v) => v.role(),
            None => None,
        }
    }

    fn mention(&self) -> (r: Option<u64>) {
        match self {
            Some(v) => v.mention(),
            None => None,
        }
    }
}

/// A nonzero identifier read from a raw decimal token (an optional `+`,
/// then digits), as the platform's identifier parse reads it.
pub open spec fn spec_nonzero_id(t: Seq<char>) -> Option<u64> {
    match spec_parse_u64(t) {
        Some(v) => if v != 0 {
            Some(v)
        } else {
            None
        },
        None => None,
    }
}

/// A reference identifier from a token: the inline mention reading `m`
/// when it succeeds, else a raw identifier parse of the whole token.
pub open spec fn spec_mention_or_id(m: Option<u64>, t: Seq<char>) -> Option<u64> {
    match m {
        Some(id) => Some(id),
        None => spec_nonzero_id(t),
    }
}

/// Whether decoding token `t` under `kind` may yield exactly the value
/// `v`. A float value cannot stand in verified code, so a `Number` decodes
/// to the bit pattern the outside JSON-number parser yields.
pub open spec fn spec_decode_ok(kind: &ArgKind, t: Seq<char>, v: ArgValue) -> bool {
    match kind {
        ArgKind::Bool => match v {
            ArgValue::Bool(b) => spec_parse_bool(t) == Some(b),
            _ => false,
        },
        ArgKind::Number(_) => match v {
            ArgValue::Number(bits) => number_bits_of(t) == Some(bits),
            _ => false,
        },
        ArgKind::Integer(_) => match v {
            ArgValue::Integer(x) => spec_parse_i64(t) == Some(x),
            _ => false,
        },
        ArgKind::String(_) => match v {
            ArgValue::String(s) => s@ == t,
            _ => false,
        },
        ArgKind::Channel(_) => match v {
            ArgValue::Channel(Ref::Id(id)) => spec_mention_or_id(
                spec_channel_mention(trimmed_both(t)),
                t,
            ) == Some(id),
            _ => false,
        },
        ArgKind::Message => match v {
            ArgValue::Message(Ref::Id(id)) => spec_nonzero_id(t) == Some(id),
            _ => false,
        },
        ArgKind::Attachment => match v {
            ArgValue::Attachment(Ref::Id(id)) => spec_nonzero_id(t) == Some(id),
            _ => false,
        },
        ArgKind::User => match v {
            ArgValue::User(Ref::Id(id)) => spec_mention_or_id(
                spec_user_mention(trimmed_both(t)),
                t,
            ) == Some(id),
            _ => false,
        },
        ArgKind::Role => match v {
            ArgValue::Role(Ref::Id(id)) => spec_mention_or_id(
                spec_role_mention(trimmed_both(t)),
                t,
            ) == Some(id),
            _ => false,
        },
        ArgKind::Mention => match v {
            ArgValue::Mention(id) => spec_nonzero_id(t) == Some(id),
            _ => false,
        },
    }
}

/// Whether decoding token `t` under `kind` fails.
pub open spec fn spec_decode_fails(kind: &ArgKind, t: Seq<char>) -> bool {
    match kind {
        ArgKind::Bool => spec_parse_bool(t) is None,
        ArgKind::Number(_) => number_bits_of(t) is None,
        ArgKind::Integer(_) => spec_parse_i64(t) is None,
        ArgKind::String(_) => false,
        ArgKind::Channel(_) => spec_mention_or_id(
            spec_channel_mention(trimmed_both(t)),
            t,
        ) is None,
        ArgKind::Message => spec_nonzero_id(t) is None,
        ArgKind::Attachment => spec_nonzero_id(t) is None,
        ArgKind::User => spec_mention_or_id(spec_user_mention(trimmed_both(t)), t) is None,
        ArgKind::Role => spec_mention_or_id(spec_role_mention(trimmed_both(t)), t) is None,
        ArgKind::Mention => spec_nonzero_id(t) is None,
    }
}

/// Whether values of `kind` have an inline mention form beside the raw
/// identifier form.
pub open spec fn has_mention_form(kind: &ArgKind) -> bool {
    kind is Channel || kind is User || kind is Role
}

/// The message of a decode failure: it carries the offending token and the
/// kind it failed to decode as. For a kind with an inline mention form both
/// attempted readings failed, and the message chains both failures.
pub open spec fn decode_error_message(kind: &ArgKind, t: Seq<char>) -> Seq<char> {
    let base = "Failed to parse '"@ + t + "' as "@ + kind.spec_kind_name();
    if has_mention_form(kind) {
        base + " (as mention: no inline mention; as id: not a nonzero decimal identifier)"@
    } else {
        base
    }
}

fn decode_error(kind: &ArgKind, text: &str) -> (e: CommandError)
    ensures
        match e {
            CommandError::Other(m) => m@ == decode_error_message(kind, text@),
            _ => false,
        },
{
    let mut m = String::from_str("Failed to parse '");
    m.append(text);
    m.append("' as ");
    m.append(kind.kind_name());
    let chained = match kind {
        ArgKind::Channel(_) => true,
        ArgKind::User => true,
        ArgKind::Role => true,
        _ => false,
    };
    if chained {
        m.append(" (as mention: no inline mention; as id: not a nonzero decimal identifier)");
    }
    CommandError::Other(m)
}

fn nonzero_id(text: &str) -> (r: Option<u64>)
    ensures
        r == spec_nonzero_id(text@),
{
    match parse_u64(text) {
        Some(v) => if v != 0 {
            Some(v)
        } else {
            None
        },
        None => None,
    }
}

impl ArgValue {
    /// Decodes a raw token into a value of the given kind.
    ///
    /// Reference-typed kinds with an inline form (channel, user, role)
    /// first try the mention syntax on the trimmed token, then a raw
    /// nonzero decimal identifier on the token as given. A `Number` token
    /// is parsed by the outside JSON-number parser and carried as the bit
    /// pattern of its 64-bit float value.
    pub fn from_kind(kind: &ArgKind, text: &str) -> (r: Result<ArgValue, CommandError>)
        ensures
            match r {
                Ok(v) => spec_decode_ok(kind, text@, v),
                Err(e) => spec_decode_fails(kind, text@) && match e {
                    CommandError::Other(m) => m@ == decode_error_message(kind, text@),
                    _ => false,
                },
            },
    {
        match kind {
            ArgKind::Bool => match parse_bool(text) {
                Some(b) => Ok(ArgValue::Bool(b)),
                None => Err(decode_error(kind, text)),
            },
            ArgKind::Number(_) => match parse_number_bits(text) {
                Some(bits) => Ok(ArgValue::Number(bits)),
                None => Err(decode_error(kind, text)),
            },
            ArgKind::Integer(_) => match parse_i64(text) {
                Some(x) => Ok(ArgValue::Integer(x)),
                None => Err(decode_error(kind, text)),
            },
            ArgKind::String(_) => Ok(ArgValue::String(String::from_str(text))),
            ArgKind::Channel(_) => match parse_channel_mention(trim_full(text)) {
                Some(id) => Ok(ArgValue::Channel(Ref::Id(id))),
                None => match nonzero_id(text) {
                    Some(id) => Ok(ArgValue::Channel(Ref::Id(id))),
                    None => Err(decode_error(kind, text)),
                },
            },
            ArgKind::Message => match nonzero_id(text) {
                Some(id) => Ok(ArgValue::Message(Ref::Id(id))),
                None => Err(decode_error(kind, text)),
            },
            ArgKind::Attachment => match nonzero_id(text) {
                Some(id) => Ok(ArgValue::Attachment(Ref::Id(id))),
                None => Err(decode_error(kind, text)),
            },
            ArgKind::User => match parse_user_mention(trim_full(text)) {
                Some(id) => Ok(ArgValue::User(Ref::Id(id))),
                None => match nonzero_id(text) {
                    Some(id) => Ok(ArgValue::User(Ref::Id(id))),
                    None => Err(decode_error(kind, text)),
                },
            },
            ArgKind::Role => match parse_role_mention(trim_full(text)) {
                Some(id) => Ok(ArgValue::Role(Ref::Id(id))),
                None => match nonzero_id(text) {
                    Some(id) => Ok(ArgValue::Role(Ref::Id(id))),
                    None => Err(decode_error(kind, text)),
                },
            },
            ArgKind::Mention => match nonzero_id(text) {
                Some(id) => Ok(ArgValue::Mention(id)),
                None => Err(decode_error(kind, text)),
            },
        }
    }
}

impl Arg {
    /// Decodes a raw token under a declared argument, binding the
    /// argument's name to the decoded value.
    pub fn from_desc(desc: &ArgDesc, text: &str) -> (r: Result<Arg, CommandError>)
        ensures
            match r {
                Ok(a) => a.name@ == desc.name@ && spec_decode_ok(&desc.kind, text@, a.value),
                Err(e) => spec_decode_fails(&desc.kind, text@) && match e {
                    CommandError::Other(m) => m@ == decode_error_message(&desc.kind, text@),
                    _ => false,
                },
            },
    {
        match ArgValue::from_kind(&desc.kind, text) {
            Ok(value) => Ok(Arg { name: desc.name.clone(), value }),
            Err(e) => Err(e),
        }
    }
}

} // verus!
