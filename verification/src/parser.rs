//! Tokenization of free-text command invocations.
//!
//! A raw message body is split into argument tokens under a quoting grammar:
//! a token either stands between two occurrences of the same delimiter
//! character, or runs up to the next whitespace.

use vstd::prelude::*;
use vstd::string::StrSliceExecFns;
use vstd::string::StringExecFns;

verus! {

/// Errors of tokenization.
#[derive(Debug)]
pub enum ParseError {
    /// An expected argument or token is absent.
    MissingArgs,
    /// Arguments were unexpected or failed to process.
    UnexpectedArgs(String),
    /// Any other tokenization failure, with its message.
    Other(String),
}

/// Which variant of `ParseError` a value is; equality of parse errors
/// goes by variant alone, the carried message is not compared.
pub open spec fn same_parse_error_variant(a: &ParseError, b: &ParseError) -> bool {
    match (a, b) {
        (ParseError::MissingArgs, ParseError::MissingArgs) => true,
        (ParseError::UnexpectedArgs(_), ParseError::UnexpectedArgs(_)) => true,
        (ParseError::Other(_), ParseError::Other(_)) => true,
        _ => false,
    }
}

impl PartialEq for ParseError {
    fn eq(&self, other: &Self) -> (r: bool) {
        match (self, other) {
            (ParseError::MissingArgs, ParseError::MissingArgs) => true,
            (ParseError::UnexpectedArgs(_), ParseError::UnexpectedArgs(_)) => true,
            (ParseError::Other(_), ParseError::Other(_)) => true,
            _ => false,
        }
    }
}

impl vstd::std_specs::cmp::PartialEqSpecImpl for ParseError {
    open spec fn obeys_eq_spec() -> bool {
        true
    }

    open spec fn eq_spec(&self, other: &Self) -> bool {
        same_parse_error_variant(self, other)
    }
}

/// The delimiter characters that may quote a token.
pub open spec fn is_delimiter(c: char) -> bool {
    c == '"' || c == '\'' || c == '`'
}

/// Whether `c` is a delimiter character (double quote, single quote or
/// backtick).
pub fn delimiter_char(c: char) -> (r: bool)
    ensures
        r == is_delimiter(c),
{
    c == '"' || c == '\'' || c == '`'
}

/// Whether `c` has the Unicode `White_Space` property, as
/// `char::is_whitespace` decides it.
pub open spec fn is_whitespace_char(c: char) -> bool {
    let u = c as u32;
    u == 0x09 || u == 0x0A || u == 0x0B || u == 0x0C || u == 0x0D || u == 0x20 || u == 0x85
        || u == 0xA0 || u == 0x1680 || (0x2000 <= u && u <= 0x200A) || u == 0x2028 || u == 0x2029
        || u == 0x202F || u == 0x205F || u == 0x3000
}

/// Whether `c` is a whitespace character.
pub fn whitespace_char(c: char) -> (r: bool)
    ensures
        r == is_whitespace_char(c),
{
    let u: u32 = c as u32;
    u == 0x09 || u == 0x0A || u == 0x0B || u == 0x0C || u == 0x0D || u == 0x20 || u == 0x85
        || u == 0xA0 || u == 0x1680 || (0x2000 <= u && u <= 0x200A) || u == 0x2028 || u == 0x2029
        || u == 0x202F || u == 0x205F || u == 0x3000
}

/// How many whitespace characters `s` begins with.
pub open spec fn leading_ws(s: Seq<char>) -> nat
    decreases s.len(),
{
    if s.len() == 0 || !is_whitespace_char(s[0]) {
        0
    } else {
        1 + leading_ws(s.skip(1))
    }
}

/// `s` without its leading whitespace.
pub open spec fn trimmed(s: Seq<char>) -> Seq<char> {
    s.skip(leading_ws(s) as int)
}

pub proof fn lemma_leading_ws(s: Seq<char>)
    ensures
        leading_ws(s) <= s.len(),
        forall|i: int| 0 <= i < leading_ws(s) ==> is_whitespace_char(s[i]),
        leading_ws(s) < s.len() ==> !is_whitespace_char(s[leading_ws(s) as int]),
    decreases s.len(),
{
    if s.len() > 0 && is_whitespace_char(s[0]) {
        lemma_leading_ws(s.skip(1));
        assert forall|i: int| 0 <= i < leading_ws(s) implies is_whitespace_char(s[i]) by {
            if i > 0 {
                assert(s.skip(1)[i - 1] == s[i]);
            }
        }
        if leading_ws(s) < s.len() {
            assert(s.skip(1)[leading_ws(s) as int - 1] == s[leading_ws(s) as int]);
        }
    }
}

/// Any cut obeying the trimming conditions is the leading-whitespace count.
pub proof fn lemma_leading_ws_unique(s: Seq<char>, k: nat)
    requires
        k <= s.len(),
        forall|i: int| 0 <= i < k ==> is_whitespace_char(s[i]),
        k < s.len() ==> !is_whitespace_char(s[k as int]),
    ensures
        leading_ws(s) == k,
    decreases s.len(),
{
    if s.len() > 0 && is_whitespace_char(s[0]) {
        assert(k > 0);
        lemma_leading_ws_unique(s.skip(1), (k - 1) as nat);
    }
}

/// `s` with its leading whitespace removed.
pub fn trim_start(s: &str) -> (r: &str)
    ensures
        r@ == trimmed(s@),
{
    let n = s.unicode_len();
    let mut i: usize = 0;
    while i < n && whitespace_char(s.get_char(i))
        invariant
            i <= n,
            n == s@.len(),
            forall|j: int| 0 <= j < i ==> is_whitespace_char(s@[j]),
        decreases n - i,
    {
        i = i + 1;
    }
    proof {
        lemma_leading_ws_unique(s@, i as nat);
    }
    s.substring_char(i, n)
}

/// How many whitespace characters `s` ends with.
pub open spec fn trailing_ws(s: Seq<char>) -> nat
    decreases s.len(),
{
    if s.len() == 0 || !is_whitespace_char(s.last()) {
        0
    } else {
        1 + trailing_ws(s.drop_last())
    }
}

pub proof fn lemma_trailing_ws(s: Seq<char>)
    ensures
        trailing_ws(s) <= s.len(),
        forall|i: int| s.len() - trailing_ws(s) <= i < s.len() ==> is_whitespace_char(s[i]),
        trailing_ws(s) < s.len() ==> !is_whitespace_char(s[s.len() - trailing_ws(s) - 1]),
    decreases s.len(),
{
    if s.len() > 0 && is_whitespace_char(s.last()) {
        lemma_trailing_ws(s.drop_last());
        assert forall|i: int|
            s.len() - trailing_ws(s) <= i < s.len() implies is_whitespace_char(s[i]) by {
            if i < s.len() - 1 {
                assert(s.drop_last()[i] == s[i]);
            }
        }
        if trailing_ws(s) < s.len() {
            assert(s.drop_last()[s.len() - trailing_ws(s) - 1] == s[s.len() - trailing_ws(s)
                - 1]);
        }
    }
}

/// Any cut obeying the end-trimming conditions is the trailing-whitespace
/// count.
pub proof fn lemma_trailing_ws_unique(s: Seq<char>, k: nat)
    requires
        k <= s.len(),
        forall|i: int| s.len() - k <= i < s.len() ==> is_whitespace_char(s[i]),
        k < s.len() ==> !is_whitespace_char(s[s.len() - k - 1]),
    ensures
        trailing_ws(s) == k,
    decreases s.len(),
{
    if s.len() > 0 && is_whitespace_char(s.last()) {
        assert(k > 0);
        lemma_trailing_ws_unique(s.drop_last(), (k - 1) as nat);
    }
}

/// `s` without leading and trailing whitespace.
pub open spec fn trimmed_both(s: Seq<char>) -> Seq<char> {
    let t = trimmed(s);
    t.take(t.len() - trailing_ws(t))
}

/// `s` with leading and trailing whitespace removed.
pub fn trim_full(s: &str) -> (r: &str)
    ensures
        r@ == trimmed_both(s@),
{
    let n = s.unicode_len();
    let mut i: usize = 0;
    while i < n && whitespace_char(s.get_char(i))
        invariant
            i <= n,
            n == s@.len(),
            forall|j: int| 0 <= j < i ==> is_whitespace_char(s@[j]),
        decreases n - i,
    {
        i = i + 1;
    }
    proof {
        lemma_leading_ws_unique(s@, i as nat);
    }
    let mut e: usize = n;
    while e > i && whitespace_char(s.get_char(e - 1))
        invariant
            i <= e <= n,
            n == s@.len(),
            forall|j: int| 0 <= j < i ==> is_whitespace_char(s@[j]),
            forall|j: int| e <= j < n ==> is_whitespace_char(s@[j]),
        decreases e,
    {
        e = e - 1;
    }
    proof {
        let t = trimmed(s@);
        assert(t =~= s@.subrange(i as int, n as int));
        if e == i {
            lemma_trailing_ws_unique(t, (n - i) as nat);
        } else {
            assert(!is_whitespace_char(s@[e - 1]));
            assert forall|j: int| t.len() - (n - e) <= j < t.len() implies is_whitespace_char(
                t[j],
            ) by {
                assert(t[j] == s@[j + i]);
            }
            assert(t[t.len() - (n - e) - 1] == s@[e - 1]);
            lemma_trailing_ws_unique(t, (n - e) as nat);
        }
        assert(trimmed_both(s@) =~= s@.subrange(i as int, e as int));
    }
    s.substring_char(i, e)
}

/// The least index at or after `from` where `target` occurs in `s`.
pub open spec fn find_char(s: Seq<char>, from: nat, target: char) -> Option<nat>
    decreases s.len() - from,
{
    if from >= s.len() {
        None
    } else if s[from as int] == target {
        Some(from)
    } else {
        find_char(s, from + 1, target)
    }
}

pub proof fn lemma_find_char(s: Seq<char>, from: nat, target: char)
    ensures
        match find_char(s, from, target) {
            Some(j) => from <= j < s.len() && s[j as int] == target && forall|i: int|
                from <= i < j ==> s[i] != target,
            None => forall|i: int| from <= i < s.len() ==> s[i] != target,
        },
    decreases s.len() - from,
{
    if from < s.len() && s[from as int] != target {
        lemma_find_char(s, from + 1, target);
    }
}

/// The least index at or after `from` where a whitespace character occurs.
pub open spec fn find_ws(s: Seq<char>, from: nat) -> Option<nat>
    decreases s.len() - from,
{
    if from >= s.len() {
        None
    } else if is_whitespace_char(s[from as int]) {
        Some(from)
    } else {
        find_ws(s, from + 1)
    }
}

pub proof fn lemma_find_ws(s: Seq<char>, from: nat)
    ensures
        match find_ws(s, from) {
            Some(j) => from <= j < s.len() && is_whitespace_char(s[j as int]) && forall|i: int|
                from <= i < j ==> !is_whitespace_char(s[i]),
            None => forall|i: int| from <= i < s.len() ==> !is_whitespace_char(s[i]),
        },
    decreases s.len() - from,
{
    if from < s.len() && !is_whitespace_char(s[from as int]) {
        lemma_find_ws(s, from + 1);
    }
}

/// Splits `text` at its first whitespace character: `(next, rest)`, where
/// `next` is the part before it and `rest` everything after it. Without any
/// whitespace the whole text is `next` and `rest` is `None`.
pub fn split_once_whitespace(text: &str) -> (r: (&str, Option<&str>))
    ensures
        match find_ws(text@, 0) {
            Some(j) => r.0@ == text@.subrange(0, j as int) && match r.1 {
                Some(rest) => rest@ == text@.subrange(j as int + 1, text@.len() as int),
                None => false,
            },
            None => r.0@ == text@ && r.1 is None,
        },
{
    let n = text.unicode_len();
    let mut i: usize = 0;
    while i < n && !whitespace_char(text.get_char(i))
        invariant
            i <= n,
            n == text@.len(),
            forall|j: int| 0 <= j < i ==> !is_whitespace_char(text@[j]),
        decreases n - i,
    {
        i = i + 1;
    }
    if i == n {
        proof {
            lemma_find_ws(text@, 0);
        }
        (text, None)
    } else {
        proof {
            lemma_find_ws(text@, 0);
            if let Some(j) = find_ws(text@, 0) {
                assert(j == i);
            }
        }
        (text.substring_char(0, i), Some(text.substring_char(i + 1, n)))
    }
}

/// The message of the unmatched-delimiter error: it names the offending
/// text and the valid delimiter set.
pub open spec fn missing_delimiter_message(t: Seq<char>) -> Seq<char> {
    "Missing matching delimiter: '"@ + t + "', expected one of: \" ' `"@
}

fn build_missing_delimiter_message(t: &str) -> (m: String)
    ensures
        m@ == missing_delimiter_message(t@),
{
    let mut m = String::from_str("Missing matching delimiter: '");
    m.append(t);
    m.append("', expected one of: \" ' `");
    m
}

/// Reads the next argument token off `input` and returns `(arg, rest)`:
/// `arg` is either the first quoted part, the first whitespace-separated
/// part, or the whole input after trimming leading whitespace; `rest` holds
/// the remaining text, if any, verbatim.
///
/// If the trimmed input begins with a delimiter character, the token is
/// everything strictly between that delimiter and its next occurrence, and
/// the rest is everything after the closing delimiter, untrimmed — even when
/// non-whitespace follows the closing delimiter directly. An opening
/// delimiter with no matching close is an error naming the unmatched text
/// and the valid delimiter set. Escape characters are not handled. An input
/// of only whitespace yields `MissingArgs`.
pub fn maybe_quoted_arg(input: &str) -> (r: Result<(&str, Option<&str>), ParseError>)
    ensures
        ({
            let t = trimmed(input@);
            match r {
                Ok((arg, orest)) => t.len() > 0 && if is_delimiter(t[0]) {
                    match find_char(t, 1, t[0]) {
                        Some(j) => arg@ == t.subrange(1, j as int) && match orest {
                            Some(rest) => rest@ == t.subrange(j as int + 1, t.len() as int),
                            None => false,
                        },
                        None => false,
                    }
                } else {
                    match find_ws(t, 0) {
                        Some(j) => arg@ == t.subrange(0, j as int) && match orest {
                            Some(rest) => rest@ == t.subrange(j as int + 1, t.len() as int),
                            None => false,
                        },
                        None => arg@ == t && orest is None,
                    }
                },
                Err(ParseError::MissingArgs) => t.len() == 0,
                Err(ParseError::Other(m)) => t.len() > 0 && is_delimiter(t[0]) && find_char(
                    t,
                    1,
                    t[0],
                ) is None && m@ == missing_delimiter_message(t),
                Err(ParseError::UnexpectedArgs(_)) => false,
            }
        }),
{
    let input = trim_start(input);
    let n = input.unicode_len();
    if n == 0 {
        return Err(ParseError::MissingArgs);
    }
    let initial = input.get_char(0);
    if delimiter_char(initial) {
        let mut i: usize = 1;
        while i < n && input.get_char(i) != initial
            invariant
                1 <= i <= n,
                n == input@.len(),
                forall|j: int| 1 <= j < i ==> input@[j] != initial,
            decreases n - i,
        {
            i = i + 1;
        }
        proof {
            lemma_find_char(input@, 1, initial);
        }
        if i == n {
            Err(ParseError::Other(build_missing_delimiter_message(input)))
        } else {
            proof {
                if let Some(j) = find_char(input@, 1, initial) {
                    assert(j == i);
                }
            }
            Ok((input.substring_char(1, i), Some(input.substring_char(i + 1, n))))
        }
    } else {
        Ok(split_once_whitespace(input))
    }
}

/// The tokens of `s` under the quoting grammar, or, when an opening
/// delimiter has no matching close, the offending trimmed text.
pub open spec fn spec_parse_args(s: Seq<char>) -> Result<Seq<Seq<char>>, Seq<char>>
    decreases s.len(),
    via spec_parse_args_decreases
{
    let t = trimmed(s);
    if t.len() == 0 {
        Ok(Seq::empty())
    } else if is_delimiter(t[0]) {
        match find_char(t, 1, t[0]) {
            Option::None => Err(t),
            Option::Some(j) => match spec_parse_args(t.subrange(j as int + 1, t.len() as int)) {
                Ok(toks) => Ok(seq![t.subrange(1, j as int)] + toks),
                Err(u) => Err(u),
            },
        }
    } else {
        match find_ws(t, 0) {
            Option::None => Ok(seq![t]),
            Option::Some(j) => match spec_parse_args(t.subrange(j as int + 1, t.len() as int)) {
                Ok(toks) => Ok(seq![t.subrange(0, j as int)] + toks),
                Err(u) => Err(u),
            },
        }
    }
}

#[via_fn]
proof fn spec_parse_args_decreases(s: Seq<char>) {
    lemma_leading_ws(s);
    let t = trimmed(s);
    if t.len() > 0 {
        if is_delimiter(t[0]) {
            lemma_find_char(t, 1, t[0]);
        } else {
            lemma_find_ws(t, 0);
        }
    }
}

/// `r` with `pre` prepended to its tokens, when it has any.
pub open spec fn with_prefix(pre: Seq<Seq<char>>, r: Result<Seq<Seq<char>>, Seq<char>>) -> Result<
    Seq<Seq<char>>,
    Seq<char>,
> {
    match r {
        Ok(toks) => Ok(pre + toks),
        Err(u) => Err(u),
    }
}

/// Splits the whole input into argument tokens by repeatedly taking the next
/// token. Running out of input between tokens is a clean stop, not an error;
/// only an unmatched opening delimiter fails.
pub fn parse_args<'a>(input: &'a str) -> (r: Result<Vec<&'a str>, ParseError>)
    ensures
        match r {
            Ok(args) => spec_parse_args(input@) == Ok::<Seq<Seq<char>>, Seq<char>>(
                args.deep_view(),
            ),
            Err(e) => match spec_parse_args(input@) {
                Err(t) => match e {
                    ParseError::Other(m) => m@ == missing_delimiter_message(t),
                    _ => false,
                },
                Ok(_) => false,
            },
        },
{
    let mut args: Vec<&'a str> = Vec::new();
    let mut cur: &'a str = input;
    loop
        invariant
            spec_parse_args(input@) == with_prefix(args.deep_view(), spec_parse_args(cur@)),
        decreases cur@.len(),
    {
        proof {
            lemma_leading_ws(cur@);
        }
        let ghost pre = args.deep_view();
        let ghost t = trimmed(cur@);
        match maybe_quoted_arg(cur) {
            Ok((arg, orest)) => {
                args.push(arg);
                proof {
                    assert(args.deep_view() =~= pre.push(arg@));
                }
                match orest {
                    Some(rest) => {
                        proof {
                            if is_delimiter(t[0]) {
                                lemma_find_char(t, 1, t[0]);
                                if let Some(j) = find_char(t, 1, t[0]) {
                                    assert(rest@.len() == t.len() - j - 1);
                                }
                            } else {
                                lemma_find_ws(t, 0);
                                if let Some(j) = find_ws(t, 0) {
                                    assert(rest@.len() == t.len() - j - 1);
                                }
                            }
                            assert(t.len() <= cur@.len());
                            assert(rest@.len() < cur@.len());
                            let rest_res = spec_parse_args(rest@);
                            assert(spec_parse_args(cur@) == with_prefix(seq![arg@], rest_res));
                            match rest_res {
                                Ok(toks) => {
                                    assert(pre + (seq![arg@] + toks) =~= pre.push(arg@) + toks);
                                },
                                Err(_) => {},
                            }
                        }
                        cur = rest;
                    },
                    None => {
                        proof {
                            assert(spec_parse_args(cur@) == Ok::<Seq<Seq<char>>, Seq<char>>(
                                seq![arg@],
                            ));
                            assert(pre + seq![arg@] =~= pre.push(arg@));
                        }
                        return Ok(args);
                    },
                }
            },
            Err(e) => {
                match e {
                    ParseError::MissingArgs => {
                        proof {
                            assert(spec_parse_args(cur@) == Ok::<Seq<Seq<char>>, Seq<char>>(
                                Seq::empty(),
                            ));
                            assert(pre + Seq::<Seq<char>>::empty() =~= pre);
                        }
                        return Ok(args);
                    },
                    _ => {
                        return Err(e);
                    },
                }
            },
        }
    }
}

pub proof fn lemma_find_ws_unique(s: Seq<char>, from: nat, j: nat)
    requires
        from <= j < s.len(),
        is_whitespace_char(s[j as int]),
        forall|i: int| from <= i < j ==> !is_whitespace_char(s[i]),
    ensures
        find_ws(s, from) == Some(j),
    decreases j - from,
{
    if from < j {
        lemma_find_ws_unique(s, from + 1, j);
    }
}

pub proof fn lemma_find_char_unique(s: Seq<char>, from: nat, target: char, j: nat)
    requires
        from <= j < s.len(),
        s[j as int] == target,
        forall|i: int| from <= i < j ==> s[i] != target,
    ensures
        find_char(s, from, target) == Some(j),
    decreases j - from,
{
    if from < j {
        lemma_find_char_unique(s, from + 1, target, j);
    }
}

/// A token that needs no quoting: nonempty, and free of whitespace and
/// delimiter characters.
pub open spec fn plain_token(t: Seq<char>) -> bool {
    t.len() > 0 && forall|i: int|
        0 <= i < t.len() ==> !is_whitespace_char(t[i]) && !is_delimiter(t[i])
}

/// The tokens joined by single spaces.
pub open spec fn space_joined(tokens: Seq<Seq<char>>) -> Seq<char>
    decreases tokens.len(),
{
    if tokens.len() == 0 {
        Seq::empty()
    } else if tokens.len() == 1 {
        tokens[0]
    } else {
        tokens[0] + seq![' '] + space_joined(tokens.skip(1))
    }
}

/// Tokenization round trip: splitting an already-tokenized, delimiter-free,
/// whitespace-joined sequence reproduces the original tokens exactly.
pub proof fn lemma_parse_args_round_trip(tokens: Seq<Seq<char>>)
    requires
        forall|i: int| 0 <= i < tokens.len() ==> plain_token(tokens[i]),
    ensures
        spec_parse_args(space_joined(tokens)) == Ok::<Seq<Seq<char>>, Seq<char>>(tokens),
    decreases tokens.len(),
{
    let s = space_joined(tokens);
    if tokens.len() == 0 {
        assert(leading_ws(s) == 0);
        assert(trimmed(s) =~= Seq::empty());
        assert(tokens =~= Seq::<Seq<char>>::empty());
    } else if tokens.len() == 1 {
        assert(plain_token(tokens[0]));
        assert(s == tokens[0]);
        assert(!is_whitespace_char(s[0]));
        assert(leading_ws(s) == 0);
        assert(trimmed(s) =~= s);
        let t = trimmed(s);
        assert(!is_delimiter(t[0]));
        lemma_find_ws(t, 0);
        if let Some(j) = find_ws(t, 0) {
            assert(is_whitespace_char(t[j as int]));
            assert(false);
        }
        assert(spec_parse_args(s) == Ok::<Seq<Seq<char>>, Seq<char>>(seq![t]));
        assert(seq![t] =~= tokens);
    } else {
        let head = tokens[0];
        let rest_join = space_joined(tokens.skip(1));
        assert(s == head + seq![' '] + rest_join);
        let n0 = head.len();
        assert(plain_token(head));
        assert(s.len() == n0 + 1 + rest_join.len());
        assert(forall|i: int| 0 <= i < n0 ==> s[i] == head[i]);
        assert(s[n0 as int] == ' ');
        assert(!is_whitespace_char(s[0]));
        assert(leading_ws(s) == 0);
        assert(trimmed(s) =~= s);
        let t = trimmed(s);
        assert(t == s);
        assert(!is_delimiter(t[0]));
        assert(is_whitespace_char(' '));
        lemma_find_ws_unique(t, 0, n0);
        let tok = t.subrange(0, n0 as int);
        let rest = t.subrange(n0 as int + 1, t.len() as int);
        assert(tok =~= head);
        assert(rest =~= rest_join);
        assert(forall|i: int|
            0 <= i < tokens.skip(1).len() ==> plain_token(#[trigger] tokens.skip(1)[i]));
        lemma_parse_args_round_trip(tokens.skip(1));
        assert(spec_parse_args(rest) == Ok::<Seq<Seq<char>>, Seq<char>>(tokens.skip(1)));
        assert(spec_parse_args(s) == Ok::<Seq<Seq<char>>, Seq<char>>(
            seq![tok] + tokens.skip(1),
        ));
        assert(seq![tok] + tokens.skip(1) =~= tokens);
    }
}

/// The message of the trailing-input error.
pub open spec fn unexpected_args_message(r: Seq<char>) -> Seq<char> {
    "Unexpected '"@ + r + "'"@
}

/// Checks that nothing but whitespace is left of `rest`: anything else is an
/// `UnexpectedArgs` error naming the remaining text.
pub fn ensure_rest_is_empty(rest: Option<&str>) -> (r: Result<(), ParseError>)
    ensures
        match rest {
            None => r is Ok,
            Some(s) => match r {
                Ok(()) => forall|i: int| 0 <= i < s@.len() ==> is_whitespace_char(s@[i]),
                Err(e) => (exists|i: int| 0 <= i < s@.len() && !is_whitespace_char(s@[i]))
                    && match e {
                    ParseError::UnexpectedArgs(m) => m@ == unexpected_args_message(s@),
                    _ => false,
                },
            },
        },
{
    if let Some(s) = rest {
        let n = s.unicode_len();
        let mut i: usize = 0;
        while i < n && whitespace_char(s.get_char(i))
            invariant
                i <= n,
                n == s@.len(),
                forall|j: int| 0 <= j < i ==> is_whitespace_char(s@[j]),
            decreases n - i,
        {
            i = i + 1;
        }
        if i < n {
            let mut m = String::from_str("Unexpected '");
            m.append(s);
            m.append("'");
            return Err(ParseError::UnexpectedArgs(m));
        }
    }
    Ok(())
}

/// Whether `p` is a prefix of `s`.
pub open spec fn is_prefix_of(p: Seq<char>, s: Seq<char>) -> bool {
    p.len() <= s.len() && s.subrange(0, p.len() as int) == p
}

fn str_starts_with(s: &str, p: &str) -> (r: bool)
    ensures
        r == is_prefix_of(p@, s@),
{
    let np = p.unicode_len();
    let ns = s.unicode_len();
    if np > ns {
        return false;
    }
    let mut i: usize = 0;
    while i < np
        invariant
            i <= np,
            np == p@.len(),
            ns == s@.len(),
            np <= ns,
            forall|j: int| 0 <= j < i ==> s@[j] == p@[j],
        decreases np - i,
    {
        if s.get_char(i) != p.get_char(i) {
            proof {
                assert(s@.subrange(0, np as int)[i as int] != p@[i as int]);
            }
            return false;
        }
        i = i + 1;
    }
    proof {
        assert(s@.subrange(0, np as int) =~= p@);
    }
    true
}

/// Whether two string slices hold the same characters.
pub fn str_eq(a: &str, b: &str) -> (r: bool)
    ensures
        r == (a@ == b@),
{
    let na = a.unicode_len();
    let nb = b.unicode_len();
    if na != nb {
        proof {
            assert(a@ != b@);
        }
        return false;
    }
    let mut i: usize = 0;
    while i < na
        invariant
            i <= na,
            na == a@.len(),
            na == b@.len(),
            forall|j: int| 0 <= j < i ==> a@[j] == b@[j],
        decreases na - i,
    {
        if a.get_char(i) != b.get_char(i) {
            return false;
        }
        i = i + 1;
    }
    proof {
        assert(a@ =~= b@);
    }
    true
}

/// Matches `text` against each prefix in order and returns
/// `Some((prefix, unprefixed))` for the first that matches, where `prefix`
/// is the matched head of `text` and `unprefixed` is everything after it;
/// `None` if no prefix matches.
pub fn unprefix_with<'a>(prefixes: &Vec<String>, text: &'a str) -> (r: Option<(&'a str, &'a str)>)
    ensures
        match r {
            Some((pre, rest)) => exists|k: int|
                0 <= k < prefixes@.len() && is_prefix_of(prefixes@[k]@, text@) && (forall|j: int|
                    0 <= j < k ==> !is_prefix_of(prefixes@[j]@, text@)) && pre@ == prefixes@[k]@
                    && rest@ == text@.skip(prefixes@[k]@.len() as int),
            None => forall|k: int|
                0 <= k < prefixes@.len() ==> !is_prefix_of(prefixes@[k]@, text@),
        },
{
    let n = text.unicode_len();
    let mut k: usize = 0;
    while k < prefixes.len()
        invariant
            k <= prefixes@.len(),
            n == text@.len(),
            forall|j: int| 0 <= j < k ==> !is_prefix_of(prefixes@[j]@, text@),
        decreases prefixes@.len() - k,
    {
        let p = &prefixes[k];
        if str_starts_with(text, p.as_str()) {
            let plen = p.as_str().unicode_len();
            let pre = text.substring_char(0, plen);
            let rest = text.substring_char(plen, n);
            proof {
                assert(pre@ == prefixes@[k as int]@);
                assert(rest@ =~= text@.skip(prefixes@[k as int]@.len() as int));
            }
            return Some((pre, rest));
        }
        k = k + 1;
    }
    None
}

fn char_in(set: &Vec<char>, c: char) -> (r: bool)
    ensures
        r == set@.contains(c),
{
    let mut i: usize = 0;
    while i < set.len()
        invariant
            i <= set@.len(),
            forall|j: int| 0 <= j < i ==> set@[j] != c,
        decreases set@.len() - i,
    {
        if set[i] == c {
            return true;
        }
        i = i + 1;
    }
    false
}

/// Returns `Some(true)` if `target` begins and ends with the same character
/// and that character is in `delimits`; `None` if `target` has fewer than
/// two characters.
pub fn is_surrounded_by(target: &str, delimits: &Vec<char>) -> (r: Option<bool>)
    ensures
        ({
            let t = target@;
            if t.len() < 2 {
                r is None
            } else {
                r == Some(
                    t[0] == t[t.len() - 1] && delimits@.contains(t[0]) && delimits@.contains(
                        t[t.len() - 1],
                    ),
                )
            }
        }),
{
    let n = target.unicode_len();
    if n < 2 {
        return None;
    }
    let left = target.get_char(0);
    let right = target.get_char(n - 1);
    Some(left == right && char_in(delimits, left) && char_in(delimits, right))
}

/// Strips one matching pair of surrounding delimiters off `input`, or
/// returns `input` unchanged if it is not surrounded by a pair from
/// `delimits`.
pub fn strip_delimits<'a>(input: &'a str, delimits: &Vec<char>) -> (r: &'a str)
    ensures
        ({
            let t = input@;
            if t.len() >= 2 && t[0] == t[t.len() - 1] && delimits@.contains(t[0]) {
                r@ == t.subrange(1, t.len() - 1)
            } else {
                r@ == t
            }
        }),
{
    let n = input.unicode_len();
    match is_surrounded_by(input, delimits) {
        Some(true) => input.substring_char(1, n - 1),
        _ => input,
    }
}

} // verus!
