//! Parsing of the platform's inline mention syntax.
//!
//! A mention references an entity by identifier within free text: a channel
//! as `<#id>`, a user as `<@id>` or `<@!id>`, and a role as `<@&id>`, where
//! `id` is a nonzero decimal identifier.

use crate::numbers::{all_digits, is_ascii_digit, parse_u64, spec_parse_u64};
use vstd::prelude::*;
use vstd::string::StrSliceExecFns;

verus! {

/// The identifier a digit sequence denotes, when it is a well-formed
/// nonzero identifier (as `str::parse` reads it, without a sign).
pub open spec fn spec_id_digits(s: Seq<char>) -> Option<u64> {
    if s.len() > 0 && all_digits(s) {
        match spec_parse_u64(s) {
            Some(v) => if v != 0 {
                Some(v)
            } else {
                None
            },
            None => None,
        }
    } else {
        None
    }
}

/// The identifier of a mention `s` written as `<`, the sigil `sigil`, a
/// nonzero decimal identifier, and `>`.
pub open spec fn spec_mention_with_sigil(s: Seq<char>, sigil: Seq<char>) -> Option<u64> {
    if s.len() >= 3 + sigil.len() && s[0] == '<' && s[s.len() - 1] == '>' && s.subrange(
        1,
        1 + sigil.len() as int,
    ) == sigil {
        spec_id_digits(s.subrange(1 + sigil.len() as int, s.len() - 1))
    } else {
        None
    }
}

/// The identifier of a channel mention `<#id>`.
pub open spec fn spec_channel_mention(s: Seq<char>) -> Option<u64> {
    spec_mention_with_sigil(s, seq!['#'])
}

/// The identifier of a user mention `<@id>` or `<@!id>`.
pub open spec fn spec_user_mention(s: Seq<char>) -> Option<u64> {
    if spec_mention_with_sigil(s, seq!['@', '!']) is Some {
        spec_mention_with_sigil(s, seq!['@', '!'])
    } else {
        spec_mention_with_sigil(s, seq!['@'])
    }
}

/// The identifier of a role mention `<@&id>`.
pub open spec fn spec_role_mention(s: Seq<char>) -> Option<u64> {
    spec_mention_with_sigil(s, seq!['@', '&'])
}

fn id_digits(s: &str) -> (r: Option<u64>)
    ensures
        r == spec_id_digits(s@),
{
    let n = s.unicode_len();
    let mut i: usize = 0;
    while i < n
        invariant
            i <= n,
            n == s@.len(),
            forall|j: int| 0 <= j < i ==> is_ascii_digit(s@[j]),
        decreases n - i,
    {
        let u: u32 = s.get_char(i) as u32;
        if u < 0x30 || u > 0x39 {
            return None;
        }
        i = i + 1;
    }
    if n == 0 {
        return None;
    }
    match parse_u64(s) {
        Some(v) => if v != 0 {
            Some(v)
        } else {
            None
        },
        None => None,
    }
}

fn mention_with_sigil(s: &str, sigil: &str) -> (r: Option<u64>)
    ensures
        r == spec_mention_with_sigil(s@, sigil@),
{
    let n = s.unicode_len();
    let k = sigil.unicode_len();
    if n < k || n - k < 3 {
        return None;
    }
    if s.get_char(0) != '<' {
        return None;
    }
    if s.get_char(n - 1) != '>' {
        return None;
    }
    let mut i: usize = 0;
    while i < k
        invariant
            i <= k,
            k == sigil@.len(),
            n == s@.len(),
            n >= 3 + k,
            forall|j: int| 0 <= j < i ==> s@[1 + j] == sigil@[j],
        decreases k - i,
    {
        if s.get_char(1 + i) != sigil.get_char(i) {
            proof {
                assert(s@.subrange(1, 1 + k as int)[i as int] != sigil@[i as int]);
            }
            return None;
        }
        i = i + 1;
    }
    proof {
        assert(s@.subrange(1, 1 + k as int) =~= sigil@);
    }
    id_digits(s.substring_char(1 + k, n - 1))
}

/// Parses a channel mention `<#id>` to its identifier.
pub fn parse_channel_mention(s: &str) -> (r: Option<u64>)
    ensures
        r == spec_channel_mention(s@),
{
    proof {
        reveal_strlit("#");
        assert("#"@ =~= seq!['#']);
    }
    mention_with_sigil(s, "#")
}

/// Parses a user mention `<@id>` or `<@!id>` to its identifier.
pub fn parse_user_mention(s: &str) -> (r: Option<u64>)
    ensures
        r == spec_user_mention(s@),
{
    proof {
        reveal_strlit("@!");
        reveal_strlit("@");
        assert("@!"@ =~= seq!['@', '!']);
        assert("@"@ =~= seq!['@']);
    }
    match mention_with_sigil(s, "@!") {
        Some(v) => Some(v),
        None => mention_with_sigil(s, "@"),
    }
}

/// Parses a role mention `<@&id>` to its identifier.
pub fn parse_role_mention(s: &str) -> (r: Option<u64>)
    ensures
        r == spec_role_mention(s@),
{
    proof {
        reveal_strlit("@&");
        assert("@&"@ =~= seq!['@', '&']);
    }
    mention_with_sigil(s, "@&")
}

} // verus!
