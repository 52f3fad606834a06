//! Usage-help text generation for command trees.

use crate::builder::{has_kind, ArgDesc, BaseCommand, CommandFunction, CommandOption};
use crate::function::{Function, FunctionKind};
use crate::numbers::{all_digits, digit_val, digits_value, is_ascii_digit};
use vstd::prelude::*;
use vstd::string::StrSliceExecFns;
use vstd::string::StringExecFns;

verus! {

/// `n` space characters.
pub open spec fn spaces(n: nat) -> Seq<char>
    decreases n,
{
    if n == 0 {
        Seq::empty()
    } else {
        spaces((n - 1) as nat).push(' ')
    }
}

/// `n` tab characters.
pub open spec fn tabs(n: nat) -> Seq<char>
    decreases n,
{
    if n == 0 {
        Seq::empty()
    } else {
        tabs((n - 1) as nat).push('\t')
    }
}

/// `s` left-aligned in a field of sixteen characters: shorter text is
/// padded with spaces, longer text is kept whole.
pub open spec fn pad16(s: Seq<char>) -> Seq<char> {
    if s.len() >= 16 {
        s
    } else {
        s + spaces((16 - s.len()) as nat)
    }
}

fn append_spaces(out: &mut String, n: usize)
    ensures
        final(out)@ == old(out)@ + spaces(n as nat),
{
    let ghost start = out@;
    let mut i: usize = 0;
    proof {
        assert(start + spaces(0) =~= start);
        reveal_strlit(" ");
    }
    while i < n
        invariant
            i <= n,
            out@ == start + spaces(i as nat),
        decreases n - i,
    {
        out.append(" ");
        proof {
            reveal_strlit(" ");
            assert((start + spaces(i as nat)) + " "@ =~= start + spaces((i + 1) as nat));
        }
        i = i + 1;
    }
}

fn append_tabs(out: &mut String, n: usize)
    ensures
        final(out)@ == old(out)@ + tabs(n as nat),
{
    let ghost start = out@;
    let mut i: usize = 0;
    proof {
        assert(start + tabs(0) =~= start);
    }
    while i < n
        invariant
            i <= n,
            out@ == start + tabs(i as nat),
        decreases n - i,
    {
        out.append("\t");
        proof {
            reveal_strlit("\t");
            assert((start + tabs(i as nat)) + "\t"@ =~= start + tabs((i + 1) as nat));
        }
        i = i + 1;
    }
}

fn append_padded(out: &mut String, s: &str)
    ensures
        final(out)@ == old(out)@ + pad16(s@),
{
    let ghost start = out@;
    out.append(s);
    let n = s.unicode_len();
    if n < 16 {
        append_spaces(out, 16 - n);
        proof {
            assert((start + s@) + spaces((16 - s@.len()) as nat) =~= start + pad16(s@));
        }
    }
}

fn digit_str(d: u64) -> (r: &'static str)
    requires
        d < 10,
    ensures
        r@.len() == 1,
        is_ascii_digit(r@[0]),
        digit_val(r@[0]) == d,
{
    proof {
        reveal_strlit("0");
        reveal_strlit("1");
        reveal_strlit("2");
        reveal_strlit("3");
        reveal_strlit("4");
        reveal_strlit("5");
        reveal_strlit("6");
        reveal_strlit("7");
        reveal_strlit("8");
        reveal_strlit("9");
    }
    if d == 0 {
        "0"
    } else if d == 1 {
        "1"
    } else if d == 2 {
        "2"
    } else if d == 3 {
        "3"
    } else if d == 4 {
        "4"
    } else if d == 5 {
        "5"
    } else if d == 6 {
        "6"
    } else if d == 7 {
        "7"
    } else if d == 8 {
        "8"
    } else {
        "9"
    }
}

/// Writes `v` in decimal: nonempty, digits only, no leading zero, and
/// reading the digits back gives `v`.
pub fn u64_to_string(v: u64) -> (r: String)
    ensures
        r@.len() >= 1,
        all_digits(r@),
        digits_value(r@) == v,
        v > 0 ==> r@[0] != '0',
    decreases v,
{
    if v < 10 {
        let d = digit_str(v);
        let r = String::from_str(d);
        proof {
            assert(r@.drop_last() =~= Seq::<char>::empty());
            assert(r@.last() == r@[0]);
            assert(digits_value(Seq::<char>::empty()) == 0);
            assert(digits_value(r@) == digits_value(r@.drop_last()) * 10 + digit_val(r@.last()));
            if v > 0 {
                assert(digit_val(r@[0]) == v);
                assert(r@[0] != '0');
            }
        }
        r
    } else {
        let q = v / 10;
        let d = v % 10;
        let mut r = u64_to_string(q);
        let ghost prefix = r@;
        let ds = digit_str(d);
        r.append(ds);
        proof {
            assert(r@.drop_last() =~= prefix);
            assert(r@.last() == ds@[0]);
            assert(digits_value(r@) == digits_value(prefix) * 10 + digit_val(ds@[0]));
            assert(q * 10 + d == v) by (nonlinear_arith)
                requires
                    q == v / 10,
                    d == v % 10,
            ;
            assert forall|i: int| 0 <= i < r@.len() implies is_ascii_digit(r@[i]) by {
                if i < r@.len() - 1 {
                    assert(r@[i] == prefix[i]);
                } else {
                    assert(r@[i] == ds@[0]);
                }
            }
            assert(r@[0] == prefix[0]);
        }
        r
    }
}

/// The help line of one declared argument: its name in `<>` when required
/// and `[]` when optional, padded, then its description.
pub open spec fn spec_arg_help(a: ArgDesc) -> Seq<char> {
    let bracketed = if a.required {
        "<"@ + a.name@ + ">"@
    } else {
        "["@ + a.name@ + "]"@
    };
    pad16(bracketed) + " "@ + a.description@
}

/// The help text of a command node at the given indent depth: its padded
/// name and description, then each option on its own further-indented
/// line.
pub open spec fn spec_cmd_help(c: CommandFunction, indent: nat) -> Seq<char>
    decreases c, 1int,
    via spec_cmd_help_decreases
{
    pad16(c.name@) + " "@ + c.description@ + spec_opts_help(c.options@, indent)
}

/// The option lines of a node at the given indent depth.
pub open spec fn spec_opts_help(opts: Seq<CommandOption>, indent: nat) -> Seq<char>
    decreases opts, 1int,
    via spec_opts_help_decreases
{
    if opts.len() == 0 {
        Seq::empty()
    } else {
        "\n"@ + tabs(indent + 1) + spec_opt_help(opts[0], indent + 1) + spec_opts_help(
            opts.skip(1),
            indent,
        )
    }
}

/// The help text of one option at the given indent depth.
pub open spec fn spec_opt_help(opt: CommandOption, indent: nat) -> Seq<char>
    decreases opt, 2int,
    via spec_opt_help_decreases
{
    match opt {
        CommandOption::Arg(a) => spec_arg_help(a),
        CommandOption::Sub(s) => spec_cmd_help(s, indent),
        CommandOption::Group(g) => pad16(g.name@) + " "@ + g.description@ + spec_group_subs_help(
            g.subs@,
            indent,
        ),
    }
}

/// The subcommand lines of a group at the given indent depth.
pub open spec fn spec_group_subs_help(subs: Seq<CommandFunction>, indent: nat) -> Seq<char>
    decreases subs, 1int,
    via spec_group_subs_help_decreases
{
    if subs.len() == 0 {
        Seq::empty()
    } else {
        "\n"@ + tabs(indent + 1) + spec_cmd_help(subs[0], indent + 1) + spec_group_subs_help(
            subs.skip(1),
            indent,
        )
    }
}

fn arg_help_into(out: &mut String, a: &ArgDesc)
    ensures
        final(out)@ == old(out)@ + spec_arg_help(*a),
{
    let ghost start = out@;
    let mut bracketed = if a.required {
        String::from_str("<")
    } else {
        String::from_str("[")
    };
    bracketed.append(a.name.as_str());
    bracketed.append(if a.required {
        ">"
    } else {
        "]"
    });
    proof {
        reveal_strlit("<");
        reveal_strlit(">");
        reveal_strlit("[");
        reveal_strlit("]");
        reveal_strlit(" ");
    }
    append_padded(out, bracketed.as_str());
    out.append(" ");
    out.append(a.description.as_str());
    proof {
        assert(out@ =~= start + spec_arg_help(*a));
    }
}

fn cmd_help_into(out: &mut String, c: &CommandFunction, pre: &String, Ghost(indent): Ghost<nat>)
    requires
        pre@ == tabs(indent),
    ensures
        final(out)@ == old(out)@ + spec_cmd_help(*c, indent),
    decreases *c, 0int,
{
    let ghost start = out@;
    append_padded(out, c.name.as_str());
    out.append(" ");
    out.append(c.description.as_str());
    proof {
        reveal_strlit(" ");
        assert(decreases_to!(*c => c.options));
        assert(decreases_to!(c.options => c.options@));
        assert(decreases_to!(*c => c.options@));
        assert(c.options@.skip(0) =~= c.options@);
    }
    opts_help_into(out, &c.options, 0, pre, Ghost(indent));
    proof {
        assert(out@ =~= start + spec_cmd_help(*c, indent));
    }
}

fn opts_help_into(
    out: &mut String,
    opts: &Vec<CommandOption>,
    k: usize,
    pre: &String,
    Ghost(indent): Ghost<nat>,
)
    requires
        k <= opts@.len(),
        pre@ == tabs(indent),
    ensures
        final(out)@ == old(out)@ + spec_opts_help(opts@.skip(k as int), indent),
    decreases opts@, opts@.len() - k,
{
    if k == opts.len() {
        proof {
            assert(opts@.skip(k as int) =~= Seq::<CommandOption>::empty());
            assert(old(out)@ + Seq::<char>::empty() =~= old(out)@);
        }
        return ;
    }
    proof {
        assert(opts@.skip(k as int)[0] == opts@[k as int]);
        assert(opts@.skip(k as int).skip(1) =~= opts@.skip(k as int + 1));
    }
    let ghost start = out@;
    out.append("\n");
    out.append(pre.as_str());
    out.append("\t");
    let mut deeper = pre.clone();
    deeper.append("\t");
    let ghost mid = out@;
    proof {
        reveal_strlit("\n");
        reveal_strlit("\t");
        assert(tabs(indent).push('\t') =~= tabs(indent) + "\t"@);
        assert(deeper@ == tabs(indent + 1));
        assert(mid =~= start + ("\n"@ + tabs(indent + 1)));
    }
    match &opts[k] {
        CommandOption::Arg(a) => {
            arg_help_into(out, a);
            proof {
                assert(out@ =~= mid + spec_opt_help(opts@[k as int], indent + 1));
            }
        },
        CommandOption::Sub(s) => {
            proof {
                assert(decreases_to!(opts@ => opts@[k as int]));
                assert(decreases_to!(opts@[k as int] => *s));
                assert(decreases_to!(opts@ => *s));
            }
            cmd_help_into(out, s, &deeper, Ghost(indent + 1));
            proof {
                assert(out@ =~= mid + spec_opt_help(opts@[k as int], indent + 1));
            }
        },
        CommandOption::Group(g) => {
            let ghost gstart = out@;
            append_padded(out, g.name.as_str());
            out.append(" ");
            out.append(g.description.as_str());
            proof {
                reveal_strlit(" ");
                assert(decreases_to!(opts@ => opts@[k as int]));
                assert(decreases_to!(opts@[k as int] => *g));
                assert(decreases_to!(*g => g.subs));
                assert(decreases_to!(g.subs => g.subs@));
                assert(decreases_to!(opts@ => g.subs@));
                assert(g.subs@.skip(0) =~= g.subs@);
            }
            group_subs_help_into(out, &g.subs, 0, &deeper, Ghost(indent + 1));
            proof {
                assert(out@ =~= gstart + spec_opt_help(opts@[k as int], indent + 1));
                assert(out@ =~= mid + spec_opt_help(opts@[k as int], indent + 1));
            }
        },
    }
    let ghost before_rest = out@;
    opts_help_into(out, opts, k + 1, pre, Ghost(indent));
    proof {
        assert(before_rest == mid + spec_opt_help(opts@[k as int], indent + 1));
        assert(out@ =~= start + ("\n"@ + tabs(indent + 1) + spec_opt_help(
            opts@[k as int],
            indent + 1,
        ) + spec_opts_help(opts@.skip(k as int + 1), indent)));
        assert(out@ =~= start + spec_opts_help(opts@.skip(k as int), indent));
    }
}

fn group_subs_help_into(
    out: &mut String,
    subs: &Vec<CommandFunction>,
    k: usize,
    pre: &String,
    Ghost(indent): Ghost<nat>,
)
    requires
        k <= subs@.len(),
        pre@ == tabs(indent),
    ensures
        final(out)@ == old(out)@ + spec_group_subs_help(subs@.skip(k as int), indent),
    decreases subs@, subs@.len() - k,
{
    if k == subs.len() {
        proof {
            assert(subs@.skip(k as int) =~= Seq::<CommandFunction>::empty());
            assert(old(out)@ + Seq::<char>::empty() =~= old(out)@);
        }
        return ;
    }
    proof {
        assert(subs@.skip(k as int)[0] == subs@[k as int]);
        assert(subs@.skip(k as int).skip(1) =~= subs@.skip(k as int + 1));
    }
    let ghost start = out@;
    out.append("\n");
    out.append(pre.as_str());
    out.append("\t");
    let mut deeper = pre.clone();
    deeper.append("\t");
    proof {
        reveal_strlit("\n");
        reveal_strlit("\t");
        assert(tabs(indent).push('\t') =~= tabs(indent) + "\t"@);
        assert(deeper@ == tabs(indent + 1));
        assert(decreases_to!(subs@ => subs@[k as int]));
    }
    cmd_help_into(out, &subs[k], &deeper, Ghost(indent + 1));
    group_subs_help_into(out, subs, k + 1, pre, Ghost(indent));
    proof {
        assert(out@ =~= start + spec_group_subs_help(subs@.skip(k as int), indent));
    }
}

/// The parts joined with `, `.
pub open spec fn comma_join(parts: Seq<Seq<char>>) -> Seq<char>
    decreases parts.len(),
{
    if parts.len() == 0 {
        Seq::empty()
    } else if parts.len() == 1 {
        parts[0]
    } else {
        parts[0] + ", "@ + comma_join(parts.skip(1))
    }
}

/// The names of the invocation kinds served by `fs`, in the fixed order
/// classic, slash, message, user.
pub open spec fn spec_types_list(fs: Seq<Function>) -> Seq<Seq<char>> {
    (if has_kind(fs, FunctionKind::Classic) {
        seq!["Classic"@]
    } else {
        Seq::empty()
    }) + (if has_kind(fs, FunctionKind::Slash) {
        seq!["Slash"@]
    } else {
        Seq::empty()
    }) + (if has_kind(fs, FunctionKind::Message) {
        seq!["Message"@]
    } else {
        Seq::empty()
    }) + (if has_kind(fs, FunctionKind::User) {
        seq!["User"@]
    } else {
        Seq::empty()
    })
}

/// The sequences behind a sequence of string slices.
pub open spec fn strs_view(s: Seq<&str>) -> Seq<Seq<char>> {
    Seq::new(s.len(), |i: int| s[i]@)
}

fn append_joined(out: &mut String, parts: &Vec<&str>, k: usize)
    requires
        k <= parts@.len(),
    ensures
        final(out)@ == old(out)@ + comma_join(strs_view(parts@).skip(k as int)),
    decreases parts@.len() - k,
{
    let ghost v = strs_view(parts@);
    if k == parts.len() {
        proof {
            assert(v.skip(k as int) =~= Seq::<Seq<char>>::empty());
            assert(old(out)@ + Seq::<char>::empty() =~= old(out)@);
        }
        return ;
    }
    let ghost start = out@;
    out.append(parts[k]);
    proof {
        assert(v.skip(k as int)[0] == v[k as int]);
        assert(v.skip(k as int).skip(1) =~= v.skip(k as int + 1));
    }
    if k + 1 < parts.len() {
        out.append(", ");
        append_joined(out, parts, k + 1);
        proof {
            reveal_strlit(", ");
            assert(out@ =~= start + (v[k as int] + ", "@ + comma_join(v.skip(k as int + 1))));
            assert(out@ =~= start + comma_join(v.skip(k as int)));
        }
    } else {
        proof {
            assert(v.skip(k as int).len() == 1);
            assert(out@ =~= start + comma_join(v.skip(k as int)));
        }
    }
}

/// Whether `p` renders the permission set `mp` as the help text shows it:
/// `None` admits anyone; an empty or administrator-bit set is shown as
/// administrator-only; any other set is shown as its decimal bit value.
pub open spec fn perms_text_ok(mp: Option<u64>, p: Seq<char>) -> bool {
    match mp {
        None => p == "None"@,
        Some(v) => if v == 0 || v & 0x8 != 0 {
            p == "Administrator"@
        } else {
            p.len() >= 1 && all_digits(p) && digits_value(p) == v && p[0] != '0'
        },
    }
}

fn perms_string(mp: Option<u64>) -> (r: String)
    ensures
        perms_text_ok(mp, r@),
{
    proof {
        reveal_strlit("None");
        reveal_strlit("Administrator");
    }
    match mp {
        None => String::from_str("None"),
        Some(v) => {
            if v == 0 || v & 0x8 != 0 {
                String::from_str("Administrator")
            } else {
                u64_to_string(v)
            }
        },
    }
}

/// The usage help of a whole top-level command, given the rendering of its
/// permission set: a fenced block holding the tree's per-node lines, the
/// extra help (set off by a blank line when present), and the permission,
/// direct-message and invocation-kind summary.
pub open spec fn spec_base_help(b: BaseCommand, perms: Seq<char>) -> Seq<char> {
    "```yaml\n"@ + spec_cmd_help(b.command, 0) + "\n"@ + (if b.help@.len() == 0 {
        Seq::empty()
    } else {
        "\n"@ + b.help@
    }) + "\nPermissions required: "@ + perms + "\nEnabled in DMs: "@ + (if b.dm_enabled {
        "Yes"@
    } else {
        "No"@
    }) + "\nTypes: "@ + comma_join(spec_types_list(b.command.functions@)) + "\n```"@
}

impl BaseCommand {
    /// Generates the usage help text of this command.
    pub fn generate_help(&self) -> (r: String)
        ensures
            exists|p: Seq<char>|
                perms_text_ok(self.member_permissions, p) && r@ == spec_base_help(*self, p),
    {
        let mut out = String::from_str("```yaml\n");
        let pre = String::new();
        proof {
            assert(pre@ =~= tabs(0));
        }
        cmd_help_into(&mut out, &self.command, &pre, Ghost(0nat));
        out.append("\n");
        if !self.help.as_str().is_empty() {
            out.append("\n");
            out.append(self.help.as_str());
        }
        out.append("\nPermissions required: ");
        let perms = perms_string(self.member_permissions);
        out.append(perms.as_str());
        out.append("\nEnabled in DMs: ");
        out.append(if self.dm_enabled {
            "Yes"
        } else {
            "No"
        });
        out.append("\nTypes: ");
        let mut parts: Vec<&str> = Vec::new();
        if self.command.has_classic() {
            parts.push("Classic");
        }
        if self.command.has_slash() {
            parts.push("Slash");
        }
        if self.command.has_message() {
            parts.push("Message");
        }
        if self.command.has_user() {
            parts.push("User");
        }
        proof {
            reveal_strlit("Classic");
            reveal_strlit("Slash");
            reveal_strlit("Message");
            reveal_strlit("User");
            assert(strs_view(parts@) =~= spec_types_list(self.command.functions@));
            assert(strs_view(parts@).skip(0) =~= strs_view(parts@));
        }
        append_joined(&mut out, &parts, 0);
        out.append("\n```");
        proof {
            reveal_strlit("```yaml\n");
            reveal_strlit("\n");
            reveal_strlit("\nPermissions required: ");
            reveal_strlit("\nEnabled in DMs: ");
            reveal_strlit("Yes");
            reveal_strlit("No");
            reveal_strlit("\nTypes: ");
            reveal_strlit("\n```");
            assert(out@ =~= spec_base_help(*self, perms@));
        }
        out
    }
}

#[via_fn]
proof fn spec_cmd_help_decreases(c: CommandFunction, indent: nat) {
    assert(decreases_to!(c => c.options));
    assert(decreases_to!(c.options => c.options@));
    assert(decreases_to!(c => c.options@));
}

#[via_fn]
proof fn spec_opts_help_decreases(opts: Seq<CommandOption>, indent: nat) {
    if opts.len() > 0 {
        assert(decreases_to!(opts => opts[0]));
    }
}

#[via_fn]
proof fn spec_opt_help_decreases(opt: CommandOption, indent: nat) {
    match opt {
        CommandOption::Arg(_) => {},
        CommandOption::Sub(s) => {
            assert(decreases_to!(opt => s));
        },
        CommandOption::Group(g) => {
            assert(decreases_to!(opt => g));
            assert(decreases_to!(g => g.subs));
            assert(decreases_to!(g.subs => g.subs@));
            assert(decreases_to!(opt => g.subs@));
        },
    }
}

#[via_fn]
proof fn spec_group_subs_help_decreases(subs: Seq<CommandFunction>, indent: nat) {
    if subs.len() > 0 {
        assert(decreases_to!(subs => subs[0]));
    }
}

} // verus!
