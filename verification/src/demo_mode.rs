//! The decision logic of the `mizan-demo-mode` command: which tier the
//! arguments ask for, and what the command then prints.
use vstd::prelude::*;

use crate::text::{chars_of, from_chars, str_eq};

verus! {

/// The flag that selects a tier.
pub open spec fn tier_flag() -> Seq<char> {
    "--tier="@
}

/// The value of the first argument that starts with `--tier=`, if any.
pub open spec fn tier_of(args: Seq<Seq<char>>) -> Option<Seq<char>>
    decreases args.len(),
{
    if args.len() == 0 {
        None
    } else if tier_flag().is_prefix_of(args[0]) {
        Some(args[0].subrange(tier_flag().len() as int, args[0].len() as int))
    } else {
        tier_of(args.drop_first())
    }
}

pub open spec fn args_view(args: &[String]) -> Seq<Seq<char>> {
    args@.map_values(|a: String| a@)
}

/// `s` with `prefix` removed, or `None` when `s` does not start with it.
fn strip_prefix(s: &str, prefix: &str) -> (r: Option<String>)
    ensures
        match r {
            Some(rest) => prefix@.is_prefix_of(s@) && rest@ == s@.subrange(
                prefix@.len() as int,
                s@.len() as int,
            ),
            None => !prefix@.is_prefix_of(s@),
        },
{
    let cs = chars_of(s);
    let cp = chars_of(prefix);
    if cp.len() > cs.len() {
        return None;
    }
    let mut i: usize = 0;
    while i < cp.len()
        invariant
            cs@ == s@,
            cp@ == prefix@,
            cp.len() <= cs.len(),
            i <= cp.len(),
            forall|k: int| 0 <= k < i ==> cs@[k] == cp@[k],
        decreases cp.len() - i,
    {
        if cs[i] != cp[i] {
            return None;
        }
        i = i + 1;
    }
    let mut rest: Vec<char> = Vec::new();
    let mut j: usize = cp.len();
    while j < cs.len()
        invariant
            cs@ == s@,
            cp.len() <= j <= cs.len(),
            rest@ == s@.subrange(cp.len() as int, j as int),
        decreases cs.len() - j,
    {
        rest.push(cs[j]);
        assert(s@.subrange(cp.len() as int, j + 1) == s@.subrange(cp.len() as int, j as int).push(
            cs@[j as int],
        ));
        j = j + 1;
    }
    Some(from_chars(&rest))
}

/// The tier named by the first `--tier=` argument; `None` when no argument
/// names one (a bare invocation, which enables Gold).
pub fn parse_tier(args: &[String]) -> (r: Option<String>)
    ensures
        match r {
            Some(t) => tier_of(args_view(args)) == Some(t@),
            None => tier_of(args_view(args)) is None,
        },
{
    let mut i: usize = 0;
    assert(args_view(args).subrange(0, args@.len() as int) == args_view(args));
    while i < args.len()
        invariant
            i <= args.len(),
            tier_of(args_view(args)) == tier_of(args_view(args).subrange(i as int, args@.len() as int)),
        decreases args.len() - i,
    {
        let ghost rest = args_view(args).subrange(i as int, args@.len() as int);
        assert(rest[0] == args@[i as int]@);
        assert(rest.drop_first() == args_view(args).subrange(i + 1, args@.len() as int));
        match strip_prefix(args[i].as_str(), "--tier=") {
            Some(v) => {
                return Some(v);
            },
            None => {},
        }
        i = i + 1;
    }
    None
}

/// What the command does for a requested tier.
#[derive(Debug, Clone, Copy, PartialEq, Eq)]
pub enum DemoAction {
    /// Print the lines that unlock Gold for this shell.
    Enable,
    /// Print the lines that remove the override.
    Disable,
    /// Refuse the tier and exit with status 2.
    Unsupported,
}

/// `gold` or no tier enables; `off` or `free` disables; anything else is
/// refused.
pub open spec fn action_of(tier: Option<Seq<char>>) -> DemoAction {
    match tier {
        None => DemoAction::Enable,
        Some(t) => if t == "gold"@ {
            DemoAction::Enable
        } else if t == "off"@ || t == "free"@ {
            DemoAction::Disable
        } else {
            DemoAction::Unsupported
        },
    }
}

pub fn action_for(tier: Option<&str>) -> (r: DemoAction)
    ensures
        r == action_of(match tier {
            Some(t) => Some(t@),
            None => None,
        }),
{
    match tier {
        None => DemoAction::Enable,
        Some(t) => if str_eq(t, "gold") {
            DemoAction::Enable
        } else if str_eq(t, "off") || str_eq(t, "free") {
            DemoAction::Disable
        } else {
            DemoAction::Unsupported
        },
    }
}

} // verus!
