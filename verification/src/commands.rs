//! Command registry: the `:` command line's option list is derived
//! from this table — one source of truth.
use crate::text::{contains, has_sub, lower_chars, lowercase, starts, starts_with};
use vstd::prelude::*;

verus! {

/// A `:` command.
#[derive(Debug, Clone, Copy)]
pub struct Command {
    pub name: &'static str,
    pub summary: &'static str,
}

/// The registry, in display order.
pub open spec fn spec_commands() -> Seq<Command> {
    seq![
        Command { name: "settings", summary: "open the settings popup" },
        Command { name: "clone", summary: "clone the selected repos (VISUAL marks)" },
    ]
}

/// Every `:` command.
pub fn commands() -> (v: Vec<Command>)
    ensures
        v@ == spec_commands(),
{
    let v = vec![
        Command { name: "settings", summary: "open the settings popup" },
        Command { name: "clone", summary: "clone the selected repos (VISUAL marks)" },
    ];
    assert(v@ =~= spec_commands());
    v
}

/// A name the lowercased needle starts (an empty needle starts all).
pub open spec fn prefix_hit(needle: Seq<char>) -> spec_fn(Command) -> bool {
    |c: Command| needle.len() == 0 || starts(lowercase(c.name@), needle)
}

/// A name containing the needle somewhere other than at its start.
pub open spec fn substring_hit(needle: Seq<char>) -> spec_fn(Command) -> bool {
    |c: Command| !(needle.len() == 0 || starts(lowercase(c.name@), needle)) && has_sub(
        lowercase(c.name@),
        needle,
    )
}

/// The command-line order: prefix matches first, then substring
/// matches, each in registry order.
pub open spec fn spec_filter(cmds: Seq<Command>, needle: Seq<char>) -> Seq<Command> {
    cmds.filter(prefix_hit(needle)) + cmds.filter(substring_hit(needle))
}

/// Commands whose name contains `needle`, case-insensitively: prefix
/// matches first, then substring matches.
pub fn filter(needle: &str) -> (r: Vec<Command>)
    ensures
        r@ == spec_filter(spec_commands(), lowercase(needle@)),
{
    let needle = lower_chars(needle);
    let cmds = commands();
    let mut prefix: Vec<Command> = Vec::new();
    let mut substr: Vec<Command> = Vec::new();
    let mut i: usize = 0;
    while i < cmds.len()
        invariant
            i <= cmds@.len(),
            cmds@ == spec_commands(),
            prefix@ == cmds@.take(i as int).filter(prefix_hit(needle@)),
            substr@ == cmds@.take(i as int).filter(substring_hit(needle@)),
        decreases cmds.len() - i,
    {
        let cmd = cmds[i];
        let name = lower_chars(cmd.name);
        proof {
            reveal(Seq::filter);
            assert(cmds@.take(i + 1).drop_last() =~= cmds@.take(i as int));
        }
        if needle.len() == 0 || starts_with(name.as_slice(), needle.as_slice()) {
            prefix.push(cmd);
        } else if contains(name.as_slice(), needle.as_slice()) {
            substr.push(cmd);
        }
        i += 1;
    }
    assert(cmds@.take(cmds@.len() as int) =~= cmds@);
    let mut out = prefix;
    let mut j: usize = 0;
    while j < substr.len()
        invariant
            j <= substr@.len(),
            out@ == prefix@ + substr@.take(j as int),
        decreases substr.len() - j,
    {
        out.push(substr[j]);
        j += 1;
        assert(out@ =~= prefix@ + substr@.take(j as int));
    }
    assert(substr@.take(substr@.len() as int) =~= substr@);
    out
}

proof fn lemma_empty_prefix_keeps_all(cmds: Seq<Command>)
    ensures
        cmds.filter(prefix_hit(Seq::<char>::empty())) == cmds,
    decreases cmds.len(),
{
    reveal(Seq::filter);
    if cmds.len() > 0 {
        lemma_empty_prefix_keeps_all(cmds.drop_last());
        assert(cmds.drop_last().push(cmds.last()) =~= cmds);
    }
}

proof fn lemma_empty_substring_keeps_none(cmds: Seq<Command>)
    ensures
        cmds.filter(substring_hit(Seq::<char>::empty())) == Seq::<Command>::empty(),
    decreases cmds.len(),
{
    reveal(Seq::filter);
    if cmds.len() > 0 {
        lemma_empty_substring_keeps_none(cmds.drop_last());
    }
}

/// An empty needle lists every command, in registry order.
pub proof fn lemma_empty_needle_lists_all(cmds: Seq<Command>)
    ensures
        spec_filter(cmds, Seq::<char>::empty()) == cmds,
{
    lemma_empty_prefix_keeps_all(cmds);
    lemma_empty_substring_keeps_none(cmds);
    assert(spec_filter(cmds, Seq::<char>::empty()) =~= cmds);
}

} // verus!
