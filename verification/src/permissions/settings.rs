//! The allow and deny lists of `settings.toml`, and how the user-level and
//! project-level files combine.
use vstd::prelude::*;

use crate::text::{chars_of, same};

verus! {

/// Command rules that skip the prompt (`always_allow`) or block a command
/// outright (`always_deny`).
#[derive(Debug, Clone, PartialEq)]
pub struct PermissionSettings {
    pub always_allow: Vec<String>,
    pub always_deny: Vec<String>,
}

impl PermissionSettings {
    /// No rule at all.
    pub fn empty() -> (r: PermissionSettings)
        ensures
            r.always_allow@.len() == 0,
            r.always_deny@.len() == 0,
    {
        PermissionSettings { always_allow: Vec::new(), always_deny: Vec::new() }
    }
}

/// The contents of one `settings.toml`.
#[derive(Debug, Clone, PartialEq)]
pub struct SettingsFile {
    pub permissions: PermissionSettings,
}

/// The character sequences of a list of rules.
pub open spec fn rules_view(v: Seq<String>) -> Seq<Seq<char>> {
    v.map_values(|s: String| s@)
}

/// `base` followed by each rule of `extra` that is not already present.
pub open spec fn union_rules(base: Seq<Seq<char>>, extra: Seq<Seq<char>>) -> Seq<Seq<char>>
    decreases extra.len(),
{
    if extra.len() == 0 {
        base
    } else {
        let acc = union_rules(base, extra.drop_last());
        if acc.contains(extra.last()) {
            acc
        } else {
            acc.push(extra.last())
        }
    }
}

fn contains_rule(v: &Vec<String>, rule: &String) -> (r: bool)
    ensures
        r == rules_view(v@).contains(rule@),
{
    let target = chars_of(rule.as_str());
    let mut i: usize = 0;
    while i < v.len()
        invariant
            i <= v@.len(),
            target@ == rule@,
            forall|j: int| 0 <= j < i ==> (#[trigger] rules_view(v@)[j]) != rule@,
        decreases v@.len() - i,
    {
        if same(chars_of(v[i].as_str()).as_slice(), target.as_slice()) {
            assert(rules_view(v@)[i as int] == rule@);
            return true;
        }
        i = i + 1;
    }
    false
}

fn union_into(base: Vec<String>, extra: Vec<String>) -> (r: Vec<String>)
    ensures
        rules_view(r@) == union_rules(rules_view(base@), rules_view(extra@)),
{
    let mut acc = base;
    let ghost b = rules_view(acc@);
    let mut i: usize = 0;
    while i < extra.len()
        invariant
            i <= extra@.len(),
            rules_view(acc@) == union_rules(b, rules_view(extra@).take(i as int)),
        decreases extra@.len() - i,
    {
        let rule = &extra[i];
        assert(rules_view(extra@).take(i + 1).drop_last() =~= rules_view(extra@).take(i as int));
        assert(rules_view(extra@).take(i + 1).last() == rule@);
        if !contains_rule(&acc, rule) {
            let ghost before = acc@;
            acc.push(rule.clone());
            assert(rules_view(acc@) =~= rules_view(before).push(rule@));
        }
        i = i + 1;
    }
    assert(rules_view(extra@).take(extra@.len() as int) =~= rules_view(extra@));
    acc
}

/// Unions the rules of the user-level and the project-level file: the
/// user-level rules first, then each project rule not already present.
pub fn load_settings(user: SettingsFile, project: SettingsFile) -> (r: PermissionSettings)
    ensures
        rules_view(r.always_allow@) == union_rules(
            rules_view(user.permissions.always_allow@),
            rules_view(project.permissions.always_allow@),
        ),
        rules_view(r.always_deny@) == union_rules(
            rules_view(user.permissions.always_deny@),
            rules_view(project.permissions.always_deny@),
        ),
{
    let always_allow = union_into(user.permissions.always_allow, project.permissions.always_allow);
    let always_deny = union_into(user.permissions.always_deny, project.permissions.always_deny);
    PermissionSettings { always_allow, always_deny }
}

/// A rule applies after the union if and only if one of the two files has
/// it, and the user-level rules keep their places at the front.
pub proof fn union_law(base: Seq<Seq<char>>, extra: Seq<Seq<char>>)
    ensures
        forall|x: Seq<char>|
            #![trigger union_rules(base, extra).contains(x)]
            union_rules(base, extra).contains(x) <==> (base.contains(x) || extra.contains(x)),
        union_rules(base, extra).len() >= base.len(),
        union_rules(base, extra).take(base.len() as int) == base,
    decreases extra.len(),
{
    if extra.len() > 0 {
        union_law(base, extra.drop_last());
        let acc = union_rules(base, extra.drop_last());
        assert forall|x: Seq<char>| #![trigger union_rules(base, extra).contains(x)]
            union_rules(base, extra).contains(x) <==> (base.contains(x) || extra.contains(
                x,
            )) by {
            if extra.contains(x) && !extra.drop_last().contains(x) {
                let j = choose|j: int| 0 <= j < extra.len() && extra[j] == x;
                if j < extra.len() - 1 {
                    assert(extra.drop_last()[j] == x);
                }
            }
            if extra.drop_last().contains(x) {
                let j = choose|j: int| 0 <= j < extra.drop_last().len() && extra.drop_last()[j]
                    == x;
                assert(extra[j] == x);
            }
            if !acc.contains(extra.last()) {
                if acc.push(extra.last()).contains(x) && x != extra.last() {
                    let j = choose|j: int| 0 <= j < acc.push(extra.last()).len() && acc.push(
                        extra.last(),
                    )[j] == x;
                    assert(acc[j] == x);
                }
                if acc.contains(x) {
                    let j = choose|j: int| 0 <= j < acc.len() && acc[j] == x;
                    assert(acc.push(extra.last())[j] == x);
                }
                assert(acc.push(extra.last())[acc.len() as int] == extra.last());
            }
        }
        if !acc.contains(extra.last()) {
            assert(acc.push(extra.last()).take(base.len() as int) =~= acc.take(base.len() as int));
        }
    }
}

} // verus!
