//! Which Discord roles to give and take after a verification check.

use vstd::prelude::*;
use crate::api::VerifiedUserResponse;
use crate::text::{parse_u64, parse_u64_spec};

verus! {

/// The roles in `wanted` (those that parse as IDs) that the member does not
/// hold yet, in order.
pub open spec fn roles_to_grant(wanted: Seq<Seq<char>>, current: Seq<u64>) -> Seq<u64>
    decreases wanted.len(),
{
    if wanted.len() == 0 {
        Seq::empty()
    } else {
        let rest = roles_to_grant(wanted.drop_last(), current);
        match parse_u64_spec(wanted.last()) {
            Some(id) => if current.contains(id) {
                rest
            } else {
                rest.push(id)
            },
            None => rest,
        }
    }
}

/// The roles in `unwanted` (those that parse as IDs) that the member holds,
/// in order.
pub open spec fn roles_to_revoke(unwanted: Seq<Seq<char>>, current: Seq<u64>) -> Seq<u64>
    decreases unwanted.len(),
{
    if unwanted.len() == 0 {
        Seq::empty()
    } else {
        let rest = roles_to_revoke(unwanted.drop_last(), current);
        match parse_u64_spec(unwanted.last()) {
            Some(id) => if current.contains(id) {
                rest.push(id)
            } else {
                rest
            },
            None => rest,
        }
    }
}

/// The texts of a list of strings.
pub open spec fn strings_view(v: Seq<String>) -> Seq<Seq<char>> {
    v.map_values(|s: String| s@)
}

/// The role changes to make for one member.
pub struct RolePlan {
    pub grant: Vec<u64>,
    pub revoke: Vec<u64>,
}

/// Walks `ids`, keeping those that parse and whose presence in `current`
/// is `held`.
fn select_roles(ids: &Vec<String>, current: &Vec<u64>, held: bool) -> (r: Vec<u64>)
    ensures
        held ==> r@ == roles_to_revoke(strings_view(ids@), current@),
        !held ==> r@ == roles_to_grant(strings_view(ids@), current@),
{
    let ghost names = strings_view(ids@);
    let mut r: Vec<u64> = Vec::new();
    let mut i: usize = 0;
    while i < ids.len()
        invariant
            i <= ids@.len(),
            names == strings_view(ids@),
            held ==> r@ == roles_to_revoke(names.take(i as int), current@),
            !held ==> r@ == roles_to_grant(names.take(i as int), current@),
        decreases ids@.len() - i,
    {
        assert(names.take(i + 1).drop_last() =~= names.take(i as int));
        assert(names.take(i + 1).last() == ids@[i as int]@);
        match parse_u64(ids[i].as_str()) {
            Some(id) => {
                let mut present = false;
                let mut k: usize = 0;
                while k < current.len()
                    invariant
                        k <= current@.len(),
                        present <==> exists|t: int| 0 <= t < k && current@[t] == id,
                    decreases current@.len() - k,
                {
                    if current[k] == id {
                        present = true;
                    }
                    k = k + 1;
                }
                assert(present == current@.contains(id));
                if present == held {
                    r.push(id);
                }
            },
            None => {},
        }
        i = i + 1;
    }
    assert(names.take(ids@.len() as int) =~= names);
    r
}

/// The roles to give (wanted, parsable and not held) and to take (unwanted,
/// parsable and held), each in the order listed; IDs that do not parse are
/// skipped.
pub fn plan_role_changes(user: &VerifiedUserResponse, current: &Vec<u64>) -> (plan: RolePlan)
    ensures
        plan.grant@ == roles_to_grant(strings_view(user.roles_to_add@), current@),
        plan.revoke@ == roles_to_revoke(strings_view(user.roles_to_remove@), current@),
{
    RolePlan {
        grant: select_roles(&user.roles_to_add, current, false),
        revoke: select_roles(&user.roles_to_remove, current, true),
    }
}

/// A role is given only if it is listed as wanted and not held, and taken
/// only if it is listed as unwanted and held.
pub proof fn law_role_plan_sound(
    wanted: Seq<Seq<char>>,
    unwanted: Seq<Seq<char>>,
    current: Seq<u64>,
)
    ensures
        forall|i: int|
            0 <= i < roles_to_grant(wanted, current).len() ==> !current.contains(
                #[trigger] roles_to_grant(wanted, current)[i],
            ) && exists|j: int|
                0 <= j < wanted.len() && parse_u64_spec(wanted[j]) == Some(
                    roles_to_grant(wanted, current)[i],
                ),
        forall|i: int|
            0 <= i < roles_to_revoke(unwanted, current).len() ==> current.contains(
                #[trigger] roles_to_revoke(unwanted, current)[i],
            ) && exists|j: int|
                0 <= j < unwanted.len() && parse_u64_spec(unwanted[j]) == Some(
                    roles_to_revoke(unwanted, current)[i],
                ),
    decreases wanted.len() + unwanted.len(),
{
    if wanted.len() > 0 {
        law_role_plan_sound(wanted.drop_last(), unwanted, current);
        let g = roles_to_grant(wanted, current);
        let pre = roles_to_grant(wanted.drop_last(), current);
        assert forall|i: int| 0 <= i < g.len() implies !current.contains(#[trigger] g[i])
            && exists|j: int| 0 <= j < wanted.len() && parse_u64_spec(wanted[j]) == Some(g[i]) by {
            if i < pre.len() {
                assert(g[i] == pre[i]);
                let j = choose|j: int|
                    0 <= j < wanted.drop_last().len() && parse_u64_spec(wanted.drop_last()[j])
                        == Some(pre[i]);
                assert(wanted[j] == wanted.drop_last()[j]);
            } else {
                assert(parse_u64_spec(wanted[wanted.len() - 1]) == Some(g[i]));
            }
        }
    }
    if unwanted.len() > 0 {
        law_role_plan_sound(wanted, unwanted.drop_last(), current);
        let g = roles_to_revoke(unwanted, current);
        let pre = roles_to_revoke(unwanted.drop_last(), current);
        assert forall|i: int| 0 <= i < g.len() implies current.contains(#[trigger] g[i])
            && exists|j: int| 0 <= j < unwanted.len() && parse_u64_spec(unwanted[j]) == Some(g[i]) by {
            if i < pre.len() {
                assert(g[i] == pre[i]);
                let j = choose|j: int|
                    0 <= j < unwanted.drop_last().len() && parse_u64_spec(unwanted.drop_last()[j])
                        == Some(pre[i]);
                assert(unwanted[j] == unwanted.drop_last()[j]);
            } else {
                assert(parse_u64_spec(unwanted[unwanted.len() - 1]) == Some(g[i]));
            }
        }
    }
}


/// Every wanted role that parses and is not held is given, and every
/// unwanted role that parses and is held is taken: nothing listed is
/// skipped.
pub proof fn law_role_plan_complete(
    wanted: Seq<Seq<char>>,
    unwanted: Seq<Seq<char>>,
    current: Seq<u64>,
)
    ensures
        forall|j: int|
            0 <= j < wanted.len() ==> match #[trigger] parse_u64_spec(wanted[j]) {
                Some(id) => !current.contains(id) ==> roles_to_grant(wanted, current).contains(id),
                None => true,
            },
        forall|j: int|
            0 <= j < unwanted.len() ==> match #[trigger] parse_u64_spec(unwanted[j]) {
                Some(id) => current.contains(id) ==> roles_to_revoke(unwanted, current).contains(id),
                None => true,
            },
    decreases wanted.len() + unwanted.len(),
{
    if wanted.len() > 0 {
        law_role_plan_complete(wanted.drop_last(), unwanted, current);
        let g = roles_to_grant(wanted, current);
        let pre = roles_to_grant(wanted.drop_last(), current);
        assert forall|j: int|
            0 <= j < wanted.len() && #[trigger] parse_u64_spec(wanted[j]) is Some
                && !current.contains(parse_u64_spec(wanted[j])->0) implies g.contains(
            parse_u64_spec(wanted[j])->0,
        ) by {
            let id = parse_u64_spec(wanted[j])->0;
            if j == wanted.len() - 1 {
                assert(g[g.len() - 1] == id);
            } else {
                assert(wanted.drop_last()[j] == wanted[j]);
                assert(pre.contains(id));
                let k = choose|k: int| 0 <= k < pre.len() && pre[k] == id;
                assert(g[k] == id);
            }
        }
    }
    if unwanted.len() > 0 {
        law_role_plan_complete(wanted, unwanted.drop_last(), current);
        let g = roles_to_revoke(unwanted, current);
        let pre = roles_to_revoke(unwanted.drop_last(), current);
        assert forall|j: int|
            0 <= j < unwanted.len() && #[trigger] parse_u64_spec(unwanted[j]) is Some
                && current.contains(parse_u64_spec(unwanted[j])->0) implies g.contains(
            parse_u64_spec(unwanted[j])->0,
        ) by {
            let id = parse_u64_spec(unwanted[j])->0;
            if j == unwanted.len() - 1 {
                assert(g[g.len() - 1] == id);
            } else {
                assert(unwanted.drop_last()[j] == unwanted[j]);
                assert(pre.contains(id));
                let k = choose|k: int| 0 <= k < pre.len() && pre[k] == id;
                assert(g[k] == id);
            }
        }
    }
}

/// The plan for two lists one after the other is the plan for the first
/// followed by the plan for the second: each listed role is handled on its
/// own, in order, duplicates included.
pub proof fn law_role_plan_concat(
    a: Seq<Seq<char>>,
    b: Seq<Seq<char>>,
    current: Seq<u64>,
)
    ensures
        roles_to_grant(a + b, current) == roles_to_grant(a, current) + roles_to_grant(b, current),
        roles_to_revoke(a + b, current) == roles_to_revoke(a, current) + roles_to_revoke(b, current),
    decreases b.len(),
{
    if b.len() == 0 {
        assert(a + b =~= a);
        assert(roles_to_grant(a, current) + roles_to_grant(b, current) =~= roles_to_grant(a, current));
        assert(roles_to_revoke(a, current) + roles_to_revoke(b, current) =~= roles_to_revoke(a, current));
    } else {
        law_role_plan_concat(a, b.drop_last(), current);
        assert((a + b).drop_last() =~= a + b.drop_last());
        assert((a + b).last() == b.last());
        assert(roles_to_grant(a + b, current) =~= roles_to_grant(a, current) + roles_to_grant(b, current));
        assert(roles_to_revoke(a + b, current) =~= roles_to_revoke(a, current) + roles_to_revoke(b, current));
    }
}

/// One listed role: given exactly when it parses and is not held, taken
/// exactly when it parses and is held, and never otherwise.
pub proof fn law_role_plan_single(id_text: Seq<char>, current: Seq<u64>)
    ensures
        roles_to_grant(seq![id_text], current) == match parse_u64_spec(id_text) {
            Some(id) => if current.contains(id) {
                Seq::<u64>::empty()
            } else {
                seq![id]
            },
            None => Seq::<u64>::empty(),
        },
        roles_to_revoke(seq![id_text], current) == match parse_u64_spec(id_text) {
            Some(id) => if current.contains(id) {
                seq![id]
            } else {
                Seq::<u64>::empty()
            },
            None => Seq::<u64>::empty(),
        },
{
    let s = seq![id_text];
    assert(s.drop_last() =~= Seq::<Seq<char>>::empty());
    assert(s.last() == id_text);
    assert(roles_to_grant(s.drop_last(), current) =~= Seq::<u64>::empty());
    assert(roles_to_revoke(s.drop_last(), current) =~= Seq::<u64>::empty());
    assert(Seq::<u64>::empty().push(0u64) =~= seq![0u64]);
    if let Some(id) = parse_u64_spec(id_text) {
        assert(Seq::<u64>::empty().push(id) =~= seq![id]);
    }
}

} // verus!
