//! Role tiers: seven level ranges, each tied to one role of the guild, and
//! the synchronizer that leaves a member holding exactly the tier role of
//! their level.
use vstd::prelude::*;
use crate::text::{chars_of, parse_u64, unsigned_decimal};

verus! {

/// The guild's role for each level tier, lowest tier first.
#[derive(Clone, Copy, Debug, PartialEq, Eq, Structural)]
pub struct RoleIds {
    pub t1: u64,
    pub t2: u64,
    pub t3: u64,
    pub t4: u64,
    pub t5: u64,
    pub t6: u64,
    pub t7: u64,
}

impl RoleIds {
    /// The tier roles, lowest tier first.
    pub open spec fn tiers(&self) -> Seq<u64> {
        seq![self.t1, self.t2, self.t3, self.t4, self.t5, self.t6, self.t7]
    }

    /// The tier roles, lowest tier first.
    pub fn tier_list(&self) -> (r: Vec<u64>)
        ensures
            r@ == self.tiers(),
    {
        let r = vec![self.t1, self.t2, self.t3, self.t4, self.t5, self.t6, self.t7];
        assert(r@ =~= self.tiers());
        r
    }
}

/// A role identifier that is not a positive decimal number.
#[derive(Debug)]
pub struct InvalidRoleId {
    /// The name of the setting that held it.
    pub var: String,
}

/// Reads the role identifier `value`, configured under the name `var`: a
/// positive decimal number that fits in `u64`.
pub fn get_role_id(var: &str, value: &str) -> (r: Result<u64, InvalidRoleId>)
    ensures
        match r {
            Ok(id) => unsigned_decimal(value@) == Some(id as nat) && id != 0,
            Err(e) => e.var@ == var@ && (unsigned_decimal(value@) is None || unsigned_decimal(
                value@,
            ) == Some(0nat)),
        },
{
    let chars = chars_of(value);
    match parse_u64(&chars) {
        Some(id) if id != 0 => Ok(id),
        _ => Err(InvalidRoleId { var: String::from_str(var) }),
    }
}

/// The tier, counted from 0, of `level`: levels 1 to 5, 6 to 10, 11 to 20,
/// 21 to 30, 31 to 40 and 41 to 50 make the first six tiers, and every level
/// above 50 falls in the last. Level 0 has no tier.
pub open spec fn tier_of(level: nat) -> Option<nat> {
    if level == 0 {
        None
    } else if level <= 5 {
        Some(0)
    } else if level <= 10 {
        Some(1)
    } else if level <= 20 {
        Some(2)
    } else if level <= 30 {
        Some(3)
    } else if level <= 40 {
        Some(4)
    } else if level <= 50 {
        Some(5)
    } else {
        Some(6)
    }
}

/// The tier, counted from 0, of `level`; `None` for level 0.
pub fn tier_index(level: u32) -> (r: Option<usize>)
    ensures
        match r {
            Some(t) => tier_of(level as nat) == Some(t as nat) && t < 7,
            None => tier_of(level as nat) is None,
        },
{
    if level == 0 {
        None
    } else if level <= 5 {
        Some(0)
    } else if level <= 10 {
        Some(1)
    } else if level <= 20 {
        Some(2)
    } else if level <= 30 {
        Some(3)
    } else if level <= 40 {
        Some(4)
    } else if level <= 50 {
        Some(5)
    } else {
        Some(6)
    }
}

/// The role of the tier of `level`, where it has one.
pub open spec fn target_of(roles: RoleIds, level: nat) -> Option<u64> {
    match tier_of(level) {
        Some(t) => Some(roles.tiers()[t as int]),
        None => None,
    }
}

/// The role of the tier of `level`; `None` for level 0.
pub fn target_role(roles: &RoleIds, level: u32) -> (r: Option<u64>)
    ensures
        r == target_of(*roles, level as nat),
{
    let tiers = roles.tier_list();
    match tier_index(level) {
        Some(t) => Some(tiers[t]),
        None => None,
    }
}

/// The tier roles, in tier order, that are held and are not `target`.
pub open spec fn stale_roles(tiers: Seq<u64>, held: Set<u64>, target: Option<u64>) -> Seq<u64>
    decreases tiers.len(),
{
    if tiers.len() == 0 {
        Seq::empty()
    } else {
        let rest = stale_roles(tiers.drop_last(), held, target);
        let role = tiers.last();
        if held.contains(role) && target != Some(role) {
            rest.push(role)
        } else {
            rest
        }
    }
}

/// The role operations that bring a member to the tier of a level: the roles
/// to remove, then the role to add, if any.
#[derive(Debug)]
pub struct RolePlan {
    pub remove: Vec<u64>,
    pub add: Option<u64>,
}

/// The plan, over a set of held roles: remove every held tier role but the
/// target, and add the target unless it is held. Level 0 has no target, so
/// every held tier role goes.
pub open spec fn plan_of(held: Set<u64>, roles: RoleIds, level: nat) -> (Seq<u64>, Option<u64>) {
    let target = target_of(roles, level);
    (
        stale_roles(roles.tiers(), held, target),
        match target {
            Some(t) => if held.contains(t) {
                None
            } else {
                Some(t)
            },
            None => None,
        },
    )
}

/// The roles held once every operation of the plan `(remove, add)` has
/// succeeded.
pub open spec fn after_plan(held: Set<u64>, plan: (Seq<u64>, Option<u64>)) -> Set<u64> {
    let kept = held.difference(plan.0.to_set());
    match plan.1 {
        Some(role) => kept.insert(role),
        None => kept,
    }
}

fn holds(held: &Vec<u64>, role: u64) -> (r: bool)
    ensures
        r == held@.contains(role),
{
    let mut i: usize = 0;
    while i < held.len()
        invariant
            i <= held.len(),
            forall|k: int| 0 <= k < i ==> held@[k] != role,
        decreases held.len() - i,
    {
        if held[i] == role {
            return true;
        }
        i = i + 1;
    }
    false
}

/// Plans the role operations that leave a member holding `held` with exactly
/// the tier role of `level` among the tier roles (none at level 0).
pub fn plan_role_sync(held: &Vec<u64>, roles: &RoleIds, level: u32) -> (r: RolePlan)
    ensures
        (r.remove@, r.add) == plan_of(held@.to_set(), *roles, level as nat),
{
    let target = target_role(roles, level);
    let tiers = roles.tier_list();
    let ghost held_set = held@.to_set();
    let mut remove: Vec<u64> = Vec::new();
    let mut i: usize = 0;
    while i < tiers.len()
        invariant
            i <= tiers.len(),
            tiers@ == roles.tiers(),
            held_set == held@.to_set(),
            remove@ == stale_roles(tiers@.take(i as int), held_set, target),
        decreases tiers.len() - i,
    {
        let role = tiers[i];
        assert(tiers@.take(i + 1).drop_last() == tiers@.take(i as int));
        let is_target = match target {
            Some(t) => role == t,
            None => false,
        };
        if holds(held, role) && !is_target {
            remove.push(role);
        }
        i = i + 1;
    }
    assert(tiers@.take(tiers.len() as int) == tiers@);
    let add = match target {
        Some(t) => if holds(held, t) {
            None
        } else {
            Some(t)
        },
        None => None,
    };
    RolePlan { remove, add }
}

/// A role is stale exactly when it is a held tier role other than the
/// target.
pub proof fn lemma_stale_roles_members(
    tiers: Seq<u64>,
    held: Set<u64>,
    target: Option<u64>,
    role: u64,
)
    ensures
        stale_roles(tiers, held, target).contains(role) <==> (tiers.contains(role)
            && held.contains(role) && target != Some(role)),
    decreases tiers.len(),
{
    if tiers.len() > 0 {
        let rest = tiers.drop_last();
        let last = tiers.last();
        let earlier = stale_roles(rest, held, target);
        lemma_stale_roles_members(rest, held, target, role);
        assert(tiers.contains(role) <==> rest.contains(role) || last == role) by {
            if tiers.contains(role) {
                let k = choose|k: int| 0 <= k < tiers.len() && tiers[k] == role;
                if k < tiers.len() - 1 {
                    assert(rest[k] == role);
                }
            }
            if rest.contains(role) {
                let k = choose|k: int| 0 <= k < rest.len() && rest[k] == role;
                assert(tiers[k] == role);
            }
            if last == role {
                assert(tiers[tiers.len() - 1] == role);
            }
        }
        if held.contains(last) && target != Some(last) {
            let grown = earlier.push(last);
            assert(grown.contains(role) <==> earlier.contains(role) || last == role) by {
                if grown.contains(role) {
                    let k = choose|k: int| 0 <= k < grown.len() && grown[k] == role;
                    if k < earlier.len() {
                        assert(earlier[k] == role);
                    }
                }
                if earlier.contains(role) {
                    let k = choose|k: int| 0 <= k < earlier.len() && earlier[k] == role;
                    assert(grown[k] == role);
                }
                if last == role {
                    assert(grown[earlier.len() as int] == role);
                }
            }
        }
    }
}

/// Synchronizing converges: after one synchronization whose operations all
/// succeed, the tier roles held are exactly the target's, and a second
/// synchronization to the same level plans nothing and leaves the roles as
/// they are, whatever roles were held at the start. Every level from 1 has a
/// target, so there the member holds exactly one tier role; at level 0 the
/// member holds none.
pub proof fn lemma_sync_converges(held: Set<u64>, roles: RoleIds, level: u32)
    ensures
        ({
            let target = target_of(roles, level as nat);
            let once = after_plan(held, plan_of(held, roles, level as nat));
            let again = plan_of(once, roles, level as nat);
            &&& level >= 1 ==> target is Some
            &&& once.intersect(roles.tiers().to_set()) == match target {
                Some(t) => set![t],
                None => Set::<u64>::empty(),
            }
            &&& again.0.len() == 0
            &&& again.1 is None
            &&& after_plan(once, again) == once
        }),
{
    let target = target_of(roles, level as nat);
    let tiers = roles.tiers();
    let plan = plan_of(held, roles, level as nat);
    let once = after_plan(held, plan);
    let expected = match target {
        Some(t) => set![t],
        None => Set::<u64>::empty(),
    };
    if let Some(t) = target {
        assert(tiers.contains(t)) by {
            assert(tiers[tier_of(level as nat)->0 as int] == t);
        }
        lemma_stale_roles_members(tiers, held, target, t);
        assert(once.contains(t));
    }
    assert forall|role: u64| #[trigger] once.contains(role) && tiers.contains(role) implies target
        == Some(role) by {
        lemma_stale_roles_members(tiers, held, target, role);
        if target != Some(role) {
            assert(plan.0.contains(role));
            assert(plan.0.to_set().contains(role));
        }
    }
    assert forall|role: u64| #[trigger]
        once.intersect(tiers.to_set()).contains(role) <==> expected.contains(role) by {
        if target == Some(role) {
            assert(tiers.to_set().contains(role));
        }
        if once.intersect(tiers.to_set()).contains(role) {
            assert(tiers.contains(role));
        }
    }
    assert(once.intersect(tiers.to_set()) =~= expected);
    let again = plan_of(once, roles, level as nat);
    if again.0.len() > 0 {
        let role = again.0[0];
        assert(again.0.contains(role));
        lemma_stale_roles_members(tiers, once, target, role);
    }
    assert(again.0 =~= Seq::<u64>::empty());
    assert(again.0.to_set() =~= Set::<u64>::empty());
    assert(after_plan(once, again) =~= once);
}

} // verus!
