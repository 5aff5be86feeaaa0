//! The upgrade choices offered on a level-up.

use vstd::prelude::*;

verus! {

/// Damage multiplier increase per `IncreaseDamage` upgrade, in tenths (0.2).
pub const DAMAGE_UPGRADE_STEP: u32 = 2;

/// Speed multiplier increase per `IncreaseSpeed` upgrade, in tenths (0.1).
pub const SPEED_UPGRADE_STEP: u32 = 1;

/// One upgrade choice, each with a fixed effect magnitude.
#[derive(Clone, Copy, Debug, PartialEq, Eq, Structural)]
pub enum Upgrade {
    AddOrbital,
    IncreaseDamage,
    IncreaseSpeed,
}

impl Upgrade {
    /// The fixed set of upgrades, in declaration order.
    pub fn all() -> (r: Vec<Upgrade>)
        ensures
            r@ == seq![Upgrade::AddOrbital, Upgrade::IncreaseDamage, Upgrade::IncreaseSpeed],
    {
        let mut v: Vec<Upgrade> = Vec::new();
        v.push(Upgrade::AddOrbital);
        v.push(Upgrade::IncreaseDamage);
        v.push(Upgrade::IncreaseSpeed);
        proof {
            assert(v@ =~= seq![
                Upgrade::AddOrbital,
                Upgrade::IncreaseDamage,
                Upgrade::IncreaseSpeed,
            ]);
        }
        v
    }

    /// The description shown on an upgrade button; presentation only.
    pub fn get_description(&self) -> (r: &'static str) {
        match self {
            Upgrade::AddOrbital => "Add another orbiting weapon",
            Upgrade::IncreaseDamage => "Increase weapon damage by 20%",
            Upgrade::IncreaseSpeed => "Increase movement speed by 10%",
        }
    }
}

/// Produce the offer shown on entering the upgrade-selection phase: all
/// three distinct upgrades, in random order. Every upgrade appears in the
/// offer exactly once.
pub fn offer_upgrades() -> (r: Vec<Upgrade>)
    ensures
        r@.len() == 3,
        forall|u: Upgrade| r@.contains(u),
{
    let all = Upgrade::all();
    let r = crate::rng::choose_three(&all);
    proof {
        broadcast use vstd::seq_lib::group_to_multiset_ensures;

        assert(r@.to_multiset().len() == all@.to_multiset().len());
        assert(r@.len() == r@.to_multiset().len());
        assert(all@.len() == all@.to_multiset().len());
        assert forall|u: Upgrade| r@.contains(u) by {
            assert(all@.contains(u)) by {
                match u {
                    Upgrade::AddOrbital => assert(all@[0] == u),
                    Upgrade::IncreaseDamage => assert(all@[1] == u),
                    Upgrade::IncreaseSpeed => assert(all@[2] == u),
                }
            }
            assert(all@.to_multiset().count(u) > 0);
            assert(r@.to_multiset().count(u) > 0);
        }
    }
    r
}

} // verus!
