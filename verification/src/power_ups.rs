//! The power-ups that a player can buy, and the record of what was bought.

use vstd::prelude::*;
use crate::game_state::copy_items;

verus! {

/// A power-up as a player asks for it.
#[derive(Debug, PartialEq, Eq)]
pub enum PowerUps {
    ExtraLife,
    AddLength,
    ShrinkOpponent { opponent: String },
    FreezeOpponent { opponent: String },
    Revive,
}

/// What a [`PowerUps`] holds, as mathematical values.
pub enum PowerUpsView {
    ExtraLife,
    AddLength,
    ShrinkOpponent { opponent: Seq<char> },
    FreezeOpponent { opponent: Seq<char> },
    Revive,
}

/// A power-up without its target: what its price depends on.
#[derive(Clone, Copy, Debug, PartialEq, Eq, Structural)]
pub enum PowerUpKind {
    ExtraLife,
    AddLength,
    ShrinkOpponent,
    FreezeOpponent,
    Revive,
}

impl View for PowerUps {
    type V = PowerUpsView;

    open spec fn view(&self) -> PowerUpsView {
        match self {
            PowerUps::ExtraLife => PowerUpsView::ExtraLife,
            PowerUps::AddLength => PowerUpsView::AddLength,
            PowerUps::ShrinkOpponent { opponent } => PowerUpsView::ShrinkOpponent {
                opponent: opponent@,
            },
            PowerUps::FreezeOpponent { opponent } => PowerUpsView::FreezeOpponent {
                opponent: opponent@,
            },
            PowerUps::Revive => PowerUpsView::Revive,
        }
    }
}

impl PowerUpsView {
    /// The power-up without its target.
    pub open spec fn kind(self) -> PowerUpKind {
        match self {
            PowerUpsView::ExtraLife => PowerUpKind::ExtraLife,
            PowerUpsView::AddLength => PowerUpKind::AddLength,
            PowerUpsView::ShrinkOpponent { .. } => PowerUpKind::ShrinkOpponent,
            PowerUpsView::FreezeOpponent { .. } => PowerUpKind::FreezeOpponent,
            PowerUpsView::Revive => PowerUpKind::Revive,
        }
    }
}

impl PowerUps {
    /// The power-up without its target.
    pub fn kind(&self) -> (r: PowerUpKind)
        ensures
            r == self@.kind(),
    {
        match self {
            PowerUps::ExtraLife => PowerUpKind::ExtraLife,
            PowerUps::AddLength => PowerUpKind::AddLength,
            PowerUps::ShrinkOpponent { .. } => PowerUpKind::ShrinkOpponent,
            PowerUps::FreezeOpponent { .. } => PowerUpKind::FreezeOpponent,
            PowerUps::Revive => PowerUpKind::Revive,
        }
    }

}

impl Clone for PowerUps {
    fn clone(&self) -> (r: PowerUps)
        ensures
            r@ == self@,
    {
        match self {
            PowerUps::ExtraLife => PowerUps::ExtraLife,
            PowerUps::AddLength => PowerUps::AddLength,
            PowerUps::ShrinkOpponent { opponent } => PowerUps::ShrinkOpponent {
                opponent: opponent.clone(),
            },
            PowerUps::FreezeOpponent { opponent } => PowerUps::FreezeOpponent {
                opponent: opponent.clone(),
            },
            PowerUps::Revive => PowerUps::Revive,
        }
    }
}

/// What each power-up costs, in whatever the server counts costs in. The
/// engine looks costs up and hands them on; it does not reckon with them.
#[derive(Debug, PartialEq)]
pub struct PowerUpCosts<C> {
    pub extra_life: C,
    pub all_length: C,
    pub revive: C,
    pub shrink_opponent: C,
    pub freeze_opponent: C,
}

impl<C: Copy> Clone for PowerUpCosts<C> {
    fn clone(&self) -> (r: Self)
        ensures
            r == *self,
    {
        *self
    }
}

impl<C: Copy> Copy for PowerUpCosts<C> {

}

impl<C> PowerUpCosts<C> {
    /// The cost of a power-up of the given kind.
    pub open spec fn cost_of(self, kind: PowerUpKind) -> C {
        match kind {
            PowerUpKind::ExtraLife => self.extra_life,
            PowerUpKind::AddLength => self.all_length,
            PowerUpKind::ShrinkOpponent => self.shrink_opponent,
            PowerUpKind::FreezeOpponent => self.freeze_opponent,
            PowerUpKind::Revive => self.revive,
        }
    }
}

impl<C: Copy> PowerUpCosts<C> {
    /// Looks up the cost of a power-up of the given kind.
    pub fn cost(&self, kind: PowerUpKind) -> (r: C)
        ensures
            r == self.cost_of(kind),
    {
        match kind {
            PowerUpKind::ExtraLife => self.extra_life,
            PowerUpKind::AddLength => self.all_length,
            PowerUpKind::ShrinkOpponent => self.shrink_opponent,
            PowerUpKind::FreezeOpponent => self.freeze_opponent,
            PowerUpKind::Revive => self.revive,
        }
    }
}

/// A catalogue that tells what a power-up costs.
pub trait GetPowerUpCost<C> {
    fn get_cost(&self, power_up: &PowerUps) -> C;
}

impl<C: Copy> GetPowerUpCost<C> for PowerUpCosts<C> {
    /// Looks up the cost of `power_up`, which does not depend on its target.
    fn get_cost(&self, power_up: &PowerUps) -> (r: C)
        ensures
            r == self.cost_of(power_up@.kind()),
    {
        self.cost(power_up.kind())
    }
}

/// What one player has bought, oldest first. Whoever sets the prices finds a
/// player's spending by adding up the prices in this order.
#[derive(Debug, PartialEq, Eq)]
pub struct Purchases {
    pub user_id: String,
    pub power_ups: Vec<PowerUpKind>,
}

/// What a [`Purchases`] holds, as mathematical values.
pub struct PurchasesView {
    pub user_id: Seq<char>,
    pub power_ups: Seq<PowerUpKind>,
}

impl View for Purchases {
    type V = PurchasesView;

    open spec fn view(&self) -> PurchasesView {
        PurchasesView { user_id: self.user_id@, power_ups: self.power_ups@ }
    }
}

impl Clone for Purchases {
    fn clone(&self) -> (r: Purchases)
        ensures
            r@ == self@,
    {
        Purchases { user_id: self.user_id.clone(), power_ups: copy_items(&self.power_ups) }
    }
}

impl<C: Copy> PowerUpCosts<C> {
    /// The cost of each purchase of a player, in the order of the purchases.
    /// What the player has spent is their sum.
    pub fn charges(&self, purchases: &Purchases) -> (r: Vec<C>)
        ensures
            r@ == purchases@.power_ups.map_values(|kind: PowerUpKind| self.cost_of(kind)),
    {
        let mut charged: Vec<C> = Vec::new();
        let mut i: usize = 0;
        while i < purchases.power_ups.len()
            invariant
                i <= purchases.power_ups.len(),
                charged.len() == i,
                forall|k: int| 0 <= k < i ==> charged@[k] == self.cost_of(purchases.power_ups@[k]),
            decreases purchases.power_ups.len() - i,
        {
            charged.push(self.cost(purchases.power_ups[i]));
            i += 1;
        }
        assert(charged@ =~= purchases@.power_ups.map_values(
            |kind: PowerUpKind| self.cost_of(kind),
        ));
        charged
    }
}

} // verus!
