//! The records of the ledger: one `Bank` per asset, one `User` per wallet,
//! and in each user one `Position` per asset that the user has touched.

use vstd::prelude::*;
use crate::address::Address;

verus! {

/// The denominator of the fixed-point ratios `max_ltv` and
/// `liquidation_threshold`: a ratio `r` stands for `r / RATIO_SCALE`
/// (basis points).
pub const RATIO_SCALE: u64 = 10_000;

/// The pool of one asset: what it holds, what it has lent, and the shares
/// issued against both.
#[derive(Clone, Copy, Debug, PartialEq, Eq)]
pub struct Bank {
    /// The asset that the pool holds.
    pub asset_id: Address,
    /// Amount of the asset deposited in the pool.
    pub total_deposits: u64,
    /// Shares issued against `total_deposits`.
    pub total_deposit_shares: u64,
    /// Amount of the asset lent out of the pool.
    pub total_borrows: u64,
    /// Shares issued against `total_borrows`.
    pub total_borrow_shares: u64,
    /// Most that may be borrowed per unit of collateral, over `RATIO_SCALE`.
    pub max_ltv: u64,
    /// Debt per unit of collateral from which a position may be liquidated,
    /// over `RATIO_SCALE`.
    pub liquidation_threshold: u64,
}

impl Bank {
    /// A side of the pool is empty exactly when no shares are out against it.
    pub open spec fn wf(self) -> bool {
        &&& (self.total_deposits == 0 <==> self.total_deposit_shares == 0)
        &&& (self.total_borrows == 0 <==> self.total_borrow_shares == 0)
    }

    /// The pool of `asset_id` as it is created: nothing deposited, nothing lent.
    pub open spec fn empty(asset_id: Address, max_ltv: u64, liquidation_threshold: u64) -> Bank {
        Bank {
            asset_id,
            total_deposits: 0,
            total_deposit_shares: 0,
            total_borrows: 0,
            total_borrow_shares: 0,
            max_ltv,
            liquidation_threshold,
        }
    }

    /// Creates the pool of `asset_id` with zeroed totals.
    pub fn new(asset_id: Address, max_ltv: u64, liquidation_threshold: u64) -> (bank: Bank)
        ensures
            bank == Bank::empty(asset_id, max_ltv, liquidation_threshold),
            bank.wf(),
    {
        Bank {
            asset_id,
            total_deposits: 0,
            total_deposit_shares: 0,
            total_borrows: 0,
            total_borrow_shares: 0,
            max_ltv,
            liquidation_threshold,
        }
    }

    /// Whether the record is well formed.
    pub fn is_wf(&self) -> (ok: bool)
        ensures
            ok == self.wf(),
    {
        (self.total_deposits == 0) == (self.total_deposit_shares == 0) && (self.total_borrows
            == 0) == (self.total_borrow_shares == 0)
    }
}

/// What one user holds and owes in the bank of one asset.
#[derive(Clone, Copy, Debug, PartialEq, Eq)]
pub struct Position {
    /// The asset, and so the bank, that the position is in.
    pub asset_id: Address,
    /// Principal that the user has in the bank.
    pub deposited_amount: u64,
    /// Deposit shares that the user holds.
    pub deposited_shares: u64,
    /// Principal that the user owes the bank.
    pub borrowed_amount: u64,
    /// Borrow shares that the user owes.
    pub borrowed_shares: u64,
}

impl Position {
    /// The position of a user who has not touched `asset_id`.
    pub open spec fn empty(asset_id: Address) -> Position {
        Position {
            asset_id,
            deposited_amount: 0,
            deposited_shares: 0,
            borrowed_amount: 0,
            borrowed_shares: 0,
        }
    }

    /// Creates the position of a user who has not touched `asset_id`.
    pub fn new(asset_id: Address) -> (position: Position)
        ensures
            position == Position::empty(asset_id),
    {
        Position {
            asset_id,
            deposited_amount: 0,
            deposited_shares: 0,
            borrowed_amount: 0,
            borrowed_shares: 0,
        }
    }
}

/// No two positions of the sequence are in the same asset.
pub open spec fn distinct_assets(s: Seq<Position>) -> bool {
    forall|i: int, j: int|
        0 <= i < j < s.len() ==> (#[trigger] s[i]).asset_id != (#[trigger] s[j]).asset_id
}

/// Some position of the sequence is in `asset`.
pub open spec fn holds(s: Seq<Position>, asset: Address) -> bool {
    exists|i: int| 0 <= i < s.len() && (#[trigger] s[i]).asset_id == asset
}

/// The index of a position in `asset`, where the sequence holds one.
pub open spec fn slot_of(s: Seq<Position>, asset: Address) -> int {
    choose|i: int| 0 <= i < s.len() && (#[trigger] s[i]).asset_id == asset
}

/// The position in `asset`: the one that the sequence holds, or the empty one.
pub open spec fn position_in(s: Seq<Position>, asset: Address) -> Position {
    if holds(s, asset) {
        s[slot_of(s, asset)]
    } else {
        Position::empty(asset)
    }
}

/// The sequence after `position` is stored: in place of the position in the
/// same asset, or at the end where there was none.
pub open spec fn store(s: Seq<Position>, position: Position) -> Seq<Position> {
    if holds(s, position.asset_id) {
        s.update(slot_of(s, position.asset_id), position)
    } else {
        s.push(position)
    }
}

/// With distinct assets, the position at index `i` is the position in its asset.
pub proof fn lemma_slot_unique(s: Seq<Position>, i: int)
    requires
        distinct_assets(s),
        0 <= i < s.len(),
    ensures
        holds(s, s[i].asset_id),
        slot_of(s, s[i].asset_id) == i,
        position_in(s, s[i].asset_id) == s[i],
{
    let asset = s[i].asset_id;
    let j = slot_of(s, asset);
    assert(0 <= j < s.len() && s[j].asset_id == asset);
    if i < j {
        assert(s[i].asset_id != s[j].asset_id);
    } else if j < i {
        assert(s[j].asset_id != s[i].asset_id);
    }
}

/// Storing a position keeps the assets distinct, makes it the position in
/// its asset, and leaves the position in every other asset as it was.
pub proof fn lemma_store(s: Seq<Position>, position: Position)
    requires
        distinct_assets(s),
    ensures
        distinct_assets(store(s, position)),
        holds(store(s, position), position.asset_id),
        position_in(store(s, position), position.asset_id) == position,
        forall|a: Address|
            a != position.asset_id ==> (#[trigger] holds(store(s, position), a) <==> holds(s, a)),
        forall|a: Address|
            a != position.asset_id ==> #[trigger] position_in(store(s, position), a)
                == position_in(s, a),
{
    let asset = position.asset_id;
    let t = store(s, position);
    let k = if holds(s, asset) {
        slot_of(s, asset)
    } else {
        s.len() as int
    };
    assert(0 <= k < t.len() && t[k] == position);
    assert(t.len() >= s.len());
    assert forall|i: int| 0 <= i < t.len() && i != k implies i < s.len() && #[trigger] t[i]
        == s[i] by {}
    assert forall|i: int, j: int| 0 <= i < j < t.len() implies (#[trigger] t[i]).asset_id != (
    #[trigger] t[j]).asset_id by {
        if i == k {
            assert(t[j] == s[j]);
            if holds(s, asset) {
                assert(s[k].asset_id != s[j].asset_id);
            }
        } else if j == k {
            assert(t[i] == s[i]);
            if holds(s, asset) {
                assert(s[i].asset_id != s[k].asset_id);
            }
        } else {
            assert(t[i] == s[i] && t[j] == s[j]);
        }
    }
    lemma_slot_unique(t, k);
    assert forall|a: Address| a != asset implies (#[trigger] holds(t, a) <==> holds(s, a))
        && position_in(t, a) == position_in(s, a) by {
        if holds(s, a) {
            let i = slot_of(s, a);
            assert(0 <= i < s.len() && s[i].asset_id == a);
            assert(i != k);
            assert(t[i] == s[i]);
            lemma_slot_unique(s, i);
            lemma_slot_unique(t, i);
        }
        if holds(t, a) {
            let i = slot_of(t, a);
            assert(0 <= i < t.len() && t[i].asset_id == a);
            assert(i != k);
            assert(t[i] == s[i]);
            lemma_slot_unique(s, i);
            lemma_slot_unique(t, i);
        }
    }
}

/// The record of one user wallet.
#[derive(Clone, Debug, PartialEq, Eq)]
pub struct User {
    /// The wallet that owns the record.
    pub owner: Address,
    /// The asset that the user named as primary collateral when the record
    /// was created.
    pub collateral_asset_id: Address,
    /// One position for each asset that the user has touched.
    pub positions: Vec<Position>,
}

impl User {
    /// No asset has two positions.
    pub open spec fn wf(self) -> bool {
        distinct_assets(self.positions@)
    }

    /// What the user holds and owes in `asset`.
    pub open spec fn position_of(self, asset: Address) -> Position {
        position_in(self.positions@, asset)
    }

    /// Creates the record of `owner`, with no positions.
    pub fn new(owner: Address, collateral_asset_id: Address) -> (user: User)
        ensures
            user.owner == owner,
            user.collateral_asset_id == collateral_asset_id,
            user.positions@ == Seq::<Position>::empty(),
            user.wf(),
    {
        User { owner, collateral_asset_id, positions: Vec::new() }
    }

    /// The index of the user's position in `asset`, if there is one.
    pub fn find(&self, asset: Address) -> (r: Option<usize>)
        requires
            self.wf(),
        ensures
            match r {
                Some(i) => holds(self.positions@, asset) && i == slot_of(self.positions@, asset),
                None => !holds(self.positions@, asset),
            },
    {
        let mut i: usize = 0;
        while i < self.positions.len()
            invariant
                i <= self.positions.len(),
                self.wf(),
                forall|j: int| 0 <= j < i ==> (#[trigger] self.positions@[j]).asset_id != asset,
            decreases self.positions.len() - i,
        {
            if self.positions[i].asset_id == asset {
                proof {
                    lemma_slot_unique(self.positions@, i as int);
                }
                return Some(i);
            }
            i = i + 1;
        }
        None
    }

    /// What the user holds and owes in `asset`: zeros where the user has not
    /// touched it.
    pub fn position(&self, asset: Address) -> (position: Position)
        requires
            self.wf(),
        ensures
            position == self.position_of(asset),
            position.asset_id == asset,
    {
        match self.find(asset) {
            Some(i) => self.positions[i],
            None => Position::new(asset),
        }
    }

    /// Stores `position` as the user's position in its asset.
    pub fn put(&mut self, position: Position)
        requires
            old(self).wf(),
        ensures
            final(self).owner == old(self).owner,
            final(self).collateral_asset_id == old(self).collateral_asset_id,
            final(self).positions@ == store(old(self).positions@, position),
            final(self).wf(),
    {
        proof {
            lemma_store(self.positions@, position);
        }
        match self.find(position.asset_id) {
            Some(i) => {
                self.positions[i] = position;
            },
            None => {
                self.positions.push(position);
            },
        }
    }

    /// Whether the record is well formed.
    pub fn is_wf(&self) -> (ok: bool)
        ensures
            ok == self.wf(),
    {
        let n = self.positions.len();
        let mut j: usize = 0;
        while j < n
            invariant
                n == self.positions.len(),
                j <= n,
                forall|a: int, b: int|
                    0 <= a < b < j ==> (#[trigger] self.positions@[a]).asset_id != (
                    #[trigger] self.positions@[b]).asset_id,
            decreases n - j,
        {
            let mut i: usize = 0;
            while i < j
                invariant
                    n == self.positions.len(),
                    j < n,
                    i <= j,
                    forall|a: int|
                        0 <= a < i ==> (#[trigger] self.positions@[a]).asset_id
                            != self.positions@[j as int].asset_id,
                decreases j - i,
            {
                if self.positions[i].asset_id == self.positions[j].asset_id {
                    return false;
                }
                i = i + 1;
            }
            j = j + 1;
        }
        true
    }
}

} // verus!
