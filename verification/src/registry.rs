//! The store of the protocol: every bank by its asset, every user by its
//! wallet, and what holds of them together.

use vstd::prelude::*;
use crate::address::Address;
use crate::state::{lemma_store, position_in, store, Bank, Position, User};

verus! {

/// A side of a bank's ledger.
pub enum Side {
    /// What users have deposited.
    Deposits,
    /// What users have borrowed.
    Borrows,
}

/// The principal of a position on one side.
pub open spec fn principal(position: Position, side: Side) -> nat {
    match side {
        Side::Deposits => position.deposited_amount as nat,
        Side::Borrows => position.borrowed_amount as nat,
    }
}

/// The total of a bank on one side.
pub open spec fn bank_total(bank: Bank, side: Side) -> nat {
    match side {
        Side::Deposits => bank.total_deposits as nat,
        Side::Borrows => bank.total_borrows as nat,
    }
}

/// The sum, over all users, of the principal of their positions in `asset`
/// on one side.
pub open spec fn total_principal(users: Seq<User>, asset: Address, side: Side) -> nat
    decreases users.len(),
{
    if users.len() == 0 {
        0
    } else {
        total_principal(users.drop_last(), asset, side) + principal(
            users.last().position_of(asset),
            side,
        )
    }
}

/// Some bank of the sequence is the bank of `asset`.
pub open spec fn has_bank(banks: Seq<Bank>, asset: Address) -> bool {
    exists|i: int| 0 <= i < banks.len() && (#[trigger] banks[i]).asset_id == asset
}

/// The index of the bank of `asset`, where there is one.
pub open spec fn bank_slot(banks: Seq<Bank>, asset: Address) -> int {
    choose|i: int| 0 <= i < banks.len() && (#[trigger] banks[i]).asset_id == asset
}

/// Some user of the sequence is the record of `owner`.
pub open spec fn has_user(users: Seq<User>, owner: Address) -> bool {
    exists|i: int| 0 <= i < users.len() && (#[trigger] users[i]).owner == owner
}

/// The index of the record of `owner`, where there is one.
pub open spec fn user_slot(users: Seq<User>, owner: Address) -> int {
    choose|i: int| 0 <= i < users.len() && (#[trigger] users[i]).owner == owner
}

/// No asset has two banks.
pub open spec fn distinct_banks(banks: Seq<Bank>) -> bool {
    forall|i: int, j: int|
        0 <= i < j < banks.len() ==> (#[trigger] banks[i]).asset_id != (
        #[trigger] banks[j]).asset_id
}

/// No wallet has two records.
pub open spec fn distinct_users(users: Seq<User>) -> bool {
    forall|i: int, j: int|
        0 <= i < j < users.len() ==> (#[trigger] users[i]).owner != (#[trigger] users[j]).owner
}

/// Every position of every user is in the asset of some bank.
pub open spec fn positions_have_banks(banks: Seq<Bank>, users: Seq<User>) -> bool {
    forall|i: int, k: int|
        0 <= i < users.len() && 0 <= k < users[i].positions@.len() ==> has_bank(
            banks,
            (#[trigger] users[i].positions@[k]).asset_id,
        )
}

/// Conservation: on each side, what the users hold in a bank together is
/// never above the bank's total.
pub open spec fn conserved(banks: Seq<Bank>, users: Seq<User>) -> bool {
    forall|i: int, side: Side|
        0 <= i < banks.len() ==> total_principal(users, (#[trigger] banks[i]).asset_id, side)
            <= #[trigger] bank_total(banks[i], side)
}

/// The banks and users make a consistent ledger.
pub open spec fn ledger_wf(banks: Seq<Bank>, users: Seq<User>) -> bool {
    &&& forall|i: int| 0 <= i < banks.len() ==> (#[trigger] banks[i]).wf()
    &&& distinct_banks(banks)
    &&& forall|i: int| 0 <= i < users.len() ==> (#[trigger] users[i]).wf()
    &&& distinct_users(users)
    &&& positions_have_banks(banks, users)
    &&& conserved(banks, users)
}

/// The users after the record at index `slot` got `positions` for its
/// positions, and nothing else is touched.
pub open spec fn users_after(
    before: Seq<User>,
    after: Seq<User>,
    slot: int,
    positions: Seq<Position>,
) -> bool {
    &&& after.len() == before.len()
    &&& forall|k: int| 0 <= k < before.len() && k != slot ==> #[trigger] after[k] == before[k]
    &&& after[slot].owner == before[slot].owner
    &&& after[slot].collateral_asset_id == before[slot].collateral_asset_id
    &&& after[slot].positions@ == positions
}

/// The users after `position` is stored in the record at index `slot`, and
/// nothing else is touched.
pub open spec fn users_after_store(
    before: Seq<User>,
    after: Seq<User>,
    slot: int,
    position: Position,
) -> bool {
    users_after(before, after, slot, store(before[slot].positions@, position))
}

/// With distinct assets, the bank at index `i` is the bank of its asset.
pub proof fn lemma_bank_slot(banks: Seq<Bank>, i: int)
    requires
        distinct_banks(banks),
        0 <= i < banks.len(),
    ensures
        has_bank(banks, banks[i].asset_id),
        bank_slot(banks, banks[i].asset_id) == i,
{
    let j = bank_slot(banks, banks[i].asset_id);
    assert(0 <= j < banks.len() && banks[j].asset_id == banks[i].asset_id);
    if i < j {
        assert(banks[i].asset_id != banks[j].asset_id);
    } else if j < i {
        assert(banks[j].asset_id != banks[i].asset_id);
    }
}

/// With distinct wallets, the record at index `i` is the record of its owner.
pub proof fn lemma_user_slot(users: Seq<User>, i: int)
    requires
        distinct_users(users),
        0 <= i < users.len(),
    ensures
        has_user(users, users[i].owner),
        user_slot(users, users[i].owner) == i,
{
    let j = user_slot(users, users[i].owner);
    assert(0 <= j < users.len() && users[j].owner == users[i].owner);
    if i < j {
        assert(users[i].owner != users[j].owner);
    } else if j < i {
        assert(users[j].owner != users[i].owner);
    }
}

/// Replacing one user changes the total by what that user's position changes.
pub proof fn lemma_total_update(users: Seq<User>, i: int, user: User, asset: Address, side: Side)
    requires
        0 <= i < users.len(),
    ensures
        total_principal(users.update(i, user), asset, side) + principal(
            users[i].position_of(asset),
            side,
        ) == total_principal(users, asset, side) + principal(user.position_of(asset), side),
    decreases users.len(),
{
    let after = users.update(i, user);
    if i == users.len() - 1 {
        assert(after.drop_last() =~= users.drop_last());
    } else {
        assert(after.drop_last() =~= users.drop_last().update(i, user));
        lemma_total_update(users.drop_last(), i, user, asset, side);
    }
}

/// Users without a position in `asset` hold nothing in it.
pub proof fn lemma_total_untouched(users: Seq<User>, asset: Address, side: Side)
    requires
        forall|i: int, k: int|
            0 <= i < users.len() && 0 <= k < users[i].positions@.len() ==> (
            #[trigger] users[i].positions@[k]).asset_id != asset,
    ensures
        total_principal(users, asset, side) == 0,
    decreases users.len(),
{
    if users.len() > 0 {
        let rest = users.drop_last();
        assert forall|i: int, k: int|
            0 <= i < rest.len() && 0 <= k < rest[i].positions@.len() implies (
        #[trigger] rest[i].positions@[k]).asset_id != asset by {
            assert(rest[i] == users[i]);
        }
        lemma_total_untouched(rest, asset, side);
        let last = users.last();
        assert(last == users[users.len() - 1]);
        assert(!crate::state::holds(last.positions@, asset)) by {
            if crate::state::holds(last.positions@, asset) {
                let k = crate::state::slot_of(last.positions@, asset);
                assert(users[users.len() - 1].positions@[k].asset_id != asset);
            }
        }
    }
}

/// A ledger stays consistent when one bank is replaced by a well-formed
/// bank of the same asset, and the position in that asset of one user is
/// replaced, so that on neither side the bank's total falls by more than the
/// position's principal.
pub proof fn lemma_ledger_update(
    banks: Seq<Bank>,
    users: Seq<User>,
    bank_at: int,
    user_at: int,
    new_bank: Bank,
    new_users: Seq<User>,
    new_position: Position,
)
    requires
        ledger_wf(banks, users),
        0 <= bank_at < banks.len(),
        0 <= user_at < users.len(),
        new_bank.wf(),
        new_bank.asset_id == banks[bank_at].asset_id,
        new_position.asset_id == banks[bank_at].asset_id,
        users_after_store(users, new_users, user_at, new_position),
        forall|side: Side|
            #[trigger] bank_total(banks[bank_at], side) + principal(new_position, side)
                <= bank_total(new_bank, side) + principal(
                users[user_at].position_of(new_position.asset_id),
                side,
            ),
    ensures
        ledger_wf(banks.update(bank_at, new_bank), new_users),
{
    let asset = new_position.asset_id;
    let new_banks = banks.update(bank_at, new_bank);
    let before = users[user_at].positions@;
    let after = new_users[user_at].positions@;
    lemma_store(before, new_position);
    assert(new_users =~= users.update(user_at, new_users[user_at]));
    assert forall|i: int| 0 <= i < new_banks.len() implies (#[trigger] new_banks[i]).asset_id
        == banks[i].asset_id by {}
    assert forall|i: int| 0 <= i < new_banks.len() implies (#[trigger] new_banks[i]).wf() by {
        if i != bank_at {
            assert(new_banks[i] == banks[i]);
        }
    }
    assert forall|i: int, j: int| 0 <= i < j < new_banks.len() implies (
    #[trigger] new_banks[i]).asset_id != (#[trigger] new_banks[j]).asset_id by {
        assert(banks[i].asset_id != banks[j].asset_id);
    }
    assert forall|i: int| 0 <= i < new_users.len() implies (#[trigger] new_users[i]).wf() by {
        if i != user_at {
            assert(new_users[i] == users[i]);
        }
    }
    assert forall|i: int, j: int| 0 <= i < j < new_users.len() implies (
    #[trigger] new_users[i]).owner != (#[trigger] new_users[j]).owner by {
        assert(new_users[i].owner == users[i].owner);
        assert(new_users[j].owner == users[j].owner);
        assert(users[i].owner != users[j].owner);
    }
    assert forall|a: Address| has_bank(banks, a) implies has_bank(new_banks, a) by {
        let i = bank_slot(banks, a);
        assert(new_banks[i].asset_id == a);
    }
    assert forall|i: int, k: int|
        0 <= i < new_users.len() && 0 <= k < new_users[i].positions@.len() implies has_bank(
        new_banks,
        (#[trigger] new_users[i].positions@[k]).asset_id,
    ) by {
        if i != user_at {
            assert(new_users[i] == users[i]);
            assert(has_bank(banks, users[i].positions@[k].asset_id));
        } else if after[k] == new_position {
            assert(banks[bank_at].asset_id == asset);
            assert(has_bank(banks, asset));
        } else {
            assert(k < before.len() && after[k] == before[k]);
            assert(has_bank(banks, users[i].positions@[k].asset_id));
        }
    }
    assert forall|i: int, side: Side| 0 <= i < new_banks.len() implies total_principal(
        new_users,
        (#[trigger] new_banks[i]).asset_id,
        side,
    ) <= #[trigger] bank_total(new_banks[i], side) by {
        let a = new_banks[i].asset_id;
        lemma_total_update(users, user_at, new_users[user_at], a, side);
        assert(total_principal(users, banks[i].asset_id, side) <= bank_total(banks[i], side));
        if i == bank_at {
            assert(new_users[user_at].position_of(a) == new_position);
            assert(bank_total(banks[bank_at], side) + principal(new_position, side) <= bank_total(
                new_bank,
                side,
            ) + principal(users[user_at].position_of(asset), side));
        } else {
            if i < bank_at {
                assert(banks[i].asset_id != banks[bank_at].asset_id);
            } else {
                assert(banks[bank_at].asset_id != banks[i].asset_id);
            }
            assert(position_in(after, a) == position_in(before, a));
        }
    }
}

/// The store of the protocol.
#[derive(Clone, Debug, PartialEq, Eq)]
pub struct Lending {
    /// The banks, one per asset.
    pub banks: Vec<Bank>,
    /// The user records, one per wallet.
    pub users: Vec<User>,
}

impl Lending {
    /// The banks and users make a consistent ledger.
    pub open spec fn wf(self) -> bool {
        ledger_wf(self.banks@, self.users@)
    }

    /// There is a bank of `asset`.
    pub open spec fn has_bank(self, asset: Address) -> bool {
        has_bank(self.banks@, asset)
    }

    /// The bank of `asset`, where there is one.
    pub open spec fn bank(self, asset: Address) -> Bank {
        self.banks@[bank_slot(self.banks@, asset)]
    }

    /// There is a record of `owner`.
    pub open spec fn has_user(self, owner: Address) -> bool {
        has_user(self.users@, owner)
    }

    /// The record of `owner`, where there is one.
    pub open spec fn user(self, owner: Address) -> User {
        self.users@[user_slot(self.users@, owner)]
    }

    /// The store with no bank and no user.
    pub fn new() -> (state: Lending)
        ensures
            state.banks@ == Seq::<Bank>::empty(),
            state.users@ == Seq::<User>::empty(),
            state.wf(),
    {
        Lending { banks: Vec::new(), users: Vec::new() }
    }

    /// The index of the bank of `asset`, if there is one.
    pub fn find_bank(&self, asset: Address) -> (r: Option<usize>)
        requires
            self.wf(),
        ensures
            match r {
                Some(i) => self.has_bank(asset) && i == bank_slot(self.banks@, asset) && i
                    < self.banks@.len() && self.banks@[i as int].asset_id == asset,
                None => !self.has_bank(asset),
            },
    {
        let mut i: usize = 0;
        while i < self.banks.len()
            invariant
                i <= self.banks.len(),
                self.wf(),
                forall|j: int| 0 <= j < i ==> (#[trigger] self.banks@[j]).asset_id != asset,
            decreases self.banks.len() - i,
        {
            if self.banks[i].asset_id == asset {
                proof {
                    lemma_bank_slot(self.banks@, i as int);
                }
                return Some(i);
            }
            i = i + 1;
        }
        None
    }

    /// The index of the record of `owner`, if there is one.
    pub fn find_user(&self, owner: Address) -> (r: Option<usize>)
        requires
            self.wf(),
        ensures
            match r {
                Some(i) => self.has_user(owner) && i == user_slot(self.users@, owner) && i
                    < self.users@.len() && self.users@[i as int].owner == owner,
                None => !self.has_user(owner),
            },
    {
        let mut i: usize = 0;
        while i < self.users.len()
            invariant
                i <= self.users.len(),
                self.wf(),
                forall|j: int| 0 <= j < i ==> (#[trigger] self.users@[j]).owner != owner,
            decreases self.users.len() - i,
        {
            if self.users[i].owner == owner {
                proof {
                    lemma_user_slot(self.users@, i as int);
                }
                return Some(i);
            }
            i = i + 1;
        }
        None
    }
}

} // verus!
