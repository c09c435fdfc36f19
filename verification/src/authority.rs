//! Transfer authorization: who signs for a movement of tokens, and the
//! transfer that an operation asks for.
//!
//! The tokens of a bank sit in a custodial account that no wallet owns. The
//! account is its own authority, and the pool signs for it with seeds that
//! are bound to the asset and to the role of treasury.

use vstd::prelude::*;
use crate::address::Address;

verus! {

/// The tag of the treasury role in the signer seeds: the bytes of `Treasury`.
pub open spec fn treasury_tag() -> Seq<u8> {
    seq![84u8, 114u8, 101u8, 97u8, 115u8, 117u8, 114u8, 121u8]
}

/// The capability to release funds from the treasury of one asset.
#[derive(Clone, Copy, Debug, PartialEq, Eq)]
pub struct TreasuryAuthority {
    /// The asset whose treasury the authority is for.
    pub asset_id: Address,
    /// The nonce that makes the treasury's address unique.
    pub bump: u8,
}

impl TreasuryAuthority {
    /// The signer seeds: the treasury tag, the asset's bytes, the nonce.
    pub open spec fn seeds(self) -> Seq<Seq<u8>> {
        seq![treasury_tag(), self.asset_id.bytes@, seq![self.bump]]
    }

    /// The authority for the treasury of `asset_id` with nonce `bump`.
    pub fn new(asset_id: Address, bump: u8) -> (authority: TreasuryAuthority)
        ensures
            authority == (TreasuryAuthority { asset_id, bump }),
    {
        TreasuryAuthority { asset_id, bump }
    }

    /// The signer seeds to present with a transfer out of the treasury.
    pub fn signer_seeds(&self) -> (seeds: Vec<Vec<u8>>)
        ensures
            seeds.deep_view() == self.seeds(),
    {
        let mut tag: Vec<u8> = Vec::new();
        tag.push(84u8);
        tag.push(114u8);
        tag.push(101u8);
        tag.push(97u8);
        tag.push(115u8);
        tag.push(117u8);
        tag.push(114u8);
        tag.push(121u8);
        let asset = self.asset_id.to_vec();
        let mut nonce: Vec<u8> = Vec::new();
        nonce.push(self.bump);
        let mut seeds: Vec<Vec<u8>> = Vec::new();
        seeds.push(tag);
        seeds.push(asset);
        seeds.push(nonce);
        assert(seeds.deep_view() =~~= self.seeds());
        seeds
    }
}

/// A movement of tokens that belongs to an operation: the operation's
/// changes stand only if the transfer is made.
#[derive(Clone, Copy, Debug, PartialEq, Eq)]
pub struct Transfer {
    /// The token account that the tokens leave.
    pub from: Address,
    /// The token account that the tokens reach.
    pub to: Address,
    /// The account that authorizes the movement.
    pub authority: Address,
    /// The asset moved.
    pub mint: Address,
    /// The amount moved.
    pub amount: u64,
    /// The decimals of the asset, which the transfer is checked against.
    pub decimals: u8,
    /// The treasury authority that signs, where the pool releases funds;
    /// `None` where the wallet in `authority` signs.
    pub signer: Option<TreasuryAuthority>,
}

/// The transfer by which a wallet pays `amount` into the treasury.
pub open spec fn transfer_in(
    wallet: Address,
    user_token_account: Address,
    bank_token_account: Address,
    mint: Address,
    decimals: u8,
    amount: u64,
) -> Transfer {
    Transfer {
        from: user_token_account,
        to: bank_token_account,
        authority: wallet,
        mint,
        amount,
        decimals,
        signer: None,
    }
}

/// The transfer by which the treasury pays `amount` out, signed by the
/// treasury authority of the asset.
pub open spec fn transfer_out(
    bank_token_account: Address,
    user_token_account: Address,
    mint: Address,
    decimals: u8,
    bump: u8,
    amount: u64,
) -> Transfer {
    Transfer {
        from: bank_token_account,
        to: user_token_account,
        authority: bank_token_account,
        mint,
        amount,
        decimals,
        signer: Some(TreasuryAuthority { asset_id: mint, bump }),
    }
}

} // verus!
