//! The origin of a dispatched call, and the check that it was signed.

use vstd::prelude::*;

verus! {

/// An account, identified by number.
pub type AccountId = u64;

/// Who dispatched a call.
#[derive(Clone, Copy, Debug, PartialEq, Eq)]
pub enum Origin {
    /// The system itself.
    Root,
    /// A signed call of the given account.
    Signed(AccountId),
    /// An unsigned call.
    Unsigned,
}

impl Origin {
    /// A call signed by `who`.
    pub fn signed(who: AccountId) -> (o: Origin)
        ensures
            o == Origin::Signed(who),
    {
        Origin::Signed(who)
    }
}

/// The refusal of a call that was not signed.
#[derive(Clone, Copy, Debug, PartialEq, Eq)]
pub struct BadOrigin;

/// The signer of a signed call; `BadOrigin` for any other origin.
pub fn ensure_signed(o: Origin) -> (r: Result<AccountId, BadOrigin>)
    ensures
        match o {
            Origin::Signed(who) => r == Ok::<AccountId, BadOrigin>(who),
            _ => r is Err,
        },
{
    match o {
        Origin::Signed(who) => Ok(who),
        _ => Err(BadOrigin),
    }
}

} // verus!
