//! Who sends a call, and the errors a dispatchable returns.
use vstd::prelude::*;

verus! {

/// The account identifier of the runtime (an integer, as in the test runtime).
pub type AccountId = u64;

/// The origin of a call: the root, a signed account, or an unsigned call.
#[derive(Clone, Copy, Debug, PartialEq, Eq, Structural)]
pub enum Origin {
    Root,
    Signed(AccountId),
    Unsigned,
}

impl Origin {
    /// A call signed by `who`.
    pub fn signed(who: AccountId) -> (o: Origin)
        ensures
            o == Origin::Signed(who),
    {
        Origin::Signed(who)
    }
}

/// Arithmetic failures a dispatchable reports.
#[derive(Clone, Copy, Debug, PartialEq, Eq, Structural)]
pub enum ArithmeticError {
    Overflow,
}

/// Why a dispatchable was refused: a bad origin, an arithmetic failure, or an
/// error of the pallet itself.
#[derive(Clone, Copy, Debug, PartialEq, Eq)]
pub enum DispatchError<E> {
    BadOrigin,
    Arithmetic(ArithmeticError),
    Module(E),
}

/// The signer of `o`, if it is signed.
pub open spec fn signer(o: Origin) -> Option<AccountId> {
    match o {
        Origin::Signed(who) => Some(who),
        _ => None,
    }
}

/// Checks that `origin` is signed and returns the signer; any other origin is
/// refused with `BadOrigin`.
pub fn ensure_signed<E>(origin: Origin) -> (r: Result<AccountId, DispatchError<E>>)
    ensures
        match signer(origin) {
            Some(who) => r == Ok::<AccountId, DispatchError<E>>(who),
            None => r == Err::<AccountId, DispatchError<E>>(DispatchError::BadOrigin),
        },
{
    match origin {
        Origin::Signed(who) => Ok(who),
        _ => Err(DispatchError::BadOrigin),
    }
}

} // verus!
