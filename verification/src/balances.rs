//! The balances of a ledger as a mathematical map, and what each call does
//! to them.
//!
//! The map is total: it gives a balance to every identity, and zero to one
//! that was never credited.

use vstd::prelude::*;

verus! {

/// The balances before any call: every identity holds nothing.
pub open spec fn opening() -> Map<Seq<u8>, nat> {
    Map::total(|user: Seq<u8>| 0nat)
}

/// The balances once `user` has received `amount`.
pub open spec fn credited(balances: Map<Seq<u8>, nat>, user: Seq<u8>, amount: nat) -> Map<
    Seq<u8>,
    nat,
> {
    balances.insert(user, balances[user] + amount)
}

/// Whether `user` holds at least `amount`.
pub open spec fn covers(balances: Map<Seq<u8>, nat>, user: Seq<u8>, amount: nat) -> bool {
    balances[user] >= amount
}

/// The balances once `user` has been asked to give `amount`: with `amount`
/// taken from `user` where `user` holds that much, and unchanged otherwise.
pub open spec fn debited(balances: Map<Seq<u8>, nat>, user: Seq<u8>, amount: nat) -> Map<
    Seq<u8>,
    nat,
> {
    if covers(balances, user, amount) {
        balances.insert(user, (balances[user] - amount) as nat)
    } else {
        balances
    }
}

/// A call that changes or could change the ledger: the identity that makes
/// it and the amount it names.
pub enum Call {
    Deposit(Seq<u8>, nat),
    Withdraw(Seq<u8>, nat),
    Lend(Seq<u8>, nat),
    Borrow(Seq<u8>, nat),
    YieldFarm,
}

/// The balances after `call` has been served on `balances`.
pub open spec fn after(balances: Map<Seq<u8>, nat>, call: Call) -> Map<Seq<u8>, nat> {
    match call {
        Call::Deposit(caller, amount) => credited(balances, caller, amount),
        Call::Withdraw(caller, amount) => debited(balances, caller, amount),
        Call::Lend(caller, amount) => debited(balances, caller, amount),
        Call::Borrow(caller, amount) => credited(balances, caller, amount),
        Call::YieldFarm => balances,
    }
}

/// The balances after the calls of `history` have been served in order,
/// starting from `balances`.
pub open spec fn replay(balances: Map<Seq<u8>, nat>, history: Seq<Call>) -> Map<Seq<u8>, nat>
    decreases history.len(),
{
    if history.len() == 0 {
        balances
    } else {
        after(replay(balances, history.drop_last()), history.last())
    }
}

/// The identity that makes `call`, if the call has one.
pub open spec fn caller_of(call: Call) -> Option<Seq<u8>> {
    match call {
        Call::Deposit(caller, _) => Some(caller),
        Call::Withdraw(caller, _) => Some(caller),
        Call::Lend(caller, _) => Some(caller),
        Call::Borrow(caller, _) => Some(caller),
        Call::YieldFarm => None,
    }
}

/// Whether `call` adds to the balance of `user`: a deposit or a borrow that
/// `user` makes.
pub open spec fn credits(call: Call, user: Seq<u8>) -> bool {
    (call is Deposit || call is Borrow) && caller_of(call) == Some(user)
}

} // verus!
