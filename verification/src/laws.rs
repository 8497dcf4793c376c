//! What holds of the calls, whatever the balances and the history.

use vstd::prelude::*;
use crate::balances::{after, caller_of, credits, opening, replay, Call};
use crate::replies::{lend_reply, withdraw_reply};

verus! {

/// A call changes no balance but that of the identity that makes it.
pub proof fn call_touches_only_its_caller(balances: Map<Seq<u8>, nat>, call: Call, user: Seq<u8>)
    requires
        caller_of(call) != Some(user),
    ensures
        after(balances, call)[user] == balances[user],
{
}

/// A call that does not credit an identity does not raise what it holds.
pub proof fn only_credits_raise(balances: Map<Seq<u8>, nat>, call: Call, user: Seq<u8>)
    requires
        !credits(call, user),
    ensures
        after(balances, call)[user] <= balances[user],
{
}

/// An identity holds nothing after a history, from the opening balances on,
/// in which no call credited it: whatever else it or others asked for.
pub proof fn never_credited_holds_nothing(history: Seq<Call>, user: Seq<u8>)
    requires
        forall|i: int| 0 <= i < history.len() ==> !credits(#[trigger] history[i], user),
    ensures
        replay(opening(), history)[user] == 0,
    decreases history.len(),
{
    if history.len() > 0 {
        let earlier = history.drop_last();
        assert forall|i: int| 0 <= i < earlier.len() implies !credits(
            #[trigger] earlier[i],
            user,
        ) by {
            assert(earlier[i] == history[i]);
        }
        never_credited_holds_nothing(earlier, user);
        only_credits_raise(replay(opening(), earlier), history.last(), user);
    }
}

/// A lend does to the balances what a withdrawal of the same amount by the
/// same caller does, on every balance; the two replies always differ.
pub proof fn lend_moves_balances_as_withdraw(
    balances: Map<Seq<u8>, nat>,
    caller: Seq<u8>,
    amount: nat,
)
    ensures
        after(balances, Call::Lend(caller, amount)) == after(
            balances,
            Call::Withdraw(caller, amount),
        ),
        lend_reply(balances[caller], amount) != withdraw_reply(balances[caller], amount),
{
    reveal_strlit("Insufficient balance to lend.");
    reveal_strlit("Insufficient balance.");
    reveal_strlit("Lent ");
    reveal_strlit("Withdrew ");
    let lent = lend_reply(balances[caller], amount);
    let withdrawn = withdraw_reply(balances[caller], amount);
    if balances[caller] < amount {
        assert(lent.len() != withdrawn.len());
    } else {
        assert(lent[0] == 'L');
        assert(withdrawn[0] == 'W');
    }
}

/// A yield-farming call leaves every balance as it was.
pub proof fn yield_farm_changes_nothing(balances: Map<Seq<u8>, nat>)
    ensures
        after(balances, Call::YieldFarm) == balances,
{
}

} // verus!
