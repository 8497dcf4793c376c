//! The texts that the ledger answers with.

use vstd::prelude::*;
use crate::decimal::{decimal, push_decimal};

verus! {

/// The reply to a deposit of `amount` that brought the balance to `balance`.
pub open spec fn deposit_reply(amount: nat, balance: nat) -> Seq<char> {
    "Deposited "@ + decimal(amount) + " sats. New balance: "@ + decimal(balance)
}

/// The reply to a withdrawal of `amount` asked of a caller who held
/// `balance`: a refusal where `balance` is less than `amount`, and otherwise
/// the amount with what is left.
pub open spec fn withdraw_reply(balance: nat, amount: nat) -> Seq<char> {
    if balance < amount {
        "Insufficient balance."@
    } else {
        "Withdrew "@ + decimal(amount) + " sats. New balance: "@ + decimal(
            (balance - amount) as nat,
        )
    }
}

/// The reply to a lend of `amount` asked of a caller who held `balance`: a
/// refusal where `balance` is less than `amount`, and otherwise the amount.
pub open spec fn lend_reply(balance: nat, amount: nat) -> Seq<char> {
    if balance < amount {
        "Insufficient balance to lend."@
    } else {
        "Lent "@ + decimal(amount) + " sats. (Simulated)"@
    }
}

/// The reply to a borrow of `amount`.
pub open spec fn borrow_reply(amount: nat) -> Seq<char> {
    "Borrowed "@ + decimal(amount) + " sats. (Simulated)"@
}

/// The reply to a yield-farming call.
pub open spec fn yield_farm_reply() -> Seq<char> {
    "Yield farming rewards distributed! (Simulated)"@
}

/// Writes `lead`, the numeral of `amount`, and `tail`, in that order.
pub(crate) fn amount_text(lead: &str, amount: u64, tail: &str) -> (text: String)
    ensures
        text@ == lead@ + decimal(amount as nat) + tail@,
{
    let mut text = lead.to_owned();
    push_decimal(&mut text, amount);
    text.append(tail);
    text
}

/// Writes `lead`, the numeral of `amount`, `middle` and the numeral of
/// `balance`, in that order.
pub(crate) fn amount_and_balance_text(
    lead: &str,
    amount: u64,
    middle: &str,
    balance: u64,
) -> (text: String)
    ensures
        text@ == lead@ + decimal(amount as nat) + middle@ + decimal(balance as nat),
{
    let mut text = amount_text(lead, amount, middle);
    push_decimal(&mut text, balance);
    text
}

} // verus!
