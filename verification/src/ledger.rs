//! The ledger store.

use vstd::prelude::*;
use crate::balances::{after, credited, debited, opening, Call};
use crate::identity::UserId;
use crate::replies::{
    amount_and_balance_text, amount_text, borrow_reply, deposit_reply, lend_reply,
    withdraw_reply, yield_farm_reply,
};

verus! {

/// One account: an identity and what it holds.
struct Account {
    owner: UserId,
    balance: u64,
}

/// Whether some account of `accounts` belongs to `user`.
spec fn has_account(accounts: Seq<Account>, user: Seq<u8>) -> bool {
    exists|i: int| 0 <= i < accounts.len() && accounts[i].owner@ == user
}

/// The place of an account of `user` in `accounts`, where there is one.
spec fn account_of(accounts: Seq<Account>, user: Seq<u8>) -> int {
    choose|i: int| 0 <= i < accounts.len() && accounts[i].owner@ == user
}

/// What `user` holds in `accounts`: nothing without an account.
spec fn held(accounts: Seq<Account>, user: Seq<u8>) -> nat {
    if has_account(accounts, user) {
        accounts[account_of(accounts, user)].balance as nat
    } else {
        0
    }
}

/// Whether no identity has two accounts in `accounts`.
spec fn one_each(accounts: Seq<Account>) -> bool {
    forall|i: int, j: int|
        0 <= i < j < accounts.len() ==> accounts[i].owner@ != accounts[j].owner@
}

/// The account at place `i` is the one that speaks for its owner.
proof fn lemma_held_at(accounts: Seq<Account>, i: int)
    requires
        one_each(accounts),
        0 <= i < accounts.len(),
    ensures
        has_account(accounts, accounts[i].owner@),
        held(accounts, accounts[i].owner@) == accounts[i].balance,
{
    let j = account_of(accounts, accounts[i].owner@);
    assert(i == j) by {
        if i < j {
            assert(accounts[i].owner@ != accounts[j].owner@);
        } else if j < i {
            assert(accounts[j].owner@ != accounts[i].owner@);
        }
    }
}

/// Writing a new balance into the account at place `i` changes what its
/// owner holds and nothing else.
proof fn lemma_balance_set(before: Seq<Account>, now: Seq<Account>, i: int)
    requires
        one_each(before),
        0 <= i < before.len(),
        now.len() == before.len(),
        forall|k: int|
            0 <= k < before.len() ==> (#[trigger] now[k]).owner@ == before[k].owner@,
        forall|k: int|
            0 <= k < before.len() && k != i ==> (#[trigger] now[k]).balance
                == before[k].balance,
    ensures
        one_each(now),
        forall|user: Seq<u8>|
            #[trigger] held(now, user) == if user == before[i].owner@ {
                now[i].balance as nat
            } else {
                held(before, user)
            },
{
    assert forall|user: Seq<u8>|
        #[trigger] held(now, user) == if user == before[i].owner@ {
            now[i].balance as nat
        } else {
            held(before, user)
        } by {
        if has_account(before, user) {
            let k = account_of(before, user);
            lemma_held_at(before, k);
            lemma_held_at(now, k);
        } else if has_account(now, user) {
            let k = account_of(now, user);
            assert(before[k].owner@ == user);
        }
    }
}

/// A new account for an identity that had none changes what that identity
/// holds and nothing else.
proof fn lemma_account_opened(before: Seq<Account>, account: Account)
    requires
        one_each(before),
        !has_account(before, account.owner@),
    ensures
        one_each(before.push(account)),
        forall|user: Seq<u8>|
            #[trigger] held(before.push(account), user) == if user == account.owner@ {
                account.balance as nat
            } else {
                held(before, user)
            },
{
    let now = before.push(account);
    assert(one_each(now)) by {
        assert forall|i: int, j: int| 0 <= i < j < now.len() implies now[i].owner@
            != now[j].owner@ by {
            if j == before.len() {
                assert(before[i].owner@ != account.owner@);
            }
        }
    }
    assert forall|user: Seq<u8>|
        #[trigger] held(now, user) == if user == account.owner@ {
            account.balance as nat
        } else {
            held(before, user)
        } by {
        if user == account.owner@ {
            lemma_held_at(now, before.len() as int);
        } else if has_account(before, user) {
            let k = account_of(before, user);
            lemma_held_at(before, k);
            assert(now[k] == before[k]);
            lemma_held_at(now, k);
        } else if has_account(now, user) {
            let k = account_of(now, user);
            assert(before[k].owner@ == user);
        }
    }
}

/// A ledger: a balance for every identity, zero until the identity is
/// credited.
pub struct Ledger {
    accounts: Vec<Account>,
}

impl View for Ledger {
    type V = Map<Seq<u8>, nat>;

    closed spec fn view(&self) -> Map<Seq<u8>, nat> {
        Map::total(|user: Seq<u8>| held(self.accounts@, user))
    }
}

impl Ledger {
    /// No identity has two accounts.
    #[verifier::type_invariant]
    spec fn one_account_each(&self) -> bool {
        one_each(self.accounts@)
    }

    /// Every identity has a balance, and every balance is a `u64`.
    pub proof fn balances_are_total_and_bounded(&self)
        ensures
            self@.dom().is_full(),
            forall|user: Seq<u8>| #[trigger] self@[user] <= u64::MAX,
    {
    }

    /// A ledger in which nobody holds anything.
    pub fn new() -> (ledger: Ledger)
        ensures
            ledger@ == opening(),
    {
        let ledger = Ledger { accounts: Vec::new() };
        assert(ledger@ =~= opening());
        ledger
    }

    /// The place of the account of `user`, if `user` has one.
    fn find(&self, user: &UserId) -> (place: Option<usize>)
        ensures
            match place {
                Some(i) => i < self.accounts.len() && self.accounts[i as int].owner@ == user@,
                None => !has_account(self.accounts@, user@),
            },
    {
        let mut i: usize = 0;
        while i < self.accounts.len()
            invariant
                i <= self.accounts.len(),
                forall|k: int| 0 <= k < i ==> self.accounts[k].owner@ != user@,
            decreases self.accounts.len() - i,
        {
            if self.accounts[i].owner == *user {
                return Some(i);
            }
            i += 1;
        }
        None
    }

    /// The balance of `user`: zero for an identity that was never credited.
    pub fn get_balance(&self, user: &UserId) -> (balance: u64)
        ensures
            balance == self@[user@],
    {
        proof {
            use_type_invariant(self);
        }
        match self.find(user) {
            Some(i) => self.accounts[i].balance,
            None => 0,
        }
    }

    /// Whether `amount` on top of what `user` holds is still a `u64`: whether
    /// `user` may deposit or borrow `amount`.
    pub fn has_room(&self, user: &UserId, amount: u64) -> (room: bool)
        ensures
            room == (self@[user@] + amount <= u64::MAX),
    {
        self.get_balance(user) <= u64::MAX - amount
    }

    /// Adds `amount` to what `caller` holds and returns the new balance.
    fn credit(&mut self, caller: &UserId, amount: u64) -> (total: u64)
        requires
            old(self)@[caller@] + amount <= u64::MAX,
        ensures
            final(self)@ == credited(old(self)@, caller@, amount as nat),
            total == final(self)@[caller@],
    {
        proof {
            use_type_invariant(&*self);
        }
        let place = self.find(caller);
        let mut accounts: Vec<Account> = Vec::new();
        std::mem::swap(&mut accounts, &mut self.accounts);
        let total: u64 = match place {
            Some(i) => {
                proof {
                    lemma_held_at(accounts@, i as int);
                }
                let total: u64 = accounts[i].balance + amount;
                accounts[i].balance = total;
                proof {
                    lemma_balance_set(old(self).accounts@, accounts@, i as int);
                }
                total
            },
            None => {
                let account = Account { owner: caller.clone(), balance: amount };
                proof {
                    lemma_account_opened(accounts@, account);
                }
                accounts.push(account);
                amount
            },
        };
        self.accounts = accounts;
        assert(self@ =~= credited(old(self)@, caller@, amount as nat));
        total
    }

    /// Takes `amount` from what `caller` holds, if `caller` holds that much,
    /// and returns what is left; changes nothing and returns `None`
    /// otherwise.
    fn debit(&mut self, caller: &UserId, amount: u64) -> (left: Option<u64>)
        ensures
            final(self)@ == debited(old(self)@, caller@, amount as nat),
            left == if old(self)@[caller@] < amount {
                None
            } else {
                Some((old(self)@[caller@] - amount) as u64)
            },
    {
        proof {
            use_type_invariant(&*self);
        }
        match self.find(caller) {
            Some(i) => {
                proof {
                    lemma_held_at(self.accounts@, i as int);
                }
                let balance: u64 = self.accounts[i].balance;
                if balance < amount {
                    None
                } else {
                    let left: u64 = balance - amount;
                    let mut accounts: Vec<Account> = Vec::new();
                    std::mem::swap(&mut accounts, &mut self.accounts);
                    accounts[i].balance = left;
                    proof {
                        lemma_balance_set(old(self).accounts@, accounts@, i as int);
                    }
                    self.accounts = accounts;
                    assert(self@ =~= debited(old(self)@, caller@, amount as nat));
                    Some(left)
                }
            },
            None => {
                if amount > 0 {
                    None
                } else {
                    assert(self@ =~= debited(old(self)@, caller@, amount as nat));
                    Some(0)
                }
            },
        }
    }

    /// Adds `amount` to the balance of `caller` and reports the amount and
    /// the new balance.
    ///
    /// The new balance has to fit in a `u64`; [`Ledger::has_room`] tells
    /// whether it does.
    pub fn deposit(&mut self, caller: &UserId, amount: u64) -> (reply: String)
        requires
            old(self)@[caller@] + amount <= u64::MAX,
        ensures
            final(self)@ == after(old(self)@, Call::Deposit(caller@, amount as nat)),
            final(self)@[caller@] == old(self)@[caller@] + amount,
            reply@ == deposit_reply(amount as nat, final(self)@[caller@]),
    {
        let total = self.credit(caller, amount);
        amount_and_balance_text("Deposited ", amount, " sats. New balance: ", total)
    }

    /// Takes `amount` from the balance of `caller` and reports the amount
    /// and what is left, or refuses and changes nothing where `caller`
    /// holds less than `amount`.
    pub fn withdraw(&mut self, caller: &UserId, amount: u64) -> (reply: String)
        ensures
            final(self)@ == after(old(self)@, Call::Withdraw(caller@, amount as nat)),
            old(self)@[caller@] < amount ==> final(self)@ == old(self)@,
            old(self)@[caller@] >= amount ==> final(self)@[caller@] == old(self)@[caller@]
                - amount,
            reply@ == withdraw_reply(old(self)@[caller@], amount as nat),
    {
        match self.debit(caller, amount) {
            Some(left) => amount_and_balance_text(
                "Withdrew ",
                amount,
                " sats. New balance: ",
                left,
            ),
            None => "Insufficient balance.".to_owned(),
        }
    }

    /// Takes `amount` from the balance of `caller` as a withdrawal does, and
    /// reports the amount as lent, or refuses and changes nothing where
    /// `caller` holds less than `amount`. Nothing records a borrower.
    pub fn lend(&mut self, caller: &UserId, amount: u64) -> (reply: String)
        ensures
            final(self)@ == after(old(self)@, Call::Lend(caller@, amount as nat)),
            old(self)@[caller@] < amount ==> final(self)@ == old(self)@,
            old(self)@[caller@] >= amount ==> final(self)@[caller@] == old(self)@[caller@]
                - amount,
            reply@ == lend_reply(old(self)@[caller@], amount as nat),
    {
        match self.debit(caller, amount) {
            Some(_) => amount_text("Lent ", amount, " sats. (Simulated)"),
            None => "Insufficient balance to lend.".to_owned(),
        }
    }

    /// Adds `amount` to the balance of `caller` as a deposit does, and
    /// reports the amount as borrowed. Nothing records a lender or a debt.
    ///
    /// The new balance has to fit in a `u64`; [`Ledger::has_room`] tells
    /// whether it does.
    pub fn borrow(&mut self, caller: &UserId, amount: u64) -> (reply: String)
        requires
            old(self)@[caller@] + amount <= u64::MAX,
        ensures
            final(self)@ == after(old(self)@, Call::Borrow(caller@, amount as nat)),
            final(self)@[caller@] == old(self)@[caller@] + amount,
            reply@ == borrow_reply(amount as nat),
    {
        let _ = self.credit(caller, amount);
        amount_text("Borrowed ", amount, " sats. (Simulated)")
    }
}

impl Default for Ledger {
    /// A ledger in which nobody holds anything.
    fn default() -> (ledger: Ledger)
        ensures
            ledger@ == opening(),
    {
        Ledger::new()
    }
}

/// Reports that rewards were distributed. It reads no ledger and changes
/// none.
pub fn yield_farm() -> (reply: String)
    ensures
        reply@ == yield_farm_reply(),
{
    "Yield farming rewards distributed! (Simulated)".to_owned()
}

} // verus!
