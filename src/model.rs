use vstd::prelude::*;

verus! {

/// An investment as the ledger's model sees it.
pub struct InvestmentModel {
    pub owner: Seq<char>,
    pub amount: int,
}

/// The abstract ledger: balances by account, live investments by id, and
/// the id that the next purchase receives.
pub struct Ledger {
    pub balances: Map<Seq<char>, int>,
    pub investments: Map<int, InvestmentModel>,
    pub next_id: int,
}

/// Why an operation of the ledger was refused.
#[derive(Clone, Copy, Debug, PartialEq, Eq, Structural)]
pub enum BankError {
    InvalidAmount,
    UnknownAccount,
    InsufficientFunds,
    UnknownInvestment,
    NotOwner,
}

/// The ledger with no accounts, no investments, and ids starting at zero.
pub open spec fn empty_ledger() -> Ledger {
    Ledger { balances: Map::empty(), investments: Map::empty(), next_id: 0 }
}

/// The invariant of a ledger: finitely many entries, balances never
/// negative, investments strictly positive, every live id below `next_id`.
pub open spec fn ledger_wf(s: Ledger) -> bool {
    &&& s.balances.dom().finite()
    &&& s.investments.dom().finite()
    &&& s.next_id >= 0
    &&& forall|a: Seq<char>| #[trigger] s.balances.contains_key(a) ==> s.balances[a] >= 0
    &&& forall|id: int|
        #[trigger] s.investments.contains_key(id) ==> 0 <= id < s.next_id
            && s.investments[id].amount > 0
}

/// Adds `amount` to the balance of `account`, opening it if absent.
pub open spec fn credit(b: Map<Seq<char>, int>, account: Seq<char>, amount: int) -> Map<
    Seq<char>,
    int,
> {
    if b.contains_key(account) {
        b.insert(account, b[account] + amount)
    } else {
        b.insert(account, amount)
    }
}

/// The guards shared by every debit, in the order they are checked.
pub open spec fn debit_error(s: Ledger, account: Seq<char>, amount: int) -> Option<BankError> {
    if amount <= 0 {
        Some(BankError::InvalidAmount)
    } else if !s.balances.contains_key(account) {
        Some(BankError::UnknownAccount)
    } else if s.balances[account] < amount {
        Some(BankError::InsufficientFunds)
    } else {
        None
    }
}

/// Deposit: refused unless the amount is positive; opens the account if absent.
pub open spec fn deposit_model(s: Ledger, account: Seq<char>, amount: int) -> Result<
    Ledger,
    BankError,
> {
    if amount <= 0 {
        Err(BankError::InvalidAmount)
    } else {
        Ok(
            Ledger {
                balances: credit(s.balances, account, amount),
                investments: s.investments,
                next_id: s.next_id,
            },
        )
    }
}

/// Withdraw: the debit guards, then the balance goes down by the amount.
pub open spec fn withdraw_model(s: Ledger, account: Seq<char>, amount: int) -> Result<
    Ledger,
    BankError,
> {
    match debit_error(s, account, amount) {
        Some(e) => Err(e),
        None => Ok(
            Ledger {
                balances: s.balances.insert(account, s.balances[account] - amount),
                investments: s.investments,
                next_id: s.next_id,
            },
        ),
    }
}

/// Transfer: the debit guards on the sender, then the sender is debited and
/// the receiver credited, in that order (so a self-transfer changes nothing).
pub open spec fn transfer_model(
    s: Ledger,
    sender: Seq<char>,
    receiver: Seq<char>,
    amount: int,
) -> Result<Ledger, BankError> {
    match debit_error(s, sender, amount) {
        Some(e) => Err(e),
        None => Ok(
            Ledger {
                balances: credit(
                    s.balances.insert(sender, s.balances[sender] - amount),
                    receiver,
                    amount,
                ),
                investments: s.investments,
                next_id: s.next_id,
            },
        ),
    }
}

/// Buy an investment: the debit guards, then the buyer is debited and a new
/// investment is recorded under `next_id`, which moves up by one.
pub open spec fn buy_model(s: Ledger, buyer: Seq<char>, amount: int) -> Result<Ledger, BankError> {
    match debit_error(s, buyer, amount) {
        Some(e) => Err(e),
        None => Ok(
            Ledger {
                balances: s.balances.insert(buyer, s.balances[buyer] - amount),
                investments: s.investments.insert(
                    s.next_id,
                    InvestmentModel { owner: buyer, amount },
                ),
                next_id: s.next_id + 1,
            },
        ),
    }
}

/// Sell an investment: it must exist and belong to the seller; its amount is
/// credited to the seller and the record removed.
pub open spec fn sell_model(s: Ledger, seller: Seq<char>, id: int) -> Result<Ledger, BankError> {
    if !s.investments.contains_key(id) {
        Err(BankError::UnknownInvestment)
    } else if s.investments[id].owner != seller {
        Err(BankError::NotOwner)
    } else {
        Ok(
            Ledger {
                balances: credit(s.balances, seller, s.investments[id].amount),
                investments: s.investments.remove(id),
                next_id: s.next_id,
            },
        )
    }
}

} // verus!
