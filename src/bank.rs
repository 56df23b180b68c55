use vstd::prelude::*;

use crate::entries::{
    entries_map, keys_unique, lemma_entries_dom, lemma_entries_get, lemma_entries_push,
    lemma_entries_remove, lemma_entries_update,
};
use crate::model::{
    buy_model, credit, debit_error, deposit_model, empty_ledger, ledger_wf, sell_model,
    transfer_model, withdraw_model, BankError, InvestmentModel, Ledger,
};
use crate::num::BigNum;

verus! {

/// A live investment: who bought it and for how much.
#[derive(Clone, Debug)]
pub struct Investment {
    pub owner: String,
    pub amount: BigNum,
}

/// The ledger: one entry per account that has ever received funds, one per
/// live investment, and the id the next purchase receives.
#[derive(Clone, Debug)]
pub struct BankState {
    pub balances: Vec<(String, BigNum)>,
    pub investments: Vec<(BigNum, Investment)>,
    pub next_id: BigNum,
}

/// The balances as (account, value) pairs.
pub open spec fn balance_entries(v: Seq<(String, BigNum)>) -> Seq<(Seq<char>, int)> {
    v.map_values(|e: (String, BigNum)| (e.0@, e.1@))
}

/// The investments as (id, investment) pairs.
pub open spec fn investment_entries(v: Seq<(BigNum, Investment)>) -> Seq<(int, InvestmentModel)> {
    v.map_values(|e: (BigNum, Investment)| (e.0@, InvestmentModel { owner: e.1.owner@, amount: e.1.amount@ }))
}

impl View for BankState {
    type V = Ledger;

    open spec fn view(&self) -> Ledger {
        Ledger {
            balances: entries_map(balance_entries(self.balances@)),
            investments: entries_map(investment_entries(self.investments@)),
            next_id: self.next_id@,
        }
    }
}

/// The outcome `r` of an operation that took the ledger from `before` to
/// `after` is the one that the model `m` gives: on success the new ledger is
/// the model's, on failure the error is the model's and nothing has changed.
pub open spec fn follows_model(
    r: Result<(), BankError>,
    before: BankState,
    after: BankState,
    m: Result<Ledger, BankError>,
) -> bool {
    match m {
        Ok(t) => r is Ok && after@ == t,
        Err(e) => r == Err::<(), BankError>(e) && after == before,
    }
}

/// Index of the entry of `account`, if there is one.
fn find_account(v: &Vec<(String, BigNum)>, account: &String) -> (r: Option<usize>)
    ensures
        match r {
            Some(i) => i < v@.len() && v@[i as int].0@ == account@,
            None => forall|i: int| 0 <= i < v@.len() ==> v@[i].0@ != account@,
        },
{
    let mut i: usize = 0;
    while i < v.len()
        invariant
            i <= v@.len(),
            forall|j: int| 0 <= j < i ==> v@[j].0@ != account@,
        decreases v@.len() - i,
    {
        if v[i].0 == *account {
            return Some(i);
        }
        i = i + 1;
    }
    None
}

/// Index of the investment whose id has the value of `id`, if there is one.
fn find_investment(v: &Vec<(BigNum, Investment)>, id: &BigNum) -> (r: Option<usize>)
    ensures
        match r {
            Some(i) => i < v@.len() && v@[i as int].0@ == id@,
            None => forall|i: int| 0 <= i < v@.len() ==> v@[i].0@ != id@,
        },
{
    let mut i: usize = 0;
    while i < v.len()
        invariant
            i <= v@.len(),
            forall|j: int| 0 <= j < i ==> v@[j].0@ != id@,
        decreases v@.len() - i,
    {
        if v[i].0.equals(id) {
            return Some(i);
        }
        i = i + 1;
    }
    None
}

/// Whether no account occurs twice.
fn balance_keys_unique(v: &Vec<(String, BigNum)>) -> (r: bool)
    ensures
        r == keys_unique(balance_entries(v@)),
{
    let ghost es = balance_entries(v@);
    let mut i: usize = 0;
    while i < v.len()
        invariant
            i <= v@.len(),
            es == balance_entries(v@),
            forall|a: int, b: int| 0 <= a < b < v@.len() && a < i ==> es[a].0 != es[b].0,
        decreases v@.len() - i,
    {
        let mut j: usize = i + 1;
        while j < v.len()
            invariant
                i < v@.len(),
                i + 1 <= j <= v@.len(),
                es == balance_entries(v@),
                forall|a: int, b: int| 0 <= a < b < v@.len() && a < i ==> es[a].0 != es[b].0,
                forall|b: int| i < b < j ==> es[i as int].0 != es[b].0,
            decreases v@.len() - j,
        {
            if v[i].0 == v[j].0 {
                proof {
                    assert(es[i as int].0 == es[j as int].0);
                }
                return false;
            }
            j = j + 1;
        }
        i = i + 1;
    }
    true
}

/// Whether no investment id occurs twice.
fn investment_keys_unique(v: &Vec<(BigNum, Investment)>) -> (r: bool)
    ensures
        r == keys_unique(investment_entries(v@)),
{
    let ghost es = investment_entries(v@);
    let mut i: usize = 0;
    while i < v.len()
        invariant
            i <= v@.len(),
            es == investment_entries(v@),
            forall|a: int, b: int| 0 <= a < b < v@.len() && a < i ==> es[a].0 != es[b].0,
        decreases v@.len() - i,
    {
        let mut j: usize = i + 1;
        while j < v.len()
            invariant
                i < v@.len(),
                i + 1 <= j <= v@.len(),
                es == investment_entries(v@),
                forall|a: int, b: int| 0 <= a < b < v@.len() && a < i ==> es[a].0 != es[b].0,
                forall|b: int| i < b < j ==> es[i as int].0 != es[b].0,
            decreases v@.len() - j,
        {
            if v[i].0.equals(&v[j].0) {
                proof {
                    assert(es[i as int].0 == es[j as int].0);
                }
                return false;
            }
            j = j + 1;
        }
        i = i + 1;
    }
    true
}

impl BankState {
    /// Tests the representation invariant, for a ledger built from outside
    /// data such as the first snapshot of a trace.
    pub fn check_wf(&self) -> (r: bool)
        ensures
            r == self.wf(),
    {
        proof {
            self.lemma_finite();
        }
        if !balance_keys_unique(&self.balances) {
            return false;
        }
        if !investment_keys_unique(&self.investments) {
            return false;
        }
        let zero = BigNum::zero();
        if self.next_id.less_than(&zero) {
            return false;
        }
        let ghost bes = balance_entries(self.balances@);
        let ghost ies = investment_entries(self.investments@);
        let mut i: usize = 0;
        while i < self.balances.len()
            invariant
                i <= self.balances@.len(),
                bes == balance_entries(self.balances@),
                keys_unique(bes),
                zero@ == 0,
                forall|k: int| 0 <= k < i ==> bes[k].1 >= 0,
            decreases self.balances@.len() - i,
        {
            if self.balances[i].1.less_than(&zero) {
                proof {
                    lemma_entries_get(bes, i as int);
                    assert(self@.balances.contains_key(bes[i as int].0));
                }
                return false;
            }
            i = i + 1;
        }
        let mut j: usize = 0;
        while j < self.investments.len()
            invariant
                j <= self.investments@.len(),
                ies == investment_entries(self.investments@),
                keys_unique(ies),
                zero@ == 0,
                forall|k: int| 0 <= k < j ==> 0 <= #[trigger] ies[k].0 < self.next_id@ && ies[k].1.amount > 0,
            decreases self.investments@.len() - j,
        {
            let entry = &self.investments[j];
            if entry.0.less_than(&zero) || !entry.0.less_than(&self.next_id) || !entry.1.amount.is_positive() {
                proof {
                    lemma_entries_get(ies, j as int);
                    assert(self@.investments.contains_key(ies[j as int].0));
                }
                return false;
            }
            j = j + 1;
        }
        proof {
            assert forall|a: Seq<char>| #[trigger] self@.balances.contains_key(a) implies self@.balances[a] >= 0 by {
                lemma_entries_dom(bes, a);
                let k = choose|k: int| 0 <= k < bes.len() && bes[k].0 == a;
                lemma_entries_get(bes, k);
            }
            assert forall|id: int| #[trigger] self@.investments.contains_key(id) implies 0 <= id < self.next_id@
                && self@.investments[id].amount > 0 by {
                lemma_entries_dom(ies, id);
                let k = choose|k: int| 0 <= k < ies.len() && ies[k].0 == id;
                lemma_entries_get(ies, k);
            }
        }
        true
    }

    /// The representation invariant: keys unique, and the ledger invariant.
    pub open spec fn wf(&self) -> bool {
        &&& keys_unique(balance_entries(self.balances@))
        &&& keys_unique(investment_entries(self.investments@))
        &&& ledger_wf(self@)
    }

    proof fn lemma_finite(&self)
        ensures
            self@.balances.dom().finite(),
            self@.investments.dom().finite(),
    {
        lemma_entries_dom(balance_entries(self.balances@), Seq::empty());
        lemma_entries_dom(investment_entries(self.investments@), 0);
    }

    /// An empty ledger.
    pub fn new() -> (r: BankState)
        ensures
            r.wf(),
            r@ == empty_ledger(),
    {
        let r = BankState { balances: Vec::new(), investments: Vec::new(), next_id: BigNum::zero() };
        proof {
            assert(balance_entries(r.balances@) =~= Seq::empty());
            assert(investment_entries(r.investments@) =~= Seq::empty());
            assert(r@.balances =~= Map::empty());
            assert(r@.investments =~= Map::empty());
        }
        r
    }

    /// Adds a positive amount to an account, opening it if absent.
    fn credit_account(&mut self, account: String, amount: BigNum)
        requires
            keys_unique(balance_entries(old(self).balances@)),
            forall|a: Seq<char>| #[trigger] old(self)@.balances.contains_key(a) ==> old(self)@.balances[a] >= 0,
            amount@ > 0,
        ensures
            keys_unique(balance_entries(final(self).balances@)),
            final(self)@.balances == credit(old(self)@.balances, account@, amount@),
            final(self).investments == old(self).investments,
            final(self).next_id == old(self).next_id,
    {
        let ghost old_v = balance_entries(self.balances@);
        proof {
            lemma_entries_dom(old_v, account@);
        }
        match find_account(&self.balances, &account) {
            Some(i) => {
                proof {
                    assert(old_v[i as int].0 == account@);
                    lemma_entries_get(old_v, i as int);
                    assert(old(self)@.balances.contains_key(account@));
                    assert(old_v[i as int].1 == self.balances@[i as int].1@);
                }
                let sum = self.balances[i].1.add_natural(&amount);
                let ghost sum_v = sum@;
                self.balances[i] = (account, sum);
                proof {
                    assert(balance_entries(self.balances@) =~= old_v.update(i as int, (old_v[i as int].0, sum_v)));
                    lemma_entries_update(old_v, i as int, sum_v);
                }
            },
            None => {
                let ghost key = account@;
                let ghost val = amount@;
                self.balances.push((account, amount));
                proof {
                    assert(!entries_map(old_v).contains_key(key)) by {
                        if exists|j: int| 0 <= j < old_v.len() && old_v[j].0 == key {
                            let j = choose|j: int| 0 <= j < old_v.len() && old_v[j].0 == key;
                            assert(old_v[j].0 == old(self).balances@[j].0@);
                        }
                    }
                    assert(balance_entries(self.balances@) =~= old_v.push((key, val)));
                    lemma_entries_push(old_v, key, val);
                }
            },
        }
    }

    /// Checks the guards of a debit, in order, and finds the account's entry.
    fn debit_check(&self, account: &String, amount: &BigNum) -> (r: Result<usize, BankError>)
        requires
            self.wf(),
        ensures
            match debit_error(self@, account@, amount@) {
                Some(e) => r == Err::<usize, BankError>(e),
                None => r is Ok && r->Ok_0 < self.balances@.len()
                    && self.balances@[r->Ok_0 as int].0@ == account@,
            },
    {
        if !amount.is_positive() {
            return Err(BankError::InvalidAmount);
        }
        let ghost es = balance_entries(self.balances@);
        proof {
            lemma_entries_dom(es, account@);
        }
        match find_account(&self.balances, account) {
            None => {
                proof {
                    if exists|j: int| 0 <= j < es.len() && es[j].0 == account@ {
                        let j = choose|j: int| 0 <= j < es.len() && es[j].0 == account@;
                        assert(es[j].0 == self.balances@[j].0@);
                    }
                }
                Err(BankError::UnknownAccount)
            },
            Some(i) => {
                proof {
                    assert(es[i as int].0 == account@);
                    lemma_entries_get(es, i as int);
                }
                if self.balances[i].1.less_than(amount) {
                    Err(BankError::InsufficientFunds)
                } else {
                    Ok(i)
                }
            },
        }
    }

    /// Takes `amount` from the entry at `i`, which holds at least as much.
    fn debit_at(&mut self, i: usize, amount: &BigNum)
        requires
            old(self).wf(),
            i < old(self).balances@.len(),
            debit_error(old(self)@, old(self).balances@[i as int].0@, amount@) is None,
        ensures
            keys_unique(balance_entries(final(self).balances@)),
            final(self)@.balances == old(self)@.balances.insert(
                old(self).balances@[i as int].0@,
                old(self)@.balances[old(self).balances@[i as int].0@] - amount@,
            ),
            forall|a: Seq<char>| #[trigger] final(self)@.balances.contains_key(a) ==> final(self)@.balances[a] >= 0,
            final(self).investments == old(self).investments,
            final(self).next_id == old(self).next_id,
    {
        let ghost old_v = balance_entries(self.balances@);
        proof {
            lemma_entries_get(old_v, i as int);
        }
        let rest = self.balances[i].1.sub_natural(amount);
        let name = self.balances[i].0.clone();
        let ghost rest_v = rest@;
        self.balances[i] = (name, rest);
        proof {
            assert(balance_entries(self.balances@) =~= old_v.update(i as int, (old_v[i as int].0, rest_v)));
            lemma_entries_update(old_v, i as int, rest_v);
        }
    }

    /// Deposits into an account, opening it if absent.
    pub fn deposit(&mut self, depositor: String, amount: BigNum) -> (r: Result<(), BankError>)
        requires
            old(self).wf(),
        ensures
            final(self).wf(),
            follows_model(r, *old(self), *final(self), deposit_model(old(self)@, depositor@, amount@)),
    {
        if !amount.is_positive() {
            return Err(BankError::InvalidAmount);
        }
        self.credit_account(depositor, amount);
        proof {
            self.lemma_finite();
        }
        Ok(())
    }

    /// Debits an account.
    pub fn withdraw(&mut self, withdrawer: String, amount: BigNum) -> (r: Result<(), BankError>)
        requires
            old(self).wf(),
        ensures
            final(self).wf(),
            follows_model(r, *old(self), *final(self), withdraw_model(old(self)@, withdrawer@, amount@)),
    {
        let i = match self.debit_check(&withdrawer, &amount) {
            Ok(i) => i,
            Err(e) => return Err(e),
        };
        self.debit_at(i, &amount);
        proof {
            self.lemma_finite();
        }
        Ok(())
    }

    /// Moves an amount from one account to another.
    pub fn transfer(&mut self, sender: String, receiver: String, amount: BigNum) -> (r: Result<
        (),
        BankError,
    >)
        requires
            old(self).wf(),
        ensures
            final(self).wf(),
            follows_model(
                r,
                *old(self),
                *final(self),
                transfer_model(old(self)@, sender@, receiver@, amount@),
            ),
    {
        let i = match self.debit_check(&sender, &amount) {
            Ok(i) => i,
            Err(e) => return Err(e),
        };
        self.debit_at(i, &amount);
        self.credit_account(receiver, amount);
        proof {
            self.lemma_finite();
        }
        Ok(())
    }

    /// Turns part of a balance into a new investment.
    pub fn buy_investment(&mut self, buyer: String, amount: BigNum) -> (r: Result<(), BankError>)
        requires
            old(self).wf(),
        ensures
            final(self).wf(),
            follows_model(r, *old(self), *final(self), buy_model(old(self)@, buyer@, amount@)),
    {
        let i = match self.debit_check(&buyer, &amount) {
            Ok(i) => i,
            Err(e) => return Err(e),
        };
        self.debit_at(i, &amount);
        let ghost old_v = investment_entries(self.investments@);
        let ghost key = self.next_id@;
        let ghost val = InvestmentModel { owner: buyer@, amount: amount@ };
        proof {
            assert forall|j: int| 0 <= j < old_v.len() implies old_v[j].0 != key by {
                lemma_entries_get(old_v, j);
            }
        }
        let id = self.next_id.duplicate();
        self.investments.push((id, Investment { owner: buyer, amount }));
        let one = BigNum::from_u64(1);
        self.next_id = self.next_id.add_natural(&one);
        proof {
            assert(investment_entries(self.investments@) =~= old_v.push((key, val)));
            lemma_entries_push(old_v, key, val);
            self.lemma_finite();
        }
        Ok(())
    }

    /// Turns an investment back into balance for its owner.
    pub fn sell_investment(&mut self, seller: String, investment_id: BigNum) -> (r: Result<
        (),
        BankError,
    >)
        requires
            old(self).wf(),
        ensures
            final(self).wf(),
            follows_model(r, *old(self), *final(self), sell_model(old(self)@, seller@, investment_id@)),
    {
        let ghost old_v = investment_entries(self.investments@);
        proof {
            lemma_entries_dom(old_v, investment_id@);
        }
        let j = match find_investment(&self.investments, &investment_id) {
            Some(j) => j,
            None => {
                proof {
                    if exists|k: int| 0 <= k < old_v.len() && old_v[k].0 == investment_id@ {
                        let k = choose|k: int| 0 <= k < old_v.len() && old_v[k].0 == investment_id@;
                        assert(old_v[k].0 == self.investments@[k].0@);
                    }
                }
                return Err(BankError::UnknownInvestment);
            },
        };
        proof {
            assert(old_v[j as int].0 == investment_id@);
            lemma_entries_get(old_v, j as int);
        }
        if self.investments[j].1.owner != seller {
            return Err(BankError::NotOwner);
        }
        let (_, sold) = self.investments.remove(j);
        proof {
            assert(investment_entries(self.investments@) =~= old_v.remove(j as int));
            lemma_entries_remove(old_v, j as int);
        }
        self.credit_account(seller, sold.amount);
        proof {
            self.lemma_finite();
        }
        Ok(())
    }

    /// The balance of `account`, if it has an entry.
    pub fn balance_of(&self, account: &String) -> (r: Option<BigNum>)
        requires
            self.wf(),
        ensures
            match r {
                Some(b) => self@.balances.contains_key(account@) && b@ == self@.balances[account@],
                None => !self@.balances.contains_key(account@),
            },
    {
        let ghost es = balance_entries(self.balances@);
        proof {
            lemma_entries_dom(es, account@);
        }
        match find_account(&self.balances, account) {
            Some(i) => {
                proof {
                    assert(es[i as int].0 == account@);
                    lemma_entries_get(es, i as int);
                }
                Some(self.balances[i].1.duplicate())
            },
            None => {
                proof {
                    if exists|j: int| 0 <= j < es.len() && es[j].0 == account@ {
                        let j = choose|j: int| 0 <= j < es.len() && es[j].0 == account@;
                        assert(es[j].0 == self.balances@[j].0@);
                    }
                }
                None
            },
        }
    }

    /// The live investment with id `id`, if there is one.
    pub fn investment(&self, id: &BigNum) -> (r: Option<Investment>)
        requires
            self.wf(),
        ensures
            match r {
                Some(inv) => self@.investments.contains_key(id@) && inv.owner@
                    == self@.investments[id@].owner && inv.amount@ == self@.investments[id@].amount,
                None => !self@.investments.contains_key(id@),
            },
    {
        let ghost es = investment_entries(self.investments@);
        proof {
            lemma_entries_dom(es, id@);
        }
        match find_investment(&self.investments, id) {
            Some(i) => {
                proof {
                    assert(es[i as int].0 == id@);
                    lemma_entries_get(es, i as int);
                }
                let inv = &self.investments[i].1;
                Some(Investment { owner: inv.owner.clone(), amount: inv.amount.duplicate() })
            },
            None => {
                proof {
                    if exists|j: int| 0 <= j < es.len() && es[j].0 == id@ {
                        let j = choose|j: int| 0 <= j < es.len() && es[j].0 == id@;
                        assert(es[j].0 == self.investments@[j].0@);
                    }
                }
                None
            },
        }
    }
}

} // verus!
