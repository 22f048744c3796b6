//! The balance table of one share ledger: a balance per registered holder
//! and the total supply, which is always the sum of the balances.
use vstd::prelude::*;

verus! {

/// The sum of the balances in a table of holders.
pub open spec fn sum_balances(v: Seq<(Seq<char>, nat)>) -> int
    decreases v.len(),
{
    if v.len() == 0 {
        0
    } else {
        sum_balances(v.drop_last()) + v.last().1
    }
}

/// The balance of `id` in a table of holders; 0 for an id with no entry.
pub open spec fn balance_in(v: Seq<(Seq<char>, nat)>, id: Seq<char>) -> nat
    decreases v.len(),
{
    if v.len() == 0 {
        0
    } else if v.last().0 == id {
        v.last().1
    } else {
        balance_in(v.drop_last(), id)
    }
}

/// No holder has two entries.
pub open spec fn unique_ids(v: Seq<(Seq<char>, nat)>) -> bool {
    forall|i: int, j: int| 0 <= i < j < v.len() ==> v[i].0 != v[j].0
}

/// `id` has an entry in the table.
pub open spec fn has_entry(v: Seq<(Seq<char>, nat)>, id: Seq<char>) -> bool {
    exists|i: int| 0 <= i < v.len() && v[i].0 == id
}

proof fn lemma_found(v: Seq<(Seq<char>, nat)>, i: int)
    requires
        unique_ids(v),
        0 <= i < v.len(),
    ensures
        balance_in(v, v[i].0) == v[i].1,
    decreases v.len(),
{
    if i < v.len() - 1 {
        assert(v[i].0 != v[v.len() - 1].0);
        lemma_found(v.drop_last(), i);
    }
}

proof fn lemma_absent(v: Seq<(Seq<char>, nat)>, id: Seq<char>)
    requires
        !has_entry(v, id),
    ensures
        balance_in(v, id) == 0,
    decreases v.len(),
{
    if v.len() > 0 {
        assert(v.last().0 != id);
        assert forall|i: int| 0 <= i < v.drop_last().len() implies v.drop_last()[i].0 != id by {
            assert(v.drop_last()[i] == v[i]);
        }
        lemma_absent(v.drop_last(), id);
    }
}

proof fn lemma_update(v: Seq<(Seq<char>, nat)>, i: int, b: nat)
    requires
        unique_ids(v),
        0 <= i < v.len(),
    ensures
        unique_ids(v.update(i, (v[i].0, b))),
        sum_balances(v.update(i, (v[i].0, b))) == sum_balances(v) - v[i].1 + b,
        forall|x: Seq<char>|
            #[trigger] balance_in(v.update(i, (v[i].0, b)), x) == if x == v[i].0 {
                b
            } else {
                balance_in(v, x)
            },
        forall|x: Seq<char>| #[trigger] has_entry(v.update(i, (v[i].0, b)), x) == has_entry(v, x),
    decreases v.len(),
{
    let t = v.update(i, (v[i].0, b));
    assert forall|x: Seq<char>| #[trigger] has_entry(t, x) == has_entry(v, x) by {
        if has_entry(v, x) {
            let k = choose|k: int| 0 <= k < v.len() && v[k].0 == x;
            assert(t[k].0 == x);
        }
        if has_entry(t, x) {
            let k = choose|k: int| 0 <= k < t.len() && t[k].0 == x;
            assert(v[k].0 == x);
        }
    }
    if i == v.len() - 1 {
        assert(t.drop_last() =~= v.drop_last());
        assert(t.last() == (v[i].0, b));
    } else {
        let d = v.drop_last();
        assert(t.drop_last() =~= d.update(i, (d[i].0, b)));
        assert(unique_ids(d));
        lemma_update(d, i, b);
        assert(v.last().0 != v[i].0);
        assert(t.last() == v.last());
        assert forall|x: Seq<char>| #[trigger] balance_in(t, x) == if x == v[i].0 {
            b
        } else {
            balance_in(v, x)
        } by {
            if t.last().0 != x {
                assert(balance_in(t, x) == balance_in(t.drop_last(), x));
            }
        }
    }
}

proof fn lemma_push(v: Seq<(Seq<char>, nat)>, id: Seq<char>)
    requires
        unique_ids(v),
        !has_entry(v, id),
    ensures
        unique_ids(v.push((id, 0))),
        sum_balances(v.push((id, 0))) == sum_balances(v),
        forall|x: Seq<char>| #[trigger] balance_in(v.push((id, 0)), x) == balance_in(v, x),
        forall|x: Seq<char>| #[trigger] has_entry(v.push((id, 0)), x) == (has_entry(v, x) || x == id),
{
    let t = v.push((id, 0));
    assert(t.drop_last() =~= v);
    lemma_absent(v, id);
    assert forall|x: Seq<char>| #[trigger] has_entry(t, x) == (has_entry(v, x) || x == id) by {
        if has_entry(v, x) {
            let k = choose|k: int| 0 <= k < v.len() && v[k].0 == x;
            assert(t[k].0 == x);
        }
        if x == id {
            assert(t[v.len() as int].0 == x);
        }
        if has_entry(t, x) && x != id {
            let k = choose|k: int| 0 <= k < t.len() && t[k].0 == x;
            assert(k < v.len());
            assert(v[k].0 == x);
        }
    }
    assert forall|a: int, c: int| 0 <= a < c < t.len() implies t[a].0 != t[c].0 by {
        if c == v.len() {
            assert(t[a] == v[a]);
        }
    }
}

proof fn lemma_balance_le_sum(v: Seq<(Seq<char>, nat)>, a: Seq<char>)
    ensures
        balance_in(v, a) <= sum_balances(v),
        sum_balances(v) >= 0,
    decreases v.len(),
{
    if v.len() > 0 {
        lemma_balance_le_sum(v.drop_last(), a);
    }
}

proof fn lemma_two_balances_le_sum(v: Seq<(Seq<char>, nat)>, a: Seq<char>, b: Seq<char>)
    requires
        a != b,
    ensures
        balance_in(v, a) + balance_in(v, b) <= sum_balances(v),
    decreases v.len(),
{
    if v.len() > 0 {
        lemma_balance_le_sum(v.drop_last(), a);
        lemma_balance_le_sum(v.drop_last(), b);
        lemma_two_balances_le_sum(v.drop_last(), a, b);
    }
}

/// Why a transfer of shares was refused.
#[derive(Debug, Clone, Copy, PartialEq, Eq, Structural)]
pub enum LedgerError {
    /// Sender and receiver are the same account.
    SelfTransfer,
    /// The amount is zero.
    ZeroAmount,
    /// The sender or the receiver has not registered with the ledger.
    NotRegistered,
    /// The sender holds fewer shares than the amount.
    InsufficientBalance,
}

/// A balance per registered holder, and the total supply.
pub struct Ledger {
    accounts: Vec<(String, u128)>,
    total_supply: u128,
}

impl View for Ledger {
    type V = Seq<(Seq<char>, nat)>;

    /// The table of registered holders and their balances, in order of
    /// registration.
    closed spec fn view(&self) -> Seq<(Seq<char>, nat)> {
        self.accounts@.map_values(|e: (String, u128)| (e.0@, e.1 as nat))
    }
}

impl Ledger {
    /// The number of shares in existence.
    pub closed spec fn supply(&self) -> nat {
        self.total_supply as nat
    }

    /// The balance of `id`: 0 for an account that is not registered.
    pub open spec fn balance(&self, id: Seq<char>) -> nat {
        balance_in(self@, id)
    }

    /// `id` has registered with the ledger.
    pub open spec fn registered(&self, id: Seq<char>) -> bool {
        has_entry(self@, id)
    }

    /// What `ft_transfer` answers for these arguments.
    pub open spec fn transfer_outcome(&self, sender: Seq<char>, receiver: Seq<char>, amount: u128) -> Result<(), LedgerError> {
        if sender == receiver {
            Err(LedgerError::SelfTransfer)
        } else if amount == 0 {
            Err(LedgerError::ZeroAmount)
        } else if !self.registered(sender) {
            Err(LedgerError::NotRegistered)
        } else if self.balance(sender) < amount {
            Err(LedgerError::InsufficientBalance)
        } else if !self.registered(receiver) {
            Err(LedgerError::NotRegistered)
        } else {
            Ok(())
        }
    }

    /// Each holder has one entry, and the supply is the sum of the balances.
    pub open spec fn wf(&self) -> bool {
        &&& unique_ids(self@)
        &&& self.supply() == sum_balances(self@)
    }

    proof fn lemma_view_index(&self, i: int)
        requires
            0 <= i < self.accounts@.len(),
        ensures
            self@.len() == self.accounts@.len(),
            self@[i] == (self.accounts@[i].0@, self.accounts@[i].1 as nat),
    {
    }

    /// A single balance never exceeds the supply; two distinct holders
    /// together never hold more than the supply.
    pub proof fn lemma_balances_bounded(&self, a: Seq<char>, b: Seq<char>)
        requires
            self.wf(),
        ensures
            self.balance(a) <= self.supply(),
            a != b ==> self.balance(a) + self.balance(b) <= self.supply(),
    {
        lemma_balance_le_sum(self@, a);
        if a != b {
            lemma_two_balances_le_sum(self@, a, b);
        }
    }

    /// An empty table.
    pub fn new() -> (r: Ledger)
        ensures
            r.wf(),
            r@.len() == 0,
            r.supply() == 0,
            forall|id: Seq<char>| #[trigger] r.balance(id) == 0 && !r.registered(id),
    {
        let r = Ledger { accounts: Vec::new(), total_supply: 0 };
        assert(r@ =~= Seq::<(Seq<char>, nat)>::empty());
        r
    }

    fn find(&self, id: &String) -> (r: Option<usize>)
        requires
            self.wf(),
        ensures
            match r {
                Some(i) => i < self.accounts@.len() && self@[i as int].0 == id@
                    && self.balance(id@) == self.accounts@[i as int].1,
                None => !self.registered(id@) && self.balance(id@) == 0,
            },
    {
        let mut i: usize = 0;
        while i < self.accounts.len()
            invariant
                self.wf(),
                i <= self.accounts@.len(),
                self@.len() == self.accounts@.len(),
                forall|k: int| 0 <= k < i ==> self@[k].0 != id@,
            decreases self.accounts@.len() - i,
        {
            proof {
                self.lemma_view_index(i as int);
            }
            if self.accounts[i].0 == *id {
                proof {
                    lemma_found(self@, i as int);
                }
                return Some(i);
            }
            i = i + 1;
        }
        proof {
            lemma_absent(self@, id@);
        }
        None
    }

    fn set_balance(&mut self, i: usize, b: u128)
        requires
            old(self).wf(),
            i < old(self).accounts@.len(),
            old(self).supply() - old(self)@[i as int].1 + b <= u128::MAX,
        ensures
            final(self).wf(),
            final(self).accounts@ == old(self).accounts@.update(i as int, (old(self).accounts@[i as int].0, b)),
            final(self).supply() == old(self).supply() - old(self)@[i as int].1 + b,
            forall|x: Seq<char>| #[trigger] final(self).balance(x) == if x == old(self)@[i as int].0 {
                b as nat
            } else {
                old(self).balance(x)
            },
            forall|x: Seq<char>| #[trigger] final(self).registered(x) == old(self).registered(x),
    {
        proof {
            self.lemma_view_index(i as int);
            lemma_update(self@, i as int, b as nat);
            lemma_balance_le_sum(self@, self@[i as int].0);
            lemma_found(self@, i as int);
        }
        let ghost v = self@;
        let key = self.accounts[i].0.clone();
        let old_b = self.accounts[i].1;
        self.accounts.set(i, (key, b));
        self.total_supply = self.total_supply - old_b + b;
        assert(self@ =~= v.update(i as int, (v[i as int].0, b as nat)));
    }

    fn push_account(&mut self, id: &String)
        requires
            old(self).wf(),
            !old(self).registered(id@),
        ensures
            final(self).wf(),
            final(self).supply() == old(self).supply(),
            final(self)@.len() == old(self)@.len() + 1,
            forall|x: Seq<char>| #[trigger] final(self).balance(x) == old(self).balance(x),
            forall|x: Seq<char>| #[trigger] final(self).registered(x) == (old(self).registered(x) || x == id@),
    {
        proof {
            lemma_push(self@, id@);
        }
        let ghost v = self@;
        self.accounts.push((id.clone(), 0));
        assert(self@ =~= v.push((id@, 0)));
    }

    /// The number of shares in existence.
    pub fn ft_total_supply(&self) -> (r: u128)
        ensures
            r == self.supply(),
    {
        self.total_supply
    }

    /// The shares held by `id`; 0 for an account that is not registered.
    pub fn ft_balance_of(&self, id: &String) -> (r: u128)
        requires
            self.wf(),
        ensures
            r == self.balance(id@),
    {
        match self.find(id) {
            Some(i) => self.accounts[i].1,
            None => 0,
        }
    }

    /// Whether `id` has registered with the ledger.
    pub fn is_registered(&self, id: &String) -> (r: bool)
        requires
            self.wf(),
        ensures
            r == self.registered(id@),
    {
        match self.find(id) {
            Some(i) => {
                assert(self@[i as int].0 == id@);
                true
            },
            None => false,
        }
    }

    /// Registers `id` with a zero balance; an account that is already
    /// registered is left as it is. Returns whether `id` was new.
    pub fn storage_deposit(&mut self, id: &String) -> (r: bool)
        requires
            old(self).wf(),
        ensures
            final(self).wf(),
            r == !old(self).registered(id@),
            final(self).supply() == old(self).supply(),
            forall|x: Seq<char>| #[trigger] final(self).balance(x) == old(self).balance(x),
            forall|x: Seq<char>| #[trigger] final(self).registered(x) == (old(self).registered(x) || x == id@),
    {
        match self.find(id) {
            Some(_) => false,
            None => {
                self.push_account(id);
                true
            },
        }
    }

    /// Mints `amount` new shares to the registered account `id`.
    pub fn deposit(&mut self, id: &String, amount: u128)
        requires
            old(self).wf(),
            old(self).registered(id@),
            old(self).supply() + amount <= u128::MAX,
        ensures
            final(self).wf(),
            final(self).supply() == old(self).supply() + amount,
            forall|x: Seq<char>| #[trigger] final(self).balance(x) == if x == id@ {
                old(self).balance(x) + amount
            } else {
                old(self).balance(x) as int
            },
            forall|x: Seq<char>| #[trigger] final(self).registered(x) == old(self).registered(x),
    {
        match self.find(id) {
            Some(i) => {
                let b = self.accounts[i].1;
                proof {
                    self.lemma_balances_bounded(id@, id@);
                }
                self.set_balance(i, b + amount);
            },
            None => {},
        }
    }

    /// Sets the balance of `id` to zero and removes those shares from the
    /// supply; `id` is registered afterwards. Returns the shares removed.
    pub fn burn_all(&mut self, id: &String) -> (r: u128)
        requires
            old(self).wf(),
        ensures
            final(self).wf(),
            r == old(self).balance(id@),
            final(self).supply() == old(self).supply() - r,
            forall|x: Seq<char>| #[trigger] final(self).balance(x) == if x == id@ {
                0nat
            } else {
                old(self).balance(x)
            },
            forall|x: Seq<char>| #[trigger] final(self).registered(x) == (old(self).registered(x) || x == id@),
    {
        proof {
            self.lemma_balances_bounded(id@, id@);
        }
        match self.find(id) {
            Some(i) => {
                let b = self.accounts[i].1;
                self.set_balance(i, 0);
                b
            },
            None => {
                self.push_account(id);
                0
            },
        }
    }

    /// Moves `amount` shares from `sender` to `receiver`.
    pub fn ft_transfer(&mut self, sender: &String, receiver: &String, amount: u128) -> (r: Result<(), LedgerError>)
        requires
            old(self).wf(),
        ensures
            final(self).wf(),
            r == old(self).transfer_outcome(sender@, receiver@, amount),
            r is Err ==> *final(self) == *old(self),
            r is Ok ==> {
                &&& final(self).supply() == old(self).supply()
                &&& final(self).balance(sender@) == old(self).balance(sender@) - amount
                &&& final(self).balance(receiver@) == old(self).balance(receiver@) + amount
                &&& forall|x: Seq<char>| x != sender@ && x != receiver@
                    ==> #[trigger] final(self).balance(x) == old(self).balance(x)
                &&& forall|x: Seq<char>| #[trigger] final(self).registered(x) == old(self).registered(x)
            },
    {
        if *sender == *receiver {
            return Err(LedgerError::SelfTransfer);
        }
        if amount == 0 {
            return Err(LedgerError::ZeroAmount);
        }
        let si = match self.find(sender) {
            Some(i) => i,
            None => return Err(LedgerError::NotRegistered),
        };
        let sb = self.accounts[si].1;
        if sb < amount {
            return Err(LedgerError::InsufficientBalance);
        }
        let ri = match self.find(receiver) {
            Some(i) => i,
            None => return Err(LedgerError::NotRegistered),
        };
        proof {
            self.lemma_balances_bounded(sender@, receiver@);
            self.lemma_view_index(ri as int);
            self.lemma_view_index(si as int);
        }
        let rb = self.accounts[ri].1;
        self.set_balance(si, sb - amount);
        proof {
            self.lemma_view_index(ri as int);
        }
        self.set_balance(ri, rb + amount);
        Ok(())
    }
}

} // verus!
