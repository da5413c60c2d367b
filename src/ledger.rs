//! The escrow ledger: how much each payer has placed in custody.

use vstd::prelude::*;
use crate::model::{DevAsignError, Identity};

verus! {

/// Balances held in escrow, one entry per payer.
pub struct EscrowLedger {
    entries: Vec<(Identity, i128)>,
    balances: Ghost<Map<Identity, i128>>,
}

impl View for EscrowLedger {
    type V = Map<Identity, i128>;

    closed spec fn view(&self) -> Map<Identity, i128> {
        self.balances@
    }
}

impl EscrowLedger {
    /// The entries list each payer of the map once, with its balance, and no
    /// balance is negative.
    pub closed spec fn wf(&self) -> bool {
        &&& forall|k: Identity|
            self.balances@.contains_key(k) <==> exists|i: int|
                0 <= i < self.entries@.len() && (#[trigger] self.entries@[i]).0 == k
        &&& forall|i: int|
            0 <= i < self.entries@.len() ==> self.balances@.contains_key(
                (#[trigger] self.entries@[i]).0,
            ) && self.balances@[self.entries@[i].0] == self.entries@[i].1
        &&& forall|i: int, j: int|
            0 <= i < self.entries@.len() && 0 <= j < self.entries@.len() && (#[trigger] self.entries@[i]).0
                == (#[trigger] self.entries@[j]).0 ==> i == j
        &&& forall|k: Identity| #[trigger] self.balances@.contains_key(k) ==> self.balances@[k] >= 0
    }

    /// What the payer holds in escrow; a payer never seen holds nothing.
    pub open spec fn balance(&self, who: Identity) -> int {
        if self@.contains_key(who) {
            self@[who] as int
        } else {
            0
        }
    }

    /// No balance in a well-formed ledger is negative.
    pub proof fn lemma_view_nonnegative(&self)
        requires
            self.wf(),
        ensures
            forall|k: Identity| #[trigger] self@.contains_key(k) ==> self@[k] >= 0,
    {
    }

    /// An empty ledger.
    pub fn new() -> (r: EscrowLedger)
        ensures
            r.wf(),
            r@ == Map::<Identity, i128>::empty(),
    {
        EscrowLedger { entries: Vec::new(), balances: Ghost(Map::empty()) }
    }

    fn find(&self, who: &Identity) -> (r: Option<usize>)
        requires
            self.wf(),
        ensures
            match r {
                Some(i) => i < self.entries@.len() && self.entries@[i as int].0 == *who,
                None => !self@.contains_key(*who),
            },
    {
        let mut i: usize = 0;
        while i < self.entries.len()
            invariant
                self.wf(),
                0 <= i <= self.entries@.len(),
                forall|k: int| 0 <= k < i ==> (#[trigger] self.entries@[k]).0 != *who,
            decreases self.entries@.len() - i,
        {
            if crate::model::same_id(&self.entries[i].0, who) {
                return Some(i);
            }
            i = i + 1;
        }
        None
    }

    /// The payer's escrow balance.
    pub fn balance_of(&self, who: &Identity) -> (r: i128)
        requires
            self.wf(),
        ensures
            r as int == self.balance(*who),
    {
        match self.find(who) {
            Some(i) => self.entries[i].1,
            None => 0,
        }
    }

    /// Sets the payer's balance to a non-negative amount.
    fn set_balance(&mut self, who: &Identity, amount: i128)
        requires
            old(self).wf(),
            amount >= 0,
        ensures
            final(self).wf(),
            final(self)@ == old(self)@.insert(*who, amount),
    {
        match self.find(who) {
            Some(i) => {
                self.entries.set(i, (*who, amount));
                self.balances = Ghost(self.balances@.insert(*who, amount));
                assert forall|k: Identity|
                    self.balances@.contains_key(k) implies exists|j: int|
                        0 <= j < self.entries@.len() && (#[trigger] self.entries@[j]).0 == k by {
                    if k != *who {
                        assert(old(self).balances@.contains_key(k));
                        let j = choose|j: int|
                            0 <= j < old(self).entries@.len() && (#[trigger] old(self).entries@[j]).0
                                == k;
                        assert(self.entries@[j].0 == k);
                    } else {
                        assert(self.entries@[i as int].0 == k);
                    }
                }
            },
            None => {
                self.entries.push((*who, amount));
                self.balances = Ghost(self.balances@.insert(*who, amount));
                assert forall|k: Identity|
                    self.balances@.contains_key(k) implies exists|j: int|
                        0 <= j < self.entries@.len() && (#[trigger] self.entries@[j]).0 == k by {
                    if k != *who {
                        assert(old(self).balances@.contains_key(k));
                        let j = choose|j: int|
                            0 <= j < old(self).entries@.len() && (#[trigger] old(self).entries@[j]).0
                                == k;
                        assert(self.entries@[j].0 == k);
                    } else {
                        assert(self.entries@[self.entries@.len() - 1].0 == k);
                    }
                }
                assert forall|i: int, j: int|
                    0 <= i < self.entries@.len() && 0 <= j < self.entries@.len() && (#[trigger] self.entries@[i]).0
                        == (#[trigger] self.entries@[j]).0 implies i == j by {
                    let n = old(self).entries@.len() as int;
                    if i < n {
                        assert(old(self).balances@.contains_key(old(self).entries@[i].0));
                    }
                    if j < n {
                        assert(old(self).balances@.contains_key(old(self).entries@[j].0));
                    }
                }
            },
        }
    }

    /// Places `amount` in custody for the payer. Refused, with nothing
    /// changed, where the payer's balance would exceed `i128::MAX`.
    pub fn deposit(&mut self, payer: &Identity, amount: i128) -> (r: Result<(), DevAsignError>)
        requires
            old(self).wf(),
            amount >= 0,
        ensures
            final(self).wf(),
            r is Ok <==> old(self).balance(*payer) + amount <= i128::MAX,
            r is Ok ==> final(self)@ == old(self)@.insert(
                *payer,
                (old(self).balance(*payer) + amount) as i128,
            ),
            r is Err ==> r == Err::<(), DevAsignError>(DevAsignError::InvalidAmount) && final(self)@
                == old(self)@,
    {
        let current = self.balance_of(payer);
        match current.checked_add(amount) {
            Some(total) => {
                self.set_balance(payer, total);
                Ok(())
            },
            None => Err(DevAsignError::InvalidAmount),
        }
    }

    /// Takes `amount` out of the payer's custody, ahead of handing it on.
    /// Refused, with nothing changed, where the balance is short of it.
    pub fn release(&mut self, payer: &Identity, amount: i128) -> (r: Result<(), DevAsignError>)
        requires
            old(self).wf(),
            amount >= 0,
        ensures
            final(self).wf(),
            r is Ok <==> amount <= old(self).balance(*payer),
            r is Ok ==> final(self)@ == old(self)@.insert(
                *payer,
                (old(self).balance(*payer) - amount) as i128,
            ),
            r is Err ==> r == Err::<(), DevAsignError>(DevAsignError::InsufficientEscrow)
                && final(self)@ == old(self)@,
    {
        let current = self.balance_of(payer);
        if current < amount {
            return Err(DevAsignError::InsufficientEscrow);
        }
        self.set_balance(payer, current - amount);
        Ok(())
    }
}

} // verus!
