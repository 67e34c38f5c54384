//! The ordered list of accounts and its mutations. An account is addressed by
//! its position; removing one shifts the later ones down by one.
use vstd::prelude::*;
use crate::account::{Account, account_view};
use crate::codec::{accounts_view, decode_accounts, encode_accounts, stream_bytes, decode_spec};
use crate::recurrence::{EngineError, next_occurrence};

verus! {

/// How many of the first `n` entries of `nexts` are known occurrences already
/// reached at `now`.
pub open spec fn count_ready_spec(now: u64, nexts: Seq<Option<u64>>, n: int) -> nat
    decreases n,
{
    if n <= 0 {
        0
    } else {
        count_ready_spec(now, nexts, n - 1) + (if (nexts[n - 1] matches Some(t) && t <= now) {
            1nat
        } else {
            0nat
        })
    }
}

/// The number of known occurrences in `nexts` that `now` has reached: the
/// accounts whose remaining time is zero. An unknown occurrence is not ready.
pub fn count_ready(now: u64, nexts: &Vec<Option<u64>>) -> (r: usize)
    ensures
        r == count_ready_spec(now, nexts@, nexts@.len() as int),
{
    let mut count: usize = 0;
    let mut i: usize = 0;
    while i < nexts.len()
        invariant
            i <= nexts@.len(),
            count == count_ready_spec(now, nexts@, i as int),
            count <= i,
        decreases nexts@.len() - i,
    {
        match nexts[i] {
            Some(t) => {
                if t <= now {
                    count = count + 1;
                }
            },
            None => {},
        }
        i = i + 1;
    }
    count
}

/// The accounts, in the order they were added.
pub struct AccountStore {
    pub accounts: Vec<Account>,
}

impl AccountStore {
    /// The plain values of the accounts, in order.
    pub open spec fn view(&self) -> Seq<(Seq<char>, u64)> {
        accounts_view(self.accounts@)
    }

    /// An empty store.
    pub fn new() -> (r: Self)
        ensures
            r.view() == Seq::<(Seq<char>, u64)>::empty(),
    {
        let r = AccountStore { accounts: Vec::new() };
        assert(r.view() =~= Seq::<(Seq<char>, u64)>::empty());
        r
    }

    /// A store holding `accounts` in their order.
    pub fn from_accounts(accounts: Vec<Account>) -> (r: Self)
        ensures
            r.view() == accounts_view(accounts@),
    {
        AccountStore { accounts }
    }

    /// The store a stored stream decodes to, with the corruption that cut
    /// decoding short, if any. An empty stream gives an empty store.
    pub fn decode(bytes: &[u8]) -> (r: (Self, Option<EngineError>))
        ensures
            r.0.view() == decode_spec(bytes@, Seq::empty()).0,
            r.1 == (if decode_spec(bytes@, Seq::empty()).1 {
                Some(EngineError::CorruptStream)
            } else {
                None::<EngineError>
            }),
    {
        let outcome = decode_accounts(bytes);
        (AccountStore { accounts: outcome.accounts }, outcome.error)
    }

    /// The stored form of the store.
    pub fn encode(&self) -> (r: Vec<u8>)
        ensures
            r@ == stream_bytes(self.view()),
    {
        encode_accounts(&self.accounts)
    }

    pub fn len(&self) -> (r: usize)
        ensures
            r == self.view().len(),
    {
        self.accounts.len()
    }

    /// The account at `index`, if there is one.
    pub fn get(&self, index: usize) -> (r: Option<&Account>)
        ensures
            index < self.view().len() ==> (r matches Some(a) && account_view(*a) == self.view()[index as int]),
            index >= self.view().len() ==> r is None,
    {
        if index < self.accounts.len() {
            Some(&self.accounts[index])
        } else {
            None
        }
    }

    /// Appends an account and returns its index.
    pub fn add(&mut self, name: String, last_event: u64) -> (r: usize)
        ensures
            final(self).view() == old(self).view().push((name@, last_event)),
            r == old(self).view().len(),
    {
        let r = self.accounts.len();
        self.accounts.push(Account::new(name, last_event));
        assert(self.view() =~= old(self).view().push((name@, last_event)));
        r
    }

    /// Removes the account at `index`; the later accounts move down by one.
    pub fn remove(&mut self, index: usize) -> (r: Result<(), EngineError>)
        ensures
            index < old(self).view().len() ==> r is Ok && final(self).view() == old(self).view().remove(
                index as int,
            ),
            index >= old(self).view().len() ==> r == Err::<(), EngineError>(
                EngineError::IndexOutOfRange,
            ) && final(self).view() == old(self).view(),
    {
        if index >= self.accounts.len() {
            return Err(EngineError::IndexOutOfRange);
        }
        self.accounts.remove(index);
        assert(self.view() =~= old(self).view().remove(index as int));
        Ok(())
    }

    /// Sets the last event of the account at `index` to `date`.
    pub fn retime(&mut self, index: usize, date: u64) -> (r: Result<(), EngineError>)
        ensures
            index < old(self).view().len() ==> r is Ok && final(self).view() == old(self).view().update(
                index as int,
                (old(self).view()[index as int].0, date),
            ),
            index >= old(self).view().len() ==> r == Err::<(), EngineError>(
                EngineError::IndexOutOfRange,
            ) && final(self).view() == old(self).view(),
    {
        if index >= self.accounts.len() {
            return Err(EngineError::IndexOutOfRange);
        }
        let name = self.accounts[index].name.clone();
        self.accounts.set(index, Account::new(name, date));
        assert(self.view() =~= old(self).view().update(
            index as int,
            (old(self).view()[index as int].0, date),
        ));
        Ok(())
    }

    /// Renames the account at `index`.
    pub fn rename(&mut self, index: usize, new_name: String) -> (r: Result<(), EngineError>)
        ensures
            index < old(self).view().len() ==> r is Ok && final(self).view() == old(self).view().update(
                index as int,
                (new_name@, old(self).view()[index as int].1),
            ),
            index >= old(self).view().len() ==> r == Err::<(), EngineError>(
                EngineError::IndexOutOfRange,
            ) && final(self).view() == old(self).view(),
    {
        if index >= self.accounts.len() {
            return Err(EngineError::IndexOutOfRange);
        }
        let date = self.accounts[index].date;
        self.accounts.set(index, Account::new(new_name, date));
        assert(self.view() =~= old(self).view().update(
            index as int,
            (new_name@, old(self).view()[index as int].1),
        ));
        Ok(())
    }

    /// Marks the account at `index` as collected at `now`.
    pub fn reset(&mut self, index: usize, now: u64) -> (r: Result<(), EngineError>)
        ensures
            index < old(self).view().len() ==> r is Ok && final(self).view() == old(self).view().update(
                index as int,
                (old(self).view()[index as int].0, now),
            ),
            index >= old(self).view().len() ==> r == Err::<(), EngineError>(
                EngineError::IndexOutOfRange,
            ) && final(self).view() == old(self).view(),
    {
        self.retime(index, now)
    }

    /// The next occurrence of each account, in order; `None` where it cannot be placed.
    pub fn next_occurrences(&self) -> (r: Vec<Option<u64>>)
        ensures
            r@.len() == self.view().len(),
            forall|i: int|
                0 <= i < r@.len() && self.view()[i].1 > i64::MAX ==> #[trigger] r@[i] is None,
            forall|i: int|
                0 <= i < r@.len() ==> (#[trigger] r@[i] matches Some(n) ==> crate::recurrence::is_next_occurrence_of(
                    self.view()[i].1 as int,
                    n as int,
                )),
    {
        let mut out: Vec<Option<u64>> = Vec::new();
        let mut i: usize = 0;
        while i < self.accounts.len()
            invariant
                i <= self.accounts@.len(),
                out@.len() == i,
                forall|j: int|
                    0 <= j < i && self.view()[j].1 > i64::MAX ==> #[trigger] out@[j] is None,
                forall|j: int|
                    0 <= j < i ==> (#[trigger] out@[j] matches Some(n) ==> crate::recurrence::is_next_occurrence_of(
                        self.view()[j].1 as int,
                        n as int,
                    )),
            decreases self.accounts@.len() - i,
        {
            let next = match next_occurrence(self.accounts[i].date) {
                Ok(n) => Some(n),
                Err(_) => None,
            };
            out.push(next);
            i = i + 1;
        }
        out
    }

    /// The number of accounts whose next occurrence `now` has reached.
    pub fn count_eligible(&self, now: u64) -> (r: usize)
        ensures
            r <= self.view().len(),
            exists|nexts: Seq<Option<u64>>|
                nexts.len() == self.view().len() && r == #[trigger] count_ready_spec(
                    now,
                    nexts,
                    nexts.len() as int,
                ) && (forall|i: int|
                    0 <= i < nexts.len() && self.view()[i].1 > i64::MAX ==> #[trigger] nexts[i]
                        is None) && forall|i: int|
                    0 <= i < nexts.len() ==> (#[trigger] nexts[i] matches Some(n)
                        ==> crate::recurrence::is_next_occurrence_of(self.view()[i].1 as int, n as int)),
    {
        let nexts = self.next_occurrences();
        let r = count_ready(now, &nexts);
        proof {
            lemma_count_ready_bound(now, nexts@, nexts@.len() as int);
        }
        r
    }
}

proof fn lemma_count_ready_bound(now: u64, nexts: Seq<Option<u64>>, n: int)
    requires
        0 <= n <= nexts.len(),
    ensures
        count_ready_spec(now, nexts, n) <= n,
    decreases n,
{
    if n > 0 {
        lemma_count_ready_bound(now, nexts, n - 1);
    }
}

} // verus!
