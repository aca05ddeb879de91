use vstd::prelude::*;

use crate::error::ContractError;
use crate::pending::{PendingTransfer, PendingTransfers, PendingView};

verus! {

/// A ledger key: a channel id and a token address.
pub type LedgerKey = (Seq<char>, Seq<char>);

/// The outstanding amount recorded for one (channel, token) pair.
#[derive(Debug, Clone)]
pub struct BalanceEntry {
    pub channel: String,
    pub token: String,
    pub amount: u128,
}

impl BalanceEntry {
    pub open spec fn key(&self) -> LedgerKey {
        (self.channel@, self.token@)
    }
}

/// The balance a map of balances holds for `key`; a key never written holds zero.
pub open spec fn balance_in(balances: Map<LedgerKey, u128>, key: LedgerKey) -> nat {
    if balances.contains_key(key) {
        balances[key] as nat
    } else {
        0
    }
}

/// The set of known channels, the outstanding balance of every (channel,
/// token) pair that has been written, and the transfers that may still be
/// reversed.
pub struct ChannelLedger {
    channels: Vec<String>,
    entries: Vec<BalanceEntry>,
    balances: Ghost<Map<LedgerKey, u128>>,
    pending: PendingTransfers,
}

impl ChannelLedger {
    /// The channels that are registered.
    pub closed spec fn channels(&self) -> Set<Seq<char>> {
        Set::new(|c: Seq<char>| exists|i: int| 0 <= i < self.channels@.len() && self.channels@[i]@ == c)
    }

    /// The recorded balances; a key that is absent holds zero.
    pub closed spec fn balances(&self) -> Map<LedgerKey, u128> {
        self.balances@
    }

    /// The transfers that may still be reversed, by id.
    pub closed spec fn pending(&self) -> Map<u64, PendingView> {
        self.pending.records()
    }

    /// The id the next transfer gets.
    pub closed spec fn next_id(&self) -> u64 {
        self.pending.next_id()
    }

    /// The balance of one (channel, token) pair.
    pub open spec fn balance(&self, channel: Seq<char>, token: Seq<char>) -> nat {
        balance_in(self.balances(), (channel, token))
    }

    /// Each entry is recorded under its key, every recorded key has an entry,
    /// and no two entries share a key.
    pub closed spec fn wf(&self) -> bool {
        &&& self.pending.wf()
        &&& forall|i: int|
            0 <= i < self.entries@.len() ==> #[trigger] self.balances@.contains_key(self.entries@[i].key())
                && self.balances@[self.entries@[i].key()] == self.entries@[i].amount
        &&& forall|k: LedgerKey|
            #[trigger] self.balances@.contains_key(k) ==> exists|i: int|
                0 <= i < self.entries@.len() && self.entries@[i].key() == k
        &&& forall|i: int, j: int|
            0 <= i < j < self.entries@.len() ==> self.entries@[i].key() != self.entries@[j].key()
    }

    /// An empty ledger: no channels and no balances.
    pub fn new() -> (r: ChannelLedger)
        ensures
            r.wf(),
            r.channels() == Set::<Seq<char>>::empty(),
            r.balances() == Map::<LedgerKey, u128>::empty(),
            r.pending() == Map::<u64, PendingView>::empty(),
            r.next_id() == 0,
    {
        let r = ChannelLedger {
            channels: Vec::new(),
            entries: Vec::new(),
            balances: Ghost(Map::empty()),
            pending: PendingTransfers::new(),
        };
        assert(r.channels() =~= Set::<Seq<char>>::empty());
        r
    }

    /// An empty ledger whose first transfer id is `next_id`, for a ledger
    /// read back from storage after ids were given out.
    pub fn starting_at(next_id: u64) -> (r: ChannelLedger)
        ensures
            r.wf(),
            r.channels() == Set::<Seq<char>>::empty(),
            r.balances() == Map::<LedgerKey, u128>::empty(),
            r.pending() == Map::<u64, PendingView>::empty(),
            r.next_id() == next_id,
    {
        let r = ChannelLedger {
            channels: Vec::new(),
            entries: Vec::new(),
            balances: Ghost(Map::empty()),
            pending: PendingTransfers::starting_at(next_id),
        };
        assert(r.channels() =~= Set::<Seq<char>>::empty());
        r
    }

    /// Whether the channel `channel_id` is registered.
    pub fn has_channel(&self, channel_id: &String) -> (r: bool)
        ensures
            r == self.channels().contains(channel_id@),
    {
        let mut i: usize = 0;
        while i < self.channels.len()
            invariant
                i <= self.channels@.len(),
                forall|j: int| 0 <= j < i ==> self.channels@[j]@ != channel_id@,
            decreases self.channels@.len() - i,
        {
            if self.channels[i] == *channel_id {
                assert(self.channels@[i as int]@ == channel_id@);
                return true;
            }
            i = i + 1;
        }
        false
    }

    /// Registers the channel `channel_id`; registering it again changes nothing.
    pub fn add_channel(&mut self, channel_id: String)
        requires
            old(self).wf(),
        ensures
            final(self).wf(),
            final(self).channels() == old(self).channels().insert(channel_id@),
            final(self).balances() == old(self).balances(),
            final(self).pending() == old(self).pending(),
            final(self).next_id() == old(self).next_id(),
    {
        if !self.has_channel(&channel_id) {
            let ghost c = channel_id@;
            self.channels.push(channel_id);
            assert(self.entries@ == old(self).entries@);
            assert(self.balances@ == old(self).balances@);
            assert(self.wf());
            assert(self.channels@[self.channels@.len() - 1]@ == c);
            assert(self.channels() =~= old(self).channels().insert(c)) by {
                assert forall|x: Seq<char>| self.channels().contains(x) implies old(self).channels().insert(c).contains(x) by {
                    let i = choose|i: int| 0 <= i < self.channels@.len() && self.channels@[i]@ == x;
                    if i < old(self).channels@.len() {
                        assert(old(self).channels@[i]@ == x);
                    }
                }
                assert forall|x: Seq<char>| old(self).channels().insert(c).contains(x) implies self.channels().contains(x) by {
                    if x != c {
                        let i = choose|i: int| 0 <= i < old(self).channels@.len() && old(self).channels@[i]@ == x;
                        assert(self.channels@[i]@ == x);
                    }
                }
            }
        } else {
            assert(self.channels() =~= old(self).channels().insert(channel_id@));
        }
    }

    /// The registered channel ids.
    pub fn channel_ids(&self) -> (r: &Vec<String>)
        ensures
            forall|c: Seq<char>| self.channels().contains(c) <==> exists|i: int| 0 <= i < r@.len() && r@[i]@ == c,
    {
        &self.channels
    }

    /// The recorded balances, one entry per (channel, token) pair written.
    pub fn balance_entries(&self) -> (r: &Vec<BalanceEntry>)
        requires
            self.wf(),
        ensures
            forall|i: int| 0 <= i < r@.len() ==> #[trigger] self.balances().contains_key(r@[i].key())
                && self.balances()[r@[i].key()] == r@[i].amount,
            forall|k: LedgerKey| #[trigger] self.balances().contains_key(k) ==> exists|i: int|
                0 <= i < r@.len() && r@[i].key() == k,
    {
        assert forall|i: int| 0 <= i < self.entries@.len() implies #[trigger] self.balances().contains_key(self.entries@[i].key())
            && self.balances()[self.entries@[i].key()] == self.entries@[i].amount by {
            assert(self.balances@.contains_key(self.entries@[i].key()));
        }
        &self.entries
    }

    /// The id the next transfer gets.
    pub fn next_transfer_id(&self) -> (r: u64)
        ensures
            r == self.next_id(),
    {
        self.pending.next_transfer_id()
    }

    /// The pending transfers, one entry per id.
    pub fn pending_list(&self) -> (r: &Vec<PendingTransfer>)
        requires
            self.wf(),
        ensures
            forall|i: int| 0 <= i < r@.len() ==> #[trigger] self.pending().contains_key(r@[i].id)
                && self.pending()[r@[i].id] == r@[i]@,
            forall|id: u64| #[trigger] self.pending().contains_key(id) ==> exists|i: int|
                0 <= i < r@.len() && r@[i].id == id,
    {
        let r = self.pending.list();
        assert forall|i: int| 0 <= i < r@.len() implies #[trigger] self.pending().contains_key(r@[i].id)
            && self.pending()[r@[i].id] == r@[i]@ by {
            assert(self.pending.records().contains_key(r@[i].id));
        }
        r
    }

    /// A copy of the pending transfer `id`, if there is one.
    pub fn pending_transfer(&self, id: u64) -> (r: Option<PendingTransfer>)
        requires
            self.wf(),
        ensures
            match r {
                Some(p) => self.pending().contains_key(id) && p.id == id && p@ == self.pending()[id],
                None => !self.pending().contains_key(id),
            },
    {
        self.pending.get(id)
    }

    /// Records a transfer as pending under the next id, which it returns.
    pub fn record_pending(&mut self, channel: String, token: String, sender: String, amount: u128) -> (id: u64)
        requires
            old(self).wf(),
            old(self).next_id() < u64::MAX,
        ensures
            final(self).wf(),
            id == old(self).next_id(),
            final(self).next_id() == old(self).next_id() + 1,
            final(self).pending() == old(self).pending().insert(id, (channel@, token@, sender@, amount)),
            final(self).channels() == old(self).channels(),
            final(self).balances() == old(self).balances(),
    {
        let r = self.pending.record(channel, token, sender, amount);
        assert(self.entries@ == old(self).entries@);
        assert(self.balances@ == old(self).balances@);
        assert(self.channels@ == old(self).channels@);
        assert(self.wf());
        r
    }

    /// Puts back a pending transfer read from storage; refused where its id is
    /// already pending or is the largest id.
    pub fn restore_pending(&mut self, p: PendingTransfer) -> (r: bool)
        requires
            old(self).wf(),
        ensures
            final(self).wf(),
            r <==> !old(self).pending().contains_key(p.id) && p.id < u64::MAX,
            r ==> final(self).pending() == old(self).pending().insert(p.id, p@),
            !r ==> final(self).pending() == old(self).pending(),
            final(self).next_id() >= old(self).next_id(),
            final(self).channels() == old(self).channels(),
            final(self).balances() == old(self).balances(),
    {
        let r = self.pending.restore(p);
        assert(self.entries@ == old(self).entries@);
        assert(self.balances@ == old(self).balances@);
        assert(self.channels@ == old(self).channels@);
        assert(self.wf());
        r
    }

    /// Removes the pending transfer `id`; whether it was pending.
    pub fn remove_pending(&mut self, id: u64) -> (r: bool)
        requires
            old(self).wf(),
        ensures
            final(self).wf(),
            r == old(self).pending().contains_key(id),
            final(self).pending() == old(self).pending().remove(id),
            final(self).next_id() == old(self).next_id(),
            final(self).channels() == old(self).channels(),
            final(self).balances() == old(self).balances(),
    {
        let r = self.pending.remove(id);
        assert(self.entries@ == old(self).entries@);
        assert(self.balances@ == old(self).balances@);
        assert(self.channels@ == old(self).channels@);
        assert(self.wf());
        r
    }

    /// The index of the entry for (`channel`, `token`), if there is one.
    fn find(&self, channel: &String, token: &String) -> (r: Option<usize>)
        requires
            self.wf(),
        ensures
            match r {
                Some(i) => i < self.entries@.len() && self.entries@[i as int].key() == (channel@, token@),
                None => !self.balances().contains_key((channel@, token@)),
            },
    {
        let mut i: usize = 0;
        while i < self.entries.len()
            invariant
                self.wf(),
                i <= self.entries@.len(),
                forall|j: int| 0 <= j < i ==> self.entries@[j].key() != (channel@, token@),
            decreases self.entries@.len() - i,
        {
            if self.entries[i].channel == *channel && self.entries[i].token == *token {
                return Some(i);
            }
            i = i + 1;
        }
        proof {
            let k = (channel@, token@);
            if self.balances@.contains_key(k) {
                assert(exists|j: int| 0 <= j < self.entries@.len() && self.entries@[j].key() == k);
            }
        }
        None
    }

    /// The recorded balance of (`channel`, `token`); zero for a pair never written.
    pub fn get_balance(&self, channel: &String, token: &String) -> (r: u128)
        requires
            self.wf(),
        ensures
            r as nat == self.balance(channel@, token@),
    {
        match self.find(channel, token) {
            Some(i) => self.entries[i].amount,
            None => 0,
        }
    }

    /// Stores `amount` as the balance of (`channel`, `token`).
    fn store(&mut self, channel: &String, token: &String, amount: u128)
        requires
            old(self).wf(),
        ensures
            final(self).wf(),
            final(self).channels() == old(self).channels(),
            final(self).balances() == old(self).balances().insert((channel@, token@), amount),
            final(self).pending() == old(self).pending(),
            final(self).next_id() == old(self).next_id(),
    {
        let ghost k = (channel@, token@);
        let ghost old_entries = self.entries@;
        match self.find(channel, token) {
            Some(i) => {
                let e = BalanceEntry { channel: channel.clone(), token: token.clone(), amount };
                self.entries.set(i, e);
                self.balances = Ghost(self.balances@.insert(k, amount));
                assert forall|j: int| 0 <= j < self.entries@.len() implies #[trigger] self.balances@.contains_key(self.entries@[j].key())
                    && self.balances@[self.entries@[j].key()] == self.entries@[j].amount by {
                    if j != i {
                        if j < i {
                            assert(old_entries[j].key() != old_entries[i as int].key());
                        } else {
                            assert(old_entries[i as int].key() != old_entries[j].key());
                        }
                    }
                }
                assert forall|q: LedgerKey| #[trigger] self.balances@.contains_key(q) implies exists|j: int|
                    0 <= j < self.entries@.len() && self.entries@[j].key() == q by {
                    if q != k {
                        let j = choose|j: int| 0 <= j < old_entries.len() && old_entries[j].key() == q;
                        assert(self.entries@[j].key() == q);
                    } else {
                        assert(self.entries@[i as int].key() == q);
                    }
                }
            },
            None => {
                let e = BalanceEntry { channel: channel.clone(), token: token.clone(), amount };
                self.entries.push(e);
                self.balances = Ghost(self.balances@.insert(k, amount));
                let ghost n = old_entries.len() as int;
                assert(self.entries@[n].key() == k);
                assert forall|j: int| 0 <= j < self.entries@.len() implies #[trigger] self.balances@.contains_key(self.entries@[j].key())
                    && self.balances@[self.entries@[j].key()] == self.entries@[j].amount by {
                    if j < n {
                        assert(old(self).balances@.contains_key(old_entries[j].key()));
                    }
                }
                assert forall|q: LedgerKey| #[trigger] self.balances@.contains_key(q) implies exists|j: int|
                    0 <= j < self.entries@.len() && self.entries@[j].key() == q by {
                    if q != k {
                        let j = choose|j: int| 0 <= j < old_entries.len() && old_entries[j].key() == q;
                        assert(self.entries@[j].key() == q);
                    } else {
                        assert(self.entries@[n].key() == q);
                    }
                }
                assert forall|a: int, b: int| 0 <= a < b < self.entries@.len() implies self.entries@[a].key() != self.entries@[b].key() by {
                    if b == n {
                        assert(old(self).balances@.contains_key(old_entries[a].key()));
                    }
                }
            },
        }
    }

    /// Adds `amount` to the balance of (`channel`, `token`). Fails with
    /// `BalanceOverflow`, changing nothing, where the sum does not fit.
    pub fn increase(&mut self, channel: &String, token: &String, amount: u128) -> (r: Result<(), ContractError>)
        requires
            old(self).wf(),
        ensures
            final(self).wf(),
            final(self).channels() == old(self).channels(),
            final(self).pending() == old(self).pending(),
            final(self).next_id() == old(self).next_id(),
            r is Ok <==> old(self).balance(channel@, token@) + amount <= u128::MAX,
            r is Ok ==> increased(old(self).balances(), final(self).balances(), (channel@, token@), amount),
            r is Err ==> (r matches Err(ContractError::BalanceOverflow)),
            r is Err ==> final(self).balances() == old(self).balances(),
    {
        let cur = self.get_balance(channel, token);
        if cur > u128::MAX - amount {
            return Err(ContractError::BalanceOverflow);
        }
        self.store(channel, token, cur + amount);
        Ok(())
    }

    /// Subtracts `amount` from the balance of (`channel`, `token`). Fails with
    /// `InsufficientChannelBalance`, changing nothing, where `amount` exceeds it.
    pub fn decrease(&mut self, channel: &String, token: &String, amount: u128) -> (r: Result<(), ContractError>)
        requires
            old(self).wf(),
        ensures
            final(self).wf(),
            final(self).channels() == old(self).channels(),
            final(self).pending() == old(self).pending(),
            final(self).next_id() == old(self).next_id(),
            r is Ok <==> amount <= old(self).balance(channel@, token@),
            r is Ok ==> decreased(old(self).balances(), final(self).balances(), (channel@, token@), amount),
            r is Err ==> (r matches Err(ContractError::InsufficientChannelBalance)),
            r is Err ==> final(self).balances() == old(self).balances(),
    {
        let cur = self.get_balance(channel, token);
        if amount > cur {
            return Err(ContractError::InsufficientChannelBalance);
        }
        self.store(channel, token, cur - amount);
        Ok(())
    }
}

/// `after` is `before` with the balance of `key` raised by `amount`.
pub open spec fn increased(before: Map<LedgerKey, u128>, after: Map<LedgerKey, u128>, key: LedgerKey, amount: u128) -> bool {
    &&& balance_in(before, key) + amount <= u128::MAX
    &&& after == before.insert(key, (balance_in(before, key) + amount) as u128)
}

/// `after` is `before` with the balance of `key` lowered by `amount`.
pub open spec fn decreased(before: Map<LedgerKey, u128>, after: Map<LedgerKey, u128>, key: LedgerKey, amount: u128) -> bool {
    &&& amount <= balance_in(before, key)
    &&& after == before.insert(key, (balance_in(before, key) - amount) as u128)
}

/// The sum of a sequence of amounts.
pub open spec fn total(amounts: Seq<u128>) -> nat
    decreases amounts.len(),
{
    if amounts.len() == 0 {
        0
    } else {
        total(amounts.drop_last()) + amounts.last() as nat
    }
}

/// After successful increases of one key by `a1, ..., an`, its balance has
/// grown by exactly `a1 + ... + an`, and no other key has changed.
pub proof fn lemma_increases_sum(states: Seq<Map<LedgerKey, u128>>, key: LedgerKey, amounts: Seq<u128>)
    requires
        states.len() == amounts.len() + 1,
        forall|i: int| 0 <= i < amounts.len() ==> increased(#[trigger] states[i], states[i + 1], key, amounts[i]),
    ensures
        balance_in(states.last(), key) == balance_in(states[0], key) + total(amounts),
        forall|k: LedgerKey| k != key ==> balance_in(#[trigger] states.last(), k) == balance_in(states[0], k),
    decreases amounts.len(),
{
    if amounts.len() > 0 {
        let n = amounts.len() - 1;
        lemma_increases_sum(states.drop_last(), key, amounts.drop_last());
        assert(increased(states[n], states[n + 1], key, amounts[n]));
        assert(states.drop_last().last() == states[n]);
        assert forall|k: LedgerKey| k != key implies balance_in(#[trigger] states.last(), k) == balance_in(states[0], k) by {
            assert(balance_in(states.drop_last().last(), k) == balance_in(states.drop_last()[0], k));
        }
    }
}

/// Over a series of ledgers, each raised on one (channel, token) pair by the
/// next amount, as successful transfers on that pair leave them, the pair's
/// balance grows by exactly the sum of the amounts.
pub proof fn lemma_ledger_transfers_sum(
    ledgers: Seq<ChannelLedger>,
    channel: Seq<char>,
    token: Seq<char>,
    amounts: Seq<u128>,
)
    requires
        ledgers.len() == amounts.len() + 1,
        forall|i: int|
            0 <= i < amounts.len() ==> increased(
                #[trigger] ledgers[i].balances(),
                ledgers[i + 1].balances(),
                (channel, token),
                amounts[i],
            ),
    ensures
        ledgers.last().balance(channel, token) == ledgers[0].balance(channel, token) + total(amounts),
{
    let states = Seq::new(ledgers.len(), |i: int| ledgers[i].balances());
    assert forall|i: int| 0 <= i < amounts.len() implies increased(#[trigger] states[i], states[i + 1], (channel, token), amounts[i]) by {
        assert(increased(ledgers[i].balances(), ledgers[i + 1].balances(), (channel, token), amounts[i]));
    }
    lemma_increases_sum(states, (channel, token), amounts);
}

} // verus!
