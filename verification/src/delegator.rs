//! The records that a pool keeps of its delegators.

use vstd::prelude::*;

verus! {

/// What the pool owes to one delegator.
#[derive(Clone, Copy, Debug, PartialEq, Eq, Structural)]
pub struct Delegator {
    /// Shares of the staked balance.
    pub stake_shares: u128,
    /// Part of the staked balance that is not reward.
    pub principal: u128,
    /// Balance that has left the stake and waits for withdrawal.
    pub unstaked_balance: u128,
    /// First epoch in which the unstaked balance can be withdrawn.
    pub unstake_available_epoch: u64,
    /// Time before which the stake is locked.
    pub unlock_timestamp_ns: u64,
}

impl Delegator {
    /// The record of an account that the pool does not know.
    pub open spec fn blank() -> Delegator {
        Delegator {
            stake_shares: 0,
            principal: 0,
            unstaked_balance: 0,
            unstake_available_epoch: 0,
            unlock_timestamp_ns: 0,
        }
    }
}

impl Default for Delegator {
    fn default() -> (record: Self)
        ensures
            record == Delegator::blank(),
    {
        Delegator {
            stake_shares: 0,
            principal: 0,
            unstaked_balance: 0,
            unstake_available_epoch: 0,
            unlock_timestamp_ns: 0,
        }
    }
}

/// The fees of a pool, in hundredths of a percent.
#[derive(Clone, Copy, Debug, PartialEq, Eq, Structural)]
pub struct PoolFees {
    pub deposit_fee_bps: u16,
    pub claim_fee_bps: u16,
}

/// The name of an account.
pub type AccountId = String;

/// The records of the delegators, by account name.
///
/// Where a name occurs in several entries, the last of them counts.
pub struct DelegatorMap {
    entries: Vec<(AccountId, Delegator)>,
}

/// The map that a list of entries stands for: later entries replace earlier ones.
spec fn entries_map(entries: Seq<(AccountId, Delegator)>) -> Map<Seq<char>, Delegator>
    decreases entries.len(),
{
    if entries.len() == 0 {
        Map::empty()
    } else {
        entries_map(entries.drop_last()).insert(entries.last().0@, entries.last().1)
    }
}

/// The record of an account, blank where the map holds none.
pub open spec fn record_of(records: Map<Seq<char>, Delegator>, account: Seq<char>) -> Delegator {
    if records.contains_key(account) {
        records[account]
    } else {
        Delegator::blank()
    }
}

impl View for DelegatorMap {
    type V = Map<Seq<char>, Delegator>;

    closed spec fn view(&self) -> Map<Seq<char>, Delegator> {
        entries_map(self.entries@)
    }
}

impl DelegatorMap {
    /// A map without records.
    pub fn new() -> (map: Self)
        ensures
            map@ == Map::<Seq<char>, Delegator>::empty(),
    {
        DelegatorMap { entries: Vec::new() }
    }

    /// The index of the entry that decides about an account.
    fn position(&self, account: &AccountId) -> (found: Option<usize>)
        ensures
            match found {
                Some(at) => {
                    &&& at < self.entries@.len()
                    &&& self.entries@[at as int].0@ == account@
                    &&& forall|j: int|
                        at < j < self.entries@.len() ==> self.entries@[j].0@ != account@
                },
                None => forall|j: int|
                    0 <= j < self.entries@.len() ==> self.entries@[j].0@ != account@,
            },
    {
        let mut at: usize = self.entries.len();
        while at > 0
            invariant
                at <= self.entries@.len(),
                forall|j: int| at <= j < self.entries@.len() ==> self.entries@[j].0@ != account@,
            decreases at,
        {
            at = at - 1;
            if self.entries[at].0 == *account {
                return Some(at);
            }
        }
        None
    }

    /// The record of an account.
    pub fn get(&self, account: &AccountId) -> (record: Option<Delegator>)
        ensures
            record == if self@.contains_key(account@) {
                Some(self@[account@])
            } else {
                None
            },
    {
        match self.position(account) {
            Some(at) => {
                proof {
                    lemma_entry_decides(self.entries@, at as int, account@);
                }
                Some(self.entries[at].1)
            },
            None => {
                proof {
                    lemma_name_absent(self.entries@, account@);
                }
                None
            },
        }
    }

    /// The record of an account, blank where there is none.
    pub fn get_or_default(&self, account: &AccountId) -> (record: Delegator)
        ensures
            record == record_of(self@, account@),
    {
        match self.get(account) {
            Some(record) => record,
            None => Delegator::default(),
        }
    }

    /// Sets the record of an account.
    pub fn insert(&mut self, account: &AccountId, record: Delegator)
        ensures
            final(self)@ == old(self)@.insert(account@, record),
    {
        match self.position(account) {
            Some(at) => {
                proof {
                    lemma_entry_replaced(self.entries@, at as int, *account, record);
                }
                self.entries.set(at, (account.clone(), record));
            },
            None => {
                self.entries.push((account.clone(), record));
                assert(self.entries@.drop_last() =~= old(self).entries@);
            },
        }
    }
}

proof fn lemma_name_absent(entries: Seq<(AccountId, Delegator)>, account: Seq<char>)
    requires
        forall|j: int| 0 <= j < entries.len() ==> (#[trigger] entries[j]).0@ != account,
    ensures
        !entries_map(entries).contains_key(account),
    decreases entries.len(),
{
    if entries.len() > 0 {
        lemma_name_absent(entries.drop_last(), account);
    }
}

proof fn lemma_entry_decides(entries: Seq<(AccountId, Delegator)>, at: int, account: Seq<char>)
    requires
        0 <= at < entries.len(),
        entries[at].0@ == account,
        forall|j: int| at < j < entries.len() ==> (#[trigger] entries[j]).0@ != account,
    ensures
        entries_map(entries).contains_key(account),
        entries_map(entries)[account] == entries[at].1,
    decreases entries.len(),
{
    if at < entries.len() - 1 {
        lemma_entry_decides(entries.drop_last(), at, account);
    }
}

proof fn lemma_entry_replaced(
    entries: Seq<(AccountId, Delegator)>,
    at: int,
    account: AccountId,
    record: Delegator,
)
    requires
        0 <= at < entries.len(),
        entries[at].0@ == account@,
        forall|j: int| at < j < entries.len() ==> (#[trigger] entries[j]).0@ != account@,
    ensures
        entries_map(entries.update(at, (account, record))) == entries_map(entries).insert(
            account@,
            record,
        ),
    decreases entries.len(),
{
    let updated = entries.update(at, (account, record));
    if at < entries.len() - 1 {
        lemma_entry_replaced(entries.drop_last(), at, account, record);
        assert(updated.drop_last() =~= entries.drop_last().update(at, (account, record)));
    } else {
        assert(updated.drop_last() =~= entries.drop_last());
    }
    assert(entries_map(updated) =~= entries_map(entries).insert(account@, record));
}

} // verus!
