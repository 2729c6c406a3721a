//! The ledger: every live account under its address.
//!
//! The ledger is the storage that the escrow operations run against. Seen
//! from a contract it is a map from addresses to accounts; no asset in it
//! has more in circulation than a balance can count.

use crate::accounts::{
    capital, escrow_at, holding, lamports, lemma_empty_is_valid, lemma_insert, lemma_remove,
    mint_at, supply, token_at, valid, Account, AccountData, Mint, Rent, TokenAccount,
};
use crate::address::Address;
use crate::state::Escrow;
use vstd::prelude::*;

verus! {

#[derive(Clone, Copy, Debug)]
struct Entry {
    key: Address,
    account: Account,
}

/// The accounts of a host, the id under which the escrow program runs on
/// it, and the reserves that it asks for new accounts.
#[derive(Debug)]
pub struct Ledger {
    program_id: Address,
    rent: Rent,
    entries: Vec<Entry>,
}

spec fn has_key(entries: Seq<Entry>, key: Address) -> bool {
    exists|i: int| 0 <= i < entries.len() && (#[trigger] entries[i]).key == key
}

spec fn index_of(entries: Seq<Entry>, key: Address) -> int {
    choose|i: int| 0 <= i < entries.len() && (#[trigger] entries[i]).key == key
}

spec fn distinct(entries: Seq<Entry>) -> bool {
    forall|i: int, j: int|
        0 <= i < j < entries.len() ==> (#[trigger] entries[i]).key != (#[trigger] entries[j]).key
}

spec fn as_map(entries: Seq<Entry>) -> Map<Address, Account> {
    Map::new(
        |key: Address| has_key(entries, key),
        |key: Address| entries[index_of(entries, key)].account,
    )
}

proof fn lemma_as_map_at(entries: Seq<Entry>, i: int)
    requires
        distinct(entries),
        0 <= i < entries.len(),
    ensures
        as_map(entries).dom().contains(entries[i].key),
        as_map(entries)[entries[i].key] == entries[i].account,
{
    let key = entries[i].key;
    assert(has_key(entries, key));
    let j = index_of(entries, key);
    assert(0 <= j < entries.len() && entries[j].key == key);
    assert(i == j);
}

proof fn lemma_as_map_absent(entries: Seq<Entry>, key: Address)
    requires
        forall|i: int| 0 <= i < entries.len() ==> (#[trigger] entries[i]).key != key,
    ensures
        !as_map(entries).dom().contains(key),
{
}

proof fn lemma_as_map_push(entries: Seq<Entry>, entry: Entry)
    requires
        distinct(entries),
        !has_key(entries, entry.key),
    ensures
        distinct(entries.push(entry)),
        as_map(entries.push(entry)) == as_map(entries).insert(entry.key, entry.account),
{
    let after = entries.push(entry);
    assert(distinct(after)) by {
        assert forall|i: int, j: int| 0 <= i < j < after.len() implies (#[trigger] after[i]).key != (
        #[trigger] after[j]).key by {
            if j == entries.len() {
                assert(entries[i].key != entry.key);
            } else {
                assert(entries[i].key != entries[j].key);
            }
        }
    }
    let want = as_map(entries).insert(entry.key, entry.account);
    assert forall|key: Address| #[trigger] as_map(after).dom().contains(key) == want.dom().contains(
        key,
    ) by {
        if key == entry.key {
            assert(after[entries.len() as int].key == key);
        } else if has_key(entries, key) {
            let i = index_of(entries, key);
            assert(after[i].key == key);
        } else if has_key(after, key) {
            let i = index_of(after, key);
            assert(entries[i].key == key);
        }
    }
    assert forall|key: Address| #[trigger] as_map(after).dom().contains(key) implies as_map(
        after,
    )[key] == want[key] by {
        let i = index_of(after, key);
        lemma_as_map_at(after, i);
        if i < entries.len() {
            assert(entries[i].key == key);
            lemma_as_map_at(entries, i);
        }
    }
    assert(as_map(after) =~= want);
}

proof fn lemma_as_map_update(entries: Seq<Entry>, i: int, account: Account)
    requires
        distinct(entries),
        0 <= i < entries.len(),
    ensures
        distinct(entries.update(i, Entry { key: entries[i].key, account })),
        as_map(entries.update(i, Entry { key: entries[i].key, account })) == as_map(
            entries,
        ).insert(entries[i].key, account),
{
    let key = entries[i].key;
    let after = entries.update(i, Entry { key, account });
    assert(distinct(after)) by {
        assert forall|a: int, b: int| 0 <= a < b < after.len() implies (#[trigger] after[a]).key != (
        #[trigger] after[b]).key by {
            assert(entries[a].key != entries[b].key);
        }
    }
    let want = as_map(entries).insert(key, account);
    assert forall|k: Address| #[trigger] as_map(after).dom().contains(k) == want.dom().contains(
        k,
    ) by {
        if has_key(entries, k) {
            let j = index_of(entries, k);
            assert(after[j].key == k);
        } else if has_key(after, k) {
            let j = index_of(after, k);
            assert(entries[j].key == k);
        }
        if k == key {
            assert(after[i].key == k);
        }
    }
    assert forall|k: Address| #[trigger] as_map(after).dom().contains(k) implies as_map(after)[k]
        == want[k] by {
        let j = index_of(after, k);
        lemma_as_map_at(after, j);
        assert(entries[j].key == k);
        lemma_as_map_at(entries, j);
    }
    assert(as_map(after) =~= want);
}

proof fn lemma_as_map_remove(entries: Seq<Entry>, i: int)
    requires
        distinct(entries),
        0 <= i < entries.len(),
    ensures
        distinct(entries.remove(i)),
        as_map(entries.remove(i)) == as_map(entries).remove(entries[i].key),
{
    let key = entries[i].key;
    let after = entries.remove(i);
    assert forall|a: int| 0 <= a < after.len() implies #[trigger] after[a] == entries[if a < i {
        a
    } else {
        a + 1
    }] by {}
    assert(distinct(after)) by {
        assert forall|a: int, b: int| 0 <= a < b < after.len() implies (#[trigger] after[a]).key != (
        #[trigger] after[b]).key by {
            let a0 = if a < i { a } else { a + 1 };
            let b0 = if b < i { b } else { b + 1 };
            assert(entries[a0].key != entries[b0].key);
        }
    }
    let want = as_map(entries).remove(key);
    assert forall|k: Address| #[trigger] as_map(after).dom().contains(k) == want.dom().contains(
        k,
    ) by {
        if has_key(after, k) {
            let a = index_of(after, k);
            let a0 = if a < i { a } else { a + 1 };
            assert(entries[a0].key == k);
            assert(entries[a0].key != entries[i].key);
        }
        if k != key && has_key(entries, k) {
            let j = index_of(entries, k);
            let a = if j < i { j } else { j - 1 };
            assert(after[a].key == k);
        }
    }
    assert forall|k: Address| #[trigger] as_map(after).dom().contains(k) implies as_map(after)[k]
        == want[k] by {
        let a = index_of(after, k);
        lemma_as_map_at(after, a);
        let a0 = if a < i { a } else { a + 1 };
        assert(entries[a0].key == k);
        lemma_as_map_at(entries, a0);
    }
    assert(as_map(after) =~= want);
}

proof fn lemma_as_map_finite(entries: Seq<Entry>)
    ensures
        as_map(entries).dom().finite(),
    decreases entries.len(),
{
    if entries.len() == 0 {
        assert(as_map(entries).dom() =~= Set::<Address>::empty());
    } else {
        let front = entries.drop_last();
        let last = entries.last();
        lemma_as_map_finite(front);
        assert forall|key: Address| #[trigger] as_map(entries).dom().contains(key) == as_map(
            front,
        ).dom().insert(last.key).contains(key) by {
            if has_key(entries, key) {
                let i = index_of(entries, key);
                if i < front.len() {
                    assert(front[i].key == key);
                }
            }
            if has_key(front, key) {
                let i = index_of(front, key);
                assert(entries[i].key == key);
            }
            if key == last.key {
                assert(entries[entries.len() - 1].key == key);
            }
        }
        assert(as_map(entries).dom() =~= as_map(front).dom().insert(last.key));
    }
}

/// The map of the first `i + 1` entries is the map of the first `i` with
/// one account more, at an address that was free.
proof fn lemma_as_map_next(entries: Seq<Entry>, i: int)
    requires
        distinct(entries),
        0 <= i < entries.len(),
    ensures
        as_map(entries.take(i)).dom().finite(),
        !as_map(entries.take(i)).dom().contains(entries[i].key),
        as_map(entries.take(i + 1)) == as_map(entries.take(i)).insert(
            entries[i].key,
            entries[i].account,
        ),
{
    let front = entries.take(i);
    let entry = entries[i];
    assert(front.push(entry) =~= entries.take(i + 1));
    assert(distinct(front)) by {
        assert forall|a: int, b: int| 0 <= a < b < front.len() implies (#[trigger] front[a]).key != (
        #[trigger] front[b]).key by {
            assert(entries[a].key != entries[b].key);
        }
    }
    assert(!has_key(front, entry.key)) by {
        if has_key(front, entry.key) {
            let j = index_of(front, entry.key);
            assert(entries[j].key != entries[i].key);
        }
    }
    lemma_as_map_push(front, entry);
    lemma_as_map_finite(front);
}

proof fn lemma_as_map_len(entries: Seq<Entry>)
    requires
        distinct(entries),
    ensures
        as_map(entries).dom().finite(),
        as_map(entries).dom().len() == entries.len(),
    decreases entries.len(),
{
    lemma_as_map_finite(entries);
    if entries.len() == 0 {
        assert(as_map(entries).dom() =~= Set::<Address>::empty());
    } else {
        let front = entries.drop_last();
        let last = entries.last();
        assert(distinct(front)) by {
            assert forall|a: int, b: int| 0 <= a < b < front.len() implies (#[trigger] front[a]).key
                != (#[trigger] front[b]).key by {
                assert(entries[a].key != entries[b].key);
            }
        }
        assert(!has_key(front, last.key)) by {
            if has_key(front, last.key) {
                let j = index_of(front, last.key);
                assert(entries[j].key != entries[entries.len() - 1].key);
            }
        }
        lemma_as_map_len(front);
        assert(front.push(last) =~= entries);
        lemma_as_map_push(front, last);
    }
}

impl View for Ledger {
    type V = Map<Address, Account>;

    closed spec fn view(&self) -> Map<Address, Account> {
        as_map(self.entries@)
    }
}

impl Ledger {
    /// The id under which the escrow program runs on this ledger.
    pub closed spec fn spec_program_id(&self) -> Address {
        self.program_id
    }

    /// The reserves that new accounts are created with on this ledger.
    pub closed spec fn spec_rent(&self) -> Rent {
        self.rent
    }

    /// The two ledgers belong to one host: the program id and the
    /// reserves are the same.
    pub open spec fn same_host(&self, other: Ledger) -> bool {
        &&& self.spec_program_id() == other.spec_program_id()
        &&& self.spec_rent() == other.spec_rent()
    }

    /// No address occurs twice, and the accounts form a valid state.
    pub closed spec fn wf(&self) -> bool {
        &&& distinct(self.entries@)
        &&& valid(self@)
    }

    pub proof fn lemma_wf_valid(&self)
        requires
            self.wf(),
        ensures
            valid(self@),
    {
    }

    /// An empty ledger for the program `program_id`, on a host that asks
    /// the reserves `rent`.
    pub fn new(program_id: Address, rent: Rent) -> (ledger: Ledger)
        ensures
            ledger.wf(),
            ledger@ == Map::<Address, Account>::empty(),
            ledger.spec_program_id() == program_id,
            ledger.spec_rent() == rent,
            capital(ledger@) == 0,
            forall|mint: Address| supply(ledger@, mint) == 0,
    {
        let ledger = Ledger { program_id, rent, entries: Vec::new() };
        proof {
            assert(ledger@ =~= Map::<Address, Account>::empty());
            lemma_empty_is_valid();
        }
        ledger
    }

    #[verifier::when_used_as_spec(spec_rent)]
    pub fn rent(&self) -> (rent: Rent)
        ensures
            rent == self.spec_rent(),
    {
        self.rent
    }

    #[verifier::when_used_as_spec(spec_program_id)]
    pub fn program_id(&self) -> (id: Address)
        ensures
            id == self.spec_program_id(),
    {
        self.program_id
    }

    fn position(&self, key: &Address) -> (r: Option<usize>)
        ensures
            match r {
                Some(i) => i < self.entries@.len() && self.entries@[i as int].key == *key,
                None => !has_key(self.entries@, *key),
            },
    {
        let mut i: usize = 0;
        while i < self.entries.len()
            invariant
                i <= self.entries@.len(),
                forall|j: int| 0 <= j < i ==> (#[trigger] self.entries@[j]).key != *key,
            decreases self.entries@.len() - i,
        {
            if self.entries[i].key == *key {
                return Some(i);
            }
            i += 1;
        }
        None
    }

    /// The account at `key`, if one lives there.
    pub fn get(&self, key: &Address) -> (r: Option<Account>)
        requires
            self.wf(),
        ensures
            r == (if self@.dom().contains(*key) {
                Some(self@[*key])
            } else {
                None
            }),
    {
        match self.position(key) {
            Some(i) => {
                proof {
                    lemma_as_map_at(self.entries@, i as int);
                }
                Some(self.entries[i].account)
            },
            None => None,
        }
    }

    /// The lamports of the account at `key`; zero where there is none.
    pub fn lamports(&self, key: &Address) -> (r: u64)
        requires
            self.wf(),
        ensures
            r == lamports(self@, *key),
    {
        match self.get(key) {
            Some(account) => account.lamports,
            None => 0,
        }
    }

    /// The mint registered at `key`, if there is one.
    pub fn mint(&self, key: &Address) -> (r: Option<Mint>)
        requires
            self.wf(),
        ensures
            r == mint_at(self@, *key),
    {
        match self.get(key) {
            Some(account) => match account.data {
                AccountData::Mint(m) => Some(m),
                _ => None,
            },
            None => None,
        }
    }

    /// The token account at `key`, if there is one.
    pub fn token_account(&self, key: &Address) -> (r: Option<TokenAccount>)
        requires
            self.wf(),
        ensures
            r == token_at(self@, *key),
    {
        match self.get(key) {
            Some(account) => match account.data {
                AccountData::Token(t) => Some(t),
                _ => None,
            },
            None => None,
        }
    }

    /// The escrow record at `key`, if there is one.
    pub fn escrow(&self, key: &Address) -> (r: Option<Escrow>)
        requires
            self.wf(),
        ensures
            r == escrow_at(self@, *key),
    {
        match self.get(key) {
            Some(account) => match account.data {
                AccountData::Escrow(record) => Some(record),
                _ => None,
            },
            None => None,
        }
    }

    /// How many accounts live on the ledger.
    pub fn len(&self) -> (n: usize)
        requires
            self.wf(),
        ensures
            n == self@.dom().len(),
    {
        proof {
            lemma_as_map_len(self.entries@);
        }
        self.entries.len()
    }

    /// The sum of all balances of `mint`.
    pub fn supply(&self, mint: &Address) -> (total: u64)
        requires
            self.wf(),
        ensures
            total == supply(self@, *mint),
    {
        let mut sum: u128 = 0;
        let mut i: usize = 0;
        proof {
            assert(self.entries@.take(0) =~= Seq::<Entry>::empty());
            assert(as_map(self.entries@.take(0)) =~= Map::<Address, Account>::empty());
            lemma_empty_is_valid();
        }
        while i < self.entries.len()
            invariant
                i <= self.entries@.len(),
                distinct(self.entries@),
                sum == supply(as_map(self.entries@.take(i as int)), *mint),
                sum <= i * u64::MAX,
            decreases self.entries@.len() - i,
        {
            let entry = self.entries[i];
            let held: u64 = match entry.account.data {
                AccountData::Token(t) => if t.mint == *mint {
                    t.amount
                } else {
                    0
                },
                _ => 0,
            };
            proof {
                let front = self.entries@.take(i as int);
                lemma_as_map_next(self.entries@, i as int);
                lemma_insert(as_map(front), entry.key, entry.account);
                assert(held == holding(entry.account, *mint));
                assert(supply(as_map(front).insert(entry.key, entry.account), *mint) == supply(
                    as_map(front),
                    *mint,
                ) + held);
                assert((i + 1) * u64::MAX == i * u64::MAX + u64::MAX) by (nonlinear_arith);
                assert(i * u64::MAX <= usize::MAX * u64::MAX) by (nonlinear_arith)
                    requires
                        i <= usize::MAX,
                ;
            }
            sum = sum + held as u128;
            i += 1;
        }
        proof {
            assert(self.entries@.take(self.entries@.len() as int) =~= self.entries@);
        }
        sum as u64
    }

    /// The sum of the lamports of all accounts.
    pub fn capital(&self) -> (total: u64)
        requires
            self.wf(),
        ensures
            total == capital(self@),
    {
        let mut sum: u128 = 0;
        let mut i: usize = 0;
        proof {
            assert(self.entries@.take(0) =~= Seq::<Entry>::empty());
            assert(as_map(self.entries@.take(0)) =~= Map::<Address, Account>::empty());
            lemma_empty_is_valid();
        }
        while i < self.entries.len()
            invariant
                i <= self.entries@.len(),
                distinct(self.entries@),
                sum == capital(as_map(self.entries@.take(i as int))),
                sum <= i * u64::MAX,
            decreases self.entries@.len() - i,
        {
            let entry = self.entries[i];
            proof {
                let front = self.entries@.take(i as int);
                lemma_as_map_next(self.entries@, i as int);
                lemma_insert(as_map(front), entry.key, entry.account);
                assert((i + 1) * u64::MAX == i * u64::MAX + u64::MAX) by (nonlinear_arith);
                assert(i * u64::MAX <= usize::MAX * u64::MAX) by (nonlinear_arith)
                    requires
                        i <= usize::MAX,
                ;
            }
            sum = sum + entry.account.lamports as u128;
            i += 1;
        }
        proof {
            assert(self.entries@.take(self.entries@.len() as int) =~= self.entries@);
        }
        sum as u64
    }

    /// Writes `account` at `key`, over whatever lived there.
    pub(crate) fn put(&mut self, key: Address, account: Account)
        requires
            old(self).wf(),
            valid(old(self)@.insert(key, account)),
        ensures
            final(self).wf(),
            final(self)@ == old(self)@.insert(key, account),
            final(self).same_host(*old(self)),
    {
        match self.position(&key) {
            Some(i) => {
                proof {
                    lemma_as_map_update(self.entries@, i as int, account);
                }
                self.entries.set(i, Entry { key, account });
            },
            None => {
                proof {
                    lemma_as_map_push(self.entries@, Entry { key, account });
                }
                self.entries.push(Entry { key, account });
            },
        }
    }

    /// Takes the account at `key` out of the ledger.
    pub(crate) fn delete(&mut self, key: &Address)
        requires
            old(self).wf(),
        ensures
            final(self).wf(),
            final(self)@ == old(self)@.remove(*key),
            final(self).same_host(*old(self)),
    {
        match self.position(key) {
            Some(i) => {
                proof {
                    lemma_as_map_remove(self.entries@, i as int);
                    lemma_as_map_at(self.entries@, i as int);
                    lemma_remove(self@, *key);
                }
                self.entries.remove(i);
            },
            None => {
                proof {
                    assert(self@.remove(*key) =~= self@);
                }
            },
        }
    }

    /// A copy of the ledger, to work on and to keep or to drop.
    pub fn snapshot(&self) -> (copy: Ledger)
        ensures
            copy@ == self@,
            copy.wf() == self.wf(),
            copy.same_host(*self),
    {
        let mut entries: Vec<Entry> = Vec::new();
        let mut i: usize = 0;
        while i < self.entries.len()
            invariant
                i <= self.entries@.len(),
                entries@ == self.entries@.take(i as int),
            decreases self.entries@.len() - i,
        {
            entries.push(self.entries[i]);
            assert(self.entries@.take(i as int).push(self.entries@[i as int])
                =~= self.entries@.take(i + 1));
            i += 1;
        }
        assert(self.entries@.take(self.entries@.len() as int) =~= self.entries@);
        Ledger { program_id: self.program_id, rent: self.rent, entries }
    }
}

} // verus!
