use vstd::prelude::*;

use crate::error::SettlementError;
use crate::types::{Address, TokenType, U256};

verus! {

// ---------------------------------------------------------------------------
// Byte-lexicographic order on fixed-width keys
// ---------------------------------------------------------------------------

/// Lexicographic strict order on byte sequences of equal length, decided
/// from position `i` on.
pub open spec fn bytes_lt_from(a: Seq<u8>, b: Seq<u8>, i: int) -> bool
    decreases a.len() - i,
{
    if i < 0 || i >= a.len() || i >= b.len() {
        false
    } else if a[i] < b[i] {
        true
    } else if a[i] > b[i] {
        false
    } else {
        bytes_lt_from(a, b, i + 1)
    }
}

/// Lexicographic strict order on byte sequences of equal length.
pub open spec fn bytes_lt(a: Seq<u8>, b: Seq<u8>) -> bool {
    bytes_lt_from(a, b, 0)
}

/// The order is irreflexive.
pub proof fn lemma_bytes_lt_irrefl(a: Seq<u8>, i: int)
    ensures
        !bytes_lt_from(a, a, i),
    decreases a.len() - i,
{
    if 0 <= i && i < a.len() {
        lemma_bytes_lt_irrefl(a, i + 1);
    }
}

/// The order is asymmetric.
pub proof fn lemma_bytes_lt_asym(a: Seq<u8>, b: Seq<u8>, i: int)
    ensures
        !(bytes_lt_from(a, b, i) && bytes_lt_from(b, a, i)),
    decreases a.len() - i,
{
    if 0 <= i && i < a.len() && i < b.len() {
        if a[i] == b[i] {
            lemma_bytes_lt_asym(a, b, i + 1);
        }
    }
}

/// Two equal-length sequences are ordered one way or the other, or equal.
pub proof fn lemma_bytes_lt_connex(a: Seq<u8>, b: Seq<u8>, i: int)
    requires
        0 <= i <= a.len(),
        a.len() == b.len(),
    ensures
        bytes_lt_from(a, b, i) || bytes_lt_from(b, a, i) || a.skip(i) =~= b.skip(i),
    decreases a.len() - i,
{
    if i == a.len() {
        assert(a.skip(i) =~= b.skip(i));
    } else if a[i] == b[i] {
        lemma_bytes_lt_connex(a, b, i + 1);
        if a.skip(i + 1) =~= b.skip(i + 1) {
            assert forall|j: int| 0 <= j < a.skip(i).len() implies a.skip(i)[j] == b.skip(i)[j] by {
                if j > 0 {
                    assert(a.skip(i)[j] == a.skip(i + 1)[j - 1]);
                    assert(b.skip(i)[j] == b.skip(i + 1)[j - 1]);
                }
            }
            assert(a.skip(i) =~= b.skip(i));
        }
    }
}

/// The order is transitive.
pub proof fn lemma_bytes_lt_trans(a: Seq<u8>, b: Seq<u8>, c: Seq<u8>, i: int)
    requires
        a.len() == b.len(),
        b.len() == c.len(),
        bytes_lt_from(a, b, i),
        bytes_lt_from(b, c, i),
    ensures
        bytes_lt_from(a, c, i),
    decreases a.len() - i,
{
    if 0 <= i && i < a.len() {
        if a[i] == b[i] && b[i] == c[i] {
            lemma_bytes_lt_trans(a, b, c, i + 1);
        }
    }
}

/// Ordered keys are distinct.
pub proof fn lemma_bytes_lt_ne(a: Seq<u8>, b: Seq<u8>)
    requires
        bytes_lt(a, b),
    ensures
        !(a =~= b),
{
    if a =~= b {
        lemma_bytes_lt_irrefl(a, 0);
    }
}

/// Compares two addresses in byte-lexicographic order.
pub fn addr_lt(a: &Address, b: &Address) -> (r: bool)
    ensures
        r == bytes_lt(a.0@, b.0@),
{
    let mut i: usize = 0;
    while i < 20
        invariant
            0 <= i <= 20,
            bytes_lt_from(a.0@, b.0@, 0) == bytes_lt_from(a.0@, b.0@, i as int),
        decreases 20 - i,
    {
        if a.0[i] < b.0[i] {
            return true;
        }
        if a.0[i] > b.0[i] {
            return false;
        }
        i = i + 1;
    }
    false
}

// ---------------------------------------------------------------------------
// Per-account balances
// ---------------------------------------------------------------------------

/// The balances an account holds, one per token kind.
#[derive(Debug, Clone, Copy, PartialEq, Eq)]
pub struct TokenBalances {
    /// Gas token balance.
    pub gcc: U256,
    /// Governance token balance.
    pub spirit: U256,
    /// Utility token balance.
    pub mana: U256,
    /// Brand token balance.
    pub ghost_token: U256,
}

impl TokenBalances {
    /// The stored bytes of the balance in token `t`.
    pub open spec fn spec_get(self, t: TokenType) -> Seq<u8> {
        match t {
            TokenType::Gcc => self.gcc.0@,
            TokenType::Spirit => self.spirit.0@,
            TokenType::Mana => self.mana.0@,
            TokenType::GhostToken => self.ghost_token.0@,
        }
    }

    /// All balances as a total map over the token kinds.
    pub open spec fn view(self) -> Map<TokenType, Seq<u8>> {
        Map::new(|t: TokenType| true, |t: TokenType| self.spec_get(t))
    }

    /// A record of four zero balances.
    pub fn zeroed() -> (r: TokenBalances)
        ensures
            forall|t: TokenType| crate::types::low64_of(#[trigger] r.spec_get(t)) == 0,
            forall|t: TokenType| (#[trigger] r.spec_get(t)).len() == 32,
            forall|t: TokenType, i: int|
                0 <= i < 32 ==> #[trigger] r.spec_get(t)[i] == 0u8,
    {
        TokenBalances {
            gcc: U256::zero(),
            spirit: U256::zero(),
            mana: U256::zero(),
            ghost_token: U256::zero(),
        }
    }

    /// The balance held in token `t`.
    pub fn get(&self, t: TokenType) -> (r: U256)
        ensures
            r.0@ == self.spec_get(t),
    {
        match t {
            TokenType::Gcc => self.gcc,
            TokenType::Spirit => self.spirit,
            TokenType::Mana => self.mana,
            TokenType::GhostToken => self.ghost_token,
        }
    }

    /// Replaces the balance held in token `t`.
    pub fn set(&mut self, t: TokenType, v: U256)
        ensures
            final(self).spec_get(t) == v.0@,
            forall|u: TokenType| u != t ==> #[trigger] final(self).spec_get(u) == old(self).spec_get(u),
    {
        match t {
            TokenType::Gcc => {
                self.gcc = v;
            },
            TokenType::Spirit => {
                self.spirit = v;
            },
            TokenType::Mana => {
                self.mana = v;
            },
            TokenType::GhostToken => {
                self.ghost_token = v;
            },
        }
    }
}

// ---------------------------------------------------------------------------
// Storage slots of one account
// ---------------------------------------------------------------------------

/// One storage slot and its stored word.
#[derive(Debug, Clone, Copy, PartialEq, Eq)]
pub struct SlotEntry {
    /// The slot key.
    pub slot: U256,
    /// The stored word.
    pub value: U256,
}

/// The storage of one account: a table of slots with distinct keys, read
/// and written through `get` and `upsert`.
#[derive(Debug, Clone, PartialEq, Eq)]
pub struct SlotTable {
    entries: Vec<SlotEntry>,
}

impl SlotTable {
    /// The table's slot keys are distinct.
    pub closed spec fn wf(self) -> bool {
        forall|i: int, j: int|
            0 <= i < j < self.entries@.len() ==> !(self.entries@[i].slot.0@
                =~= self.entries@[j].slot.0@)
    }

    /// Whether some entry holds slot key `k`.
    pub closed spec fn contains_slot(self, k: Seq<u8>) -> bool {
        exists|i: int| 0 <= i < self.entries@.len() && self.entries@[i].slot.0@ =~= k
    }

    /// The index of the entry holding slot key `k`.
    spec fn index_of(self, k: Seq<u8>) -> int {
        choose|i: int| 0 <= i < self.entries@.len() && self.entries@[i].slot.0@ =~= k
    }

    /// A witness index for a contained slot key.
    proof fn witness_of(self, k: Seq<u8>) -> (i: int)
        requires
            self.contains_slot(k),
        ensures
            0 <= i < self.entries@.len(),
            self.entries@[i].slot.0@ =~= k,
    {
        choose|i: int| 0 <= i < self.entries@.len() && self.entries@[i].slot.0@ =~= k
    }

    /// The slots as a map from key bytes to value bytes.
    pub closed spec fn view(self) -> Map<Seq<u8>, Seq<u8>> {
        Map::new(
            |k: Seq<u8>| self.contains_slot(k),
            |k: Seq<u8>| self.entries@[self.index_of(k)].value.0@,
        )
    }

    /// The number of slots held.
    pub closed spec fn spec_len(self) -> nat {
        self.entries@.len()
    }

    /// In a well-formed table, the entry at `i` is what the view maps its
    /// key to.
    proof fn lemma_at(self, i: int)
        requires
            self.wf(),
            0 <= i < self.entries@.len(),
        ensures
            self.view().contains_key(self.entries@[i].slot.0@),
            self.view()[self.entries@[i].slot.0@] == self.entries@[i].value.0@,
    {
        let k = self.entries@[i].slot.0@;
        assert(self.contains_slot(k));
        let j = self.index_of(k);
        assert(0 <= j < self.entries@.len() && self.entries@[j].slot.0@ =~= k);
        if i != j {
            assert(false);
        }
    }

    /// An empty storage table.
    pub fn new() -> (r: SlotTable)
        ensures
            r.wf(),
            r.view() =~= Map::<Seq<u8>, Seq<u8>>::empty(),
            r.spec_len() == 0,
    {
        let r = SlotTable { entries: Vec::new() };
        proof {
            assert forall|k: Seq<u8>| !r.contains_slot(k) by {}
        }
        r
    }

    /// Reads the word stored in `slot`, if any.
    pub fn get(&self, slot: &U256) -> (r: Option<U256>)
        requires
            self.wf(),
        ensures
            match r {
                Some(v) => self.view().contains_key(slot.0@) && v.0@ == self.view()[slot.0@],
                None => !self.view().contains_key(slot.0@),
            },
    {
        let n = self.entries.len();
        let mut i: usize = 0;
        while i < n
            invariant
                self.wf(),
                n == self.entries@.len(),
                0 <= i <= n,
                forall|j: int| 0 <= j < i ==> !(self.entries@[j].slot.0@ =~= slot.0@),
            decreases n - i,
        {
            if self.entries[i].slot == *slot {
                proof {
                    self.lemma_at(i as int);
                }
                return Some(self.entries[i].value);
            }
            i = i + 1;
        }
        proof {
            assert(!self.contains_slot(slot.0@));
        }
        None
    }

    /// Stores `value` in `slot`, replacing any previous word.
    pub fn upsert(&mut self, slot: U256, value: U256)
        requires
            old(self).wf(),
        ensures
            final(self).wf(),
            final(self).view() == old(self).view().insert(slot.0@, value.0@),
            final(self).spec_len() == if old(self).view().contains_key(slot.0@) {
                old(self).spec_len()
            } else {
                old(self).spec_len() + 1
            },
    {
        let ghost olds = self.entries@;
        let n = self.entries.len();
        let mut i: usize = 0;
        while i < n
            invariant
                self.wf(),
                olds == old(self).entries@,
                self.entries@ == olds,
                n == olds.len(),
                0 <= i <= n,
                forall|j: int| 0 <= j < i ==> !(olds[j].slot.0@ =~= slot.0@),
            decreases n - i,
        {
            if self.entries[i].slot == slot {
                let e = SlotEntry { slot, value };
                self.entries[i] = e;
                proof {
                    let news = self.entries@;
                    assert(news == olds.update(i as int, e));
                    assert forall|p: int| 0 <= p < news.len() implies news[p].slot.0@ == olds[p].slot.0@ by {
                        if p == i {
                            assert(olds[p].slot.0@ =~= slot.0@);
                        }
                    }
                    assert(self.wf());
                    assert forall|k: Seq<u8>| self.contains_slot(k) == old(self).contains_slot(k) by {
                        if self.contains_slot(k) {
                            let w = self.witness_of(k);
                            assert(olds[w].slot.0@ =~= k);
                            assert(old(self).contains_slot(k));
                        }
                        if old(self).contains_slot(k) {
                            let w = old(self).witness_of(k);
                            assert(news[w].slot.0@ =~= k);
                            assert(self.contains_slot(k));
                        }
                    }
                    assert forall|k: Seq<u8>| self.view().contains_key(k) implies self.view()[k]
                        == old(self).view().insert(slot.0@, value.0@)[k] by {
                        let w = self.index_of(k);
                        assert(0 <= w < news.len() && news[w].slot.0@ =~= k);
                        self.lemma_at(w);
                        if w == i {
                            assert(k =~= slot.0@);
                        } else {
                            assert(!(k =~= slot.0@)) by {
                                if k =~= slot.0@ {
                                    assert(news[w].slot.0@ =~= news[i as int].slot.0@);
                                }
                            }
                            old(self).lemma_at(w);
                        }
                    }
                    assert(self.view() =~= old(self).view().insert(slot.0@, value.0@));
                    old(self).lemma_at(i as int);
                }
                return ;
            }
            i = i + 1;
        }
        let e = SlotEntry { slot, value };
        self.entries.push(e);
        proof {
            let news = self.entries@;
            assert(news == olds.push(e));
            assert(!old(self).contains_slot(slot.0@));
            assert forall|p: int, q: int| 0 <= p < q < news.len() implies !(news[p].slot.0@
                =~= news[q].slot.0@) by {
                if q == news.len() - 1 {
                    assert(news[p] == olds[p]);
                }
            }
            assert(self.wf());
            assert forall|k: Seq<u8>| self.contains_slot(k) == (old(self).contains_slot(k) || k
                =~= slot.0@) by {
                if self.contains_slot(k) {
                    let w = self.witness_of(k);
                    if w < olds.len() {
                        assert(olds[w].slot.0@ =~= k);
                        assert(old(self).contains_slot(k));
                    } else {
                        assert(k =~= slot.0@);
                    }
                }
                if old(self).contains_slot(k) {
                    let w = old(self).witness_of(k);
                    assert(news[w].slot.0@ =~= k);
                    assert(self.contains_slot(k));
                }
                if k =~= slot.0@ {
                    assert(news[news.len() - 1].slot.0@ =~= k);
                    assert(self.contains_slot(k));
                }
            }
            assert forall|k: Seq<u8>| self.view().contains_key(k) implies self.view()[k] == old(self).view().insert(slot.0@, value.0@)[k] by {
                let w = self.index_of(k);
                assert(0 <= w < news.len() && news[w].slot.0@ =~= k);
                self.lemma_at(w);
                if w == news.len() - 1 {
                    assert(k =~= slot.0@);
                } else {
                    assert(!(k =~= slot.0@)) by {
                        if k =~= slot.0@ {
                            assert(news[w].slot.0@ =~= news[news.len() - 1].slot.0@);
                        }
                    }
                    old(self).lemma_at(w);
                }
            }
            assert(self.view() =~= old(self).view().insert(slot.0@, value.0@));
        }
    }
}

// ---------------------------------------------------------------------------
// Accounts
// ---------------------------------------------------------------------------

/// The mathematical content of one account record.
#[verifier::ext_equal]
pub struct AccountView {
    /// Transactions executed from the account so far.
    pub nonce: u64,
    /// Balance bytes per token kind.
    pub balances: Map<TokenType, Seq<u8>>,
    /// Storage slots, key bytes to value bytes.
    pub storage: Map<Seq<u8>, Seq<u8>>,
    /// Root of the account's storage trie.
    pub storage_root: Seq<u8>,
    /// Digest of the account's code.
    pub code_hash: Seq<u8>,
    /// The account's code, if deployed.
    pub code: Option<Seq<u8>>,
}

/// One account's record in the rollup state.
#[derive(Debug, Clone)]
pub struct AccountState {
    /// Transactions executed from the account so far.
    pub nonce: u64,
    /// Balances per token kind.
    pub balances: TokenBalances,
    /// The account's storage slots.
    pub storage: SlotTable,
    /// Root of the account's storage trie.
    pub storage_root: Vec<u8>,
    /// Digest of the account's code.
    pub code_hash: Vec<u8>,
    /// The account's code, if deployed.
    pub code: Option<Vec<u8>>,
    /// When the record was created, in milliseconds.
    pub created_at: u64,
    /// When the record last changed, in milliseconds.
    pub last_updated: u64,
}

impl AccountState {
    /// The record's storage table is well formed.
    pub open spec fn wf(self) -> bool {
        self.storage.wf()
    }

    /// The record's mathematical content. Timestamps are bookkeeping and are
    /// not part of it.
    pub open spec fn view(self) -> AccountView {
        AccountView {
            nonce: self.nonce,
            balances: self.balances.view(),
            storage: self.storage.view(),
            storage_root: self.storage_root@,
            code_hash: self.code_hash@,
            code: match self.code {
                Some(c) => Some(c@),
                None => None,
            },
        }
    }

    /// A fresh record with zero nonce, zero balances and no storage.
    pub fn fresh(now: u64) -> (r: AccountState)
        ensures
            r.wf(),
            r.view() == fresh_account_view(),
            r.created_at == now,
            r.last_updated == now,
    {
        let r = AccountState {
            nonce: 0,
            balances: TokenBalances::zeroed(),
            storage: SlotTable::new(),
            storage_root: Vec::new(),
            code_hash: Vec::new(),
            code: None,
            created_at: now,
            last_updated: now,
        };
        proof {
            assert forall|t: TokenType| #[trigger] r.balances.spec_get(t) =~= zero32() by {
                assert(forall|i: int|
                    0 <= i < 32 ==> #[trigger] r.balances.spec_get(t)[i] == 0u8);
            }
            assert(r.balances.view() =~= fresh_account_view().balances);
            assert(r.view().storage =~= fresh_account_view().storage);
            assert(r.view() =~= fresh_account_view());
        }
        r
    }
}

/// One address and its account record.
#[derive(Debug, Clone)]
pub struct AccountEntry {
    /// The account's address.
    pub addr: Address,
    /// Its record.
    pub state: AccountState,
}

/// The account table of the rollup state: entries sorted by address bytes,
/// strictly increasing, read and written through `get` and `upsert`.
#[derive(Debug, Clone)]
pub struct AccountTable {
    entries: Vec<AccountEntry>,
}

impl AccountTable {
    /// Entries are strictly sorted by address bytes, and each record is well
    /// formed.
    pub closed spec fn wf(self) -> bool {
        (forall|i: int, j: int|
            0 <= i < j < self.entries@.len() ==> bytes_lt(
                self.entries@[i].addr.0@,
                self.entries@[j].addr.0@,
            )) && (forall|i: int| 0 <= i < self.entries@.len() ==> self.entries@[i].state.wf())
    }

    /// The entry sequence, in address order.
    pub closed spec fn spec_entries(self) -> Seq<AccountEntry> {
        self.entries@
    }

    /// Whether some entry holds address bytes `k`.
    pub closed spec fn contains_addr(self, k: Seq<u8>) -> bool {
        exists|i: int| 0 <= i < self.entries@.len() && self.entries@[i].addr.0@ =~= k
    }

    /// The index of the entry holding address bytes `k`.
    spec fn index_of(self, k: Seq<u8>) -> int {
        choose|i: int| 0 <= i < self.entries@.len() && self.entries@[i].addr.0@ =~= k
    }

    /// A witness index for a contained address.
    proof fn witness_of(self, k: Seq<u8>) -> (i: int)
        requires
            self.contains_addr(k),
        ensures
            0 <= i < self.entries@.len(),
            self.entries@[i].addr.0@ =~= k,
    {
        choose|i: int| 0 <= i < self.entries@.len() && self.entries@[i].addr.0@ =~= k
    }

    /// The accounts as a map from address bytes to account content.
    pub closed spec fn view(self) -> Map<Seq<u8>, AccountView> {
        Map::new(
            |k: Seq<u8>| self.contains_addr(k),
            |k: Seq<u8>| self.entries@[self.index_of(k)].state.view(),
        )
    }

    /// The number of accounts held.
    pub closed spec fn spec_len(self) -> nat {
        self.entries@.len()
    }

    /// In a well-formed table, the entry at `i` is what the view maps its
    /// address to.
    pub proof fn lemma_at(self, i: int)
        requires
            self.wf(),
            0 <= i < self.spec_entries().len(),
        ensures
            self.view().contains_key(self.spec_entries()[i].addr.0@),
            self.view()[self.spec_entries()[i].addr.0@] == self.spec_entries()[i].state.view(),
    {
        let k = self.entries@[i].addr.0@;
        assert(self.contains_addr(k));
        let j = self.index_of(k);
        assert(0 <= j < self.entries@.len() && self.entries@[j].addr.0@ =~= k);
        if i < j {
            lemma_bytes_lt_ne(self.entries@[i].addr.0@, self.entries@[j].addr.0@);
        }
        if j < i {
            lemma_bytes_lt_ne(self.entries@[j].addr.0@, self.entries@[i].addr.0@);
        }
    }

    /// An empty account table.
    pub fn new() -> (r: AccountTable)
        ensures
            r.wf(),
            r.view() =~= Map::<Seq<u8>, AccountView>::empty(),
            r.spec_len() == 0,
            r.spec_entries().len() == 0,
    {
        let r = AccountTable { entries: Vec::new() };
        proof {
            assert forall|k: Seq<u8>| !r.contains_addr(k) by {}
        }
        r
    }

    /// The number of accounts held.
    pub fn len(&self) -> (r: usize)
        ensures
            r == self.spec_len(),
            r == self.spec_entries().len(),
    {
        self.entries.len()
    }

    /// The entry at position `i` in address order.
    pub fn entry_at(&self, i: usize) -> (r: &AccountEntry)
        requires
            i < self.spec_entries().len(),
        ensures
            *r == self.spec_entries()[i as int],
    {
        &self.entries[i]
    }

    /// Reads the record of address `a`, if present.
    pub fn get(&self, a: &Address) -> (r: Option<&AccountState>)
        requires
            self.wf(),
        ensures
            match r {
                Some(st) => self.view().contains_key(a.0@) && st.view() == self.view()[a.0@]
                    && st.wf(),
                None => !self.view().contains_key(a.0@),
            },
    {
        let n = self.entries.len();
        let mut i: usize = 0;
        while i < n
            invariant
                self.wf(),
                n == self.entries@.len(),
                0 <= i <= n,
                forall|j: int| 0 <= j < i ==> !(self.entries@[j].addr.0@ =~= a.0@),
            decreases n - i,
        {
            if self.entries[i].addr == *a {
                proof {
                    self.lemma_at(i as int);
                }
                return Some(&self.entries[i].state);
            }
            i = i + 1;
        }
        proof {
            assert(!self.contains_addr(a.0@));
        }
        None
    }

    /// Inserts or replaces the record of address `a`, keeping the table
    /// sorted.
    pub fn upsert(&mut self, a: Address, st: AccountState)
        requires
            old(self).wf(),
            st.wf(),
        ensures
            final(self).wf(),
            final(self).view() == old(self).view().insert(a.0@, st.view()),
            final(self).spec_len() == if old(self).view().contains_key(a.0@) {
                old(self).spec_len()
            } else {
                old(self).spec_len() + 1
            },
    {
        let ghost olds = self.entries@;
        let n = self.entries.len();
        let mut p: usize = 0;
        while p < n && addr_lt(&self.entries[p].addr, &a)
            invariant
                self.wf(),
                olds == old(self).entries@,
                self.entries@ == olds,
                n == olds.len(),
                0 <= p <= n,
                forall|j: int| 0 <= j < p ==> bytes_lt(olds[j].addr.0@, a.0@),
            decreases n - p,
        {
            p = p + 1;
        }
        if p < n && self.entries[p].addr == a {
            let e = AccountEntry { addr: a, state: st };
            self.entries[p] = e;
            proof {
                let news = self.entries@;
                assert(news == olds.update(p as int, e));
                assert forall|q: int| 0 <= q < news.len() implies news[q].addr.0@
                    == olds[q].addr.0@ by {
                    if q == p {
                        assert(olds[q].addr.0@ =~= a.0@);
                    }
                }
                assert(self.wf());
                assert forall|k: Seq<u8>| self.contains_addr(k) == old(self).contains_addr(k) by {
                    if self.contains_addr(k) {
                        let w = self.witness_of(k);
                        assert(olds[w].addr.0@ =~= k);
                        assert(old(self).contains_addr(k));
                    }
                    if old(self).contains_addr(k) {
                        let w = old(self).witness_of(k);
                        assert(news[w].addr.0@ =~= k);
                        assert(self.contains_addr(k));
                    }
                }
                assert forall|k: Seq<u8>| self.view().contains_key(k) implies self.view()[k] == old(self).view().insert(a.0@, st.view())[k] by {
                    let w = self.index_of(k);
                    assert(0 <= w < news.len() && news[w].addr.0@ =~= k);
                    self.lemma_at(w);
                    if w == p {
                        assert(k =~= a.0@);
                    } else {
                        assert(!(k =~= a.0@)) by {
                            if k =~= a.0@ {
                                assert(news[w].addr.0@ =~= news[p as int].addr.0@);
                                if w < p {
                                    lemma_bytes_lt_ne(news[w].addr.0@, news[p as int].addr.0@);
                                } else {
                                    lemma_bytes_lt_ne(news[p as int].addr.0@, news[w].addr.0@);
                                }
                            }
                        }
                        old(self).lemma_at(w);
                    }
                }
                assert(self.view() =~= old(self).view().insert(a.0@, st.view()));
                old(self).lemma_at(p as int);
            }
            return ;
        }
        let e = AccountEntry { addr: a, state: st };
        self.entries.insert(p, e);
        proof {
            let news = self.entries@;
            assert(news == olds.insert(p as int, e));
            assert forall|q: int| p < q < news.len() implies news[q] == olds[q - 1] by {}
            assert forall|q: int| 0 <= q < p implies news[q] == olds[q] by {}
            // every entry at or past the insertion point is above `a`
            assert forall|q: int| p <= q < olds.len() implies bytes_lt(a.0@, olds[q].addr.0@) by {
                lemma_bytes_lt_connex(olds[p as int].addr.0@, a.0@, 0);
                assert(olds[p as int].addr.0@.skip(0) =~= olds[p as int].addr.0@);
                assert(a.0@.skip(0) =~= a.0@);
                if olds[p as int].addr.0@.skip(0) =~= a.0@.skip(0) {
                    assert(olds[p as int].addr.0@ =~= a.0@);
                    assert(false);
                }
                assert(bytes_lt(a.0@, olds[p as int].addr.0@));
                if q > p {
                    assert(bytes_lt(
                        old(self).entries@[p as int].addr.0@,
                        old(self).entries@[q].addr.0@,
                    ));
                    lemma_bytes_lt_trans(a.0@, olds[p as int].addr.0@, olds[q].addr.0@, 0);
                }
            }
            assert(!old(self).contains_addr(a.0@)) by {
                if old(self).contains_addr(a.0@) {
                    let w = old(self).witness_of(a.0@);
                    if w < p {
                        lemma_bytes_lt_ne(olds[w].addr.0@, a.0@);
                    } else {
                        lemma_bytes_lt_ne(a.0@, olds[w].addr.0@);
                    }
                }
            }
            assert forall|i: int, j: int| 0 <= i < j < news.len() implies bytes_lt(
                news[i].addr.0@,
                news[j].addr.0@,
            ) by {
                if i == p {
                    assert(news[j] == olds[j - 1]);
                } else if j == p {
                    assert(news[i] == olds[i]);
                }
            }
            assert(self.wf());
            assert forall|k: Seq<u8>| self.contains_addr(k) == (old(self).contains_addr(k) || k
                =~= a.0@) by {
                if self.contains_addr(k) {
                    let w = self.witness_of(k);
                    if w == p {
                        assert(k =~= a.0@);
                    } else if w < p {
                        assert(olds[w].addr.0@ =~= k);
                        assert(old(self).contains_addr(k));
                    } else {
                        assert(olds[w - 1].addr.0@ =~= k);
                        assert(old(self).contains_addr(k));
                    }
                }
                if old(self).contains_addr(k) {
                    let w = old(self).witness_of(k);
                    if w < p {
                        assert(news[w].addr.0@ =~= k);
                    } else {
                        assert(news[w + 1].addr.0@ =~= k);
                    }
                    assert(self.contains_addr(k));
                }
                if k =~= a.0@ {
                    assert(news[p as int].addr.0@ =~= k);
                    assert(self.contains_addr(k));
                }
            }
            assert forall|k: Seq<u8>| self.view().contains_key(k) implies self.view()[k] == old(self).view().insert(a.0@, st.view())[k] by {
                let w = self.index_of(k);
                assert(0 <= w < news.len() && news[w].addr.0@ =~= k);
                self.lemma_at(w);
                if w == p {
                    assert(k =~= a.0@);
                } else {
                    assert(!(k =~= a.0@)) by {
                        if k =~= a.0@ {
                            assert(news[w].addr.0@ =~= news[p as int].addr.0@);
                            if w < p {
                                lemma_bytes_lt_ne(news[w].addr.0@, news[p as int].addr.0@);
                            } else {
                                lemma_bytes_lt_ne(news[p as int].addr.0@, news[w].addr.0@);
                            }
                        }
                    }
                    if w < p {
                        old(self).lemma_at(w);
                    } else {
                        old(self).lemma_at(w - 1);
                    }
                }
            }
            assert(self.view() =~= old(self).view().insert(a.0@, st.view()));
        }
    }

    /// Removes and returns the record of address `a`, if present.
    pub fn take(&mut self, a: &Address) -> (r: Option<AccountState>)
        requires
            old(self).wf(),
        ensures
            final(self).wf(),
            final(self).view() == old(self).view().remove(a.0@),
            final(self).spec_len() == if old(self).view().contains_key(a.0@) {
                (old(self).spec_len() - 1) as nat
            } else {
                old(self).spec_len()
            },
            match r {
                Some(st) => old(self).view().contains_key(a.0@) && st.view() == old(self).view()[a.0@]
                    && st.wf(),
                None => !old(self).view().contains_key(a.0@),
            },
    {
        let ghost olds = self.entries@;
        let n = self.entries.len();
        let mut i: usize = 0;
        while i < n
            invariant
                self.wf(),
                olds == old(self).entries@,
                self.entries@ == olds,
                n == olds.len(),
                0 <= i <= n,
                forall|j: int| 0 <= j < i ==> !(olds[j].addr.0@ =~= a.0@),
            decreases n - i,
        {
            if self.entries[i].addr == *a {
                proof {
                    old(self).lemma_at(i as int);
                }
                let taken = self.entries.remove(i);
                proof {
                    let news = self.entries@;
                    assert(news == olds.remove(i as int));
                    assert forall|q: int| 0 <= q < i implies news[q] == olds[q] by {}
                    assert forall|q: int| i <= q < news.len() implies news[q] == olds[q + 1] by {}
                    assert forall|x: int, y: int| 0 <= x < y < news.len() implies bytes_lt(
                        news[x].addr.0@,
                        news[y].addr.0@,
                    ) by {
                        if x < i && y >= i {
                            assert(news[y] == olds[y + 1]);
                        }
                    }
                    assert(self.wf());
                    assert forall|k: Seq<u8>| self.contains_addr(k) == (old(self).contains_addr(k)
                        && !(k =~= a.0@)) by {
                        if self.contains_addr(k) {
                            let w = self.witness_of(k);
                            if w < i {
                                assert(olds[w].addr.0@ =~= k);
                                if k =~= a.0@ {
                                    lemma_bytes_lt_ne(olds[w].addr.0@, olds[i as int].addr.0@);
                                }
                            } else {
                                assert(olds[w + 1].addr.0@ =~= k);
                                if k =~= a.0@ {
                                    lemma_bytes_lt_ne(olds[i as int].addr.0@, olds[w + 1].addr.0@);
                                }
                            }
                            assert(old(self).contains_addr(k));
                        }
                        if old(self).contains_addr(k) && !(k =~= a.0@) {
                            let w = old(self).witness_of(k);
                            if w < i {
                                assert(news[w].addr.0@ =~= k);
                            } else {
                                assert(w != i);
                                assert(news[w - 1].addr.0@ =~= k);
                            }
                            assert(self.contains_addr(k));
                        }
                    }
                    assert forall|k: Seq<u8>| self.view().contains_key(k) implies self.view()[k]
                        == old(self).view().remove(a.0@)[k] by {
                        let w = self.index_of(k);
                        assert(0 <= w < news.len() && news[w].addr.0@ =~= k);
                        self.lemma_at(w);
                        if w < i {
                            old(self).lemma_at(w);
                        } else {
                            old(self).lemma_at(w + 1);
                        }
                    }
                    assert(self.view() =~= old(self).view().remove(a.0@));
                }
                return Some(taken.state);
            }
            i = i + 1;
        }
        proof {
            assert(!old(self).contains_addr(a.0@));
            assert(self.view() =~= old(self).view().remove(a.0@));
        }
        None
    }
}

// ---------------------------------------------------------------------------
// Canonical representation of an account table
// ---------------------------------------------------------------------------

/// The entries' address keys are strictly increasing.
pub open spec fn entry_keys_sorted(es: Seq<AccountEntry>) -> bool {
    forall|i: int, j: int| 0 <= i < j < es.len() ==> bytes_lt(es[i].addr.0@, es[j].addr.0@)
}

/// The entries enumerate exactly the accounts of `m`, with matching
/// content.
pub open spec fn entries_match(es: Seq<AccountEntry>, m: Map<Seq<u8>, AccountView>) -> bool {
    (forall|i: int|
        0 <= i < es.len() ==> m.contains_key(#[trigger] es[i].addr.0@) && m[es[i].addr.0@]
            == es[i].state.view()) && (forall|k: Seq<u8>|
        m.contains_key(k) ==> exists|i: int| 0 <= i < es.len() && (#[trigger] es[i].addr.0@) =~= k)
}

impl AccountTable {
    /// A well-formed table's entries are sorted and enumerate its view.
    pub proof fn lemma_entries_canonical(self)
        requires
            self.wf(),
        ensures
            entry_keys_sorted(self.spec_entries()),
            entries_match(self.spec_entries(), self.view()),
    {
        let es = self.spec_entries();
        assert forall|i: int|
            0 <= i < es.len() implies self.view().contains_key(#[trigger] es[i].addr.0@)
            && self.view()[es[i].addr.0@] == es[i].state.view() by {
            self.lemma_at(i);
        }
        assert forall|k: Seq<u8>| self.view().contains_key(k) implies exists|i: int|
            0 <= i < es.len() && (#[trigger] es[i].addr.0@) =~= k by {
            let w = self.witness_of(k);
        }
    }
}

/// Two sorted entry sequences that enumerate the same accounts agree
/// pointwise on keys and content.
#[verifier::rlimit(50)]
pub proof fn lemma_sorted_entries_unique(
    x: Seq<AccountEntry>,
    y: Seq<AccountEntry>,
    m: Map<Seq<u8>, AccountView>,
)
    requires
        entry_keys_sorted(x),
        entry_keys_sorted(y),
        entries_match(x, m),
        entries_match(y, m),
    ensures
        x.len() == y.len(),
        forall|i: int|
            0 <= i < x.len() ==> (#[trigger] x[i].addr.0@) == y[i].addr.0@ && x[i].state.view()
                == y[i].state.view(),
    decreases x.len(),
{
    if x.len() == 0 {
        if y.len() > 0 {
            assert(m.contains_key(y[0].addr.0@));
            assert(exists|i: int| 0 <= i < x.len() && (#[trigger] x[i].addr.0@) =~= y[0].addr.0@);
            assert(false);
        }
    } else {
        assert(y.len() > 0) by {
            if y.len() == 0 {
                assert(m.contains_key(x[0].addr.0@));
                assert(exists|i: int|
                    0 <= i < y.len() && (#[trigger] y[i].addr.0@) =~= x[0].addr.0@);
                assert(false);
            }
        }
        let x0 = x[0].addr.0@;
        let y0 = y[0].addr.0@;
        assert(x0 == y0) by {
            assert(m.contains_key(x0));
            let j = choose|j: int| 0 <= j < y.len() && (#[trigger] y[j].addr.0@) =~= x0;
            assert(m.contains_key(y0));
            let i = choose|i: int| 0 <= i < x.len() && (#[trigger] x[i].addr.0@) =~= y0;
            if i > 0 && j > 0 {
                assert(bytes_lt(x[0].addr.0@, x[i].addr.0@));
                assert(bytes_lt(y[0].addr.0@, y[j].addr.0@));
                lemma_bytes_lt_asym(x0, y0, 0);
                assert(false);
            }
        }
        assert(m.contains_key(x[0].addr.0@));
        assert(m[x[0].addr.0@] == x[0].state.view());
        assert(m.contains_key(y[0].addr.0@));
        assert(m[y[0].addr.0@] == y[0].state.view());
        assert(x[0].state.view() == y[0].state.view());
        let xt = x.drop_first();
        let yt = y.drop_first();
        let mt = m.remove(x0);
        assert(entry_keys_sorted(xt)) by {
            assert forall|i: int, j: int| 0 <= i < j < xt.len() implies bytes_lt(
                xt[i].addr.0@,
                xt[j].addr.0@,
            ) by {
                assert(xt[i] == x[i + 1]);
                assert(xt[j] == x[j + 1]);
            }
        }
        assert(entry_keys_sorted(yt)) by {
            assert forall|i: int, j: int| 0 <= i < j < yt.len() implies bytes_lt(
                yt[i].addr.0@,
                yt[j].addr.0@,
            ) by {
                assert(yt[i] == y[i + 1]);
                assert(yt[j] == y[j + 1]);
            }
        }
        assert(entries_match(xt, mt)) by {
            assert forall|i: int|
                0 <= i < xt.len() implies mt.contains_key(#[trigger] xt[i].addr.0@)
                && mt[xt[i].addr.0@] == xt[i].state.view() by {
                assert(xt[i] == x[i + 1]);
                assert(bytes_lt(x0, x[i + 1].addr.0@));
                lemma_bytes_lt_ne(x0, x[i + 1].addr.0@);
            }
            assert forall|k: Seq<u8>| mt.contains_key(k) implies exists|i: int|
                0 <= i < xt.len() && (#[trigger] xt[i].addr.0@) =~= k by {
                assert(m.contains_key(k));
                let i = choose|i: int| 0 <= i < x.len() && (#[trigger] x[i].addr.0@) =~= k;
                if i == 0 {
                    assert(false);
                }
                assert(xt[i - 1] == x[i]);
                assert((xt[i - 1].addr.0@) =~= k);
            }
        }
        assert(entries_match(yt, mt)) by {
            assert forall|i: int|
                0 <= i < yt.len() implies mt.contains_key(#[trigger] yt[i].addr.0@)
                && mt[yt[i].addr.0@] == yt[i].state.view() by {
                assert(yt[i] == y[i + 1]);
                assert(bytes_lt(y0, y[i + 1].addr.0@));
                lemma_bytes_lt_ne(y0, y[i + 1].addr.0@);
            }
            assert forall|k: Seq<u8>| mt.contains_key(k) implies exists|i: int|
                0 <= i < yt.len() && (#[trigger] yt[i].addr.0@) =~= k by {
                assert(m.contains_key(k));
                let i = choose|i: int| 0 <= i < y.len() && (#[trigger] y[i].addr.0@) =~= k;
                if i == 0 {
                    assert(false);
                }
                assert(yt[i - 1] == y[i]);
                assert((yt[i - 1].addr.0@) =~= k);
            }
        }
        lemma_sorted_entries_unique(xt, yt, mt);
        assert(x.len() == y.len());
        assert forall|i: int|
            0 <= i < x.len() implies (#[trigger] x[i].addr.0@) == y[i].addr.0@ && x[i].state.view()
            == y[i].state.view() by {
            if i == 0 {
                assert(x[0].addr.0@ == y[0].addr.0@);
                assert(x[0].state.view() == y[0].state.view());
            } else {
                assert(xt[i - 1] == x[i]);
                assert(yt[i - 1] == y[i]);
                assert((xt[i - 1].addr.0@) == yt[i - 1].addr.0@);
                assert(xt[i - 1].state.view() == yt[i - 1].state.view());
            }
        }
    }
}

// ---------------------------------------------------------------------------
// Copies
// ---------------------------------------------------------------------------

/// Copies a byte vector.
pub fn copy_bytes(v: &Vec<u8>) -> (r: Vec<u8>)
    ensures
        r@ == v@,
{
    let mut r: Vec<u8> = Vec::new();
    let mut i: usize = 0;
    while i < v.len()
        invariant
            0 <= i <= v@.len(),
            r@ == v@.take(i as int),
        decreases v@.len() - i,
    {
        r.push(v[i]);
        proof {
            assert(r@ =~= v@.take(i + 1));
        }
        i = i + 1;
    }
    proof {
        assert(r@ =~= v@);
    }
    r
}

impl SlotTable {
    /// Tables with the same entries have the same content.
    proof fn lemma_congruent(a: SlotTable, b: SlotTable)
        requires
            a.entries@ == b.entries@,
            a.wf(),
        ensures
            b.wf(),
            a.view() == b.view(),
            a.spec_len() == b.spec_len(),
    {
        assert(b.wf());
        assert forall|k: Seq<u8>| a.contains_slot(k) == b.contains_slot(k) by {}
        assert forall|k: Seq<u8>| a.contains_slot(k) implies a.view()[k] == b.view()[k] by {
            let w = a.witness_of(k);
            a.lemma_at(w);
            b.lemma_at(w);
        }
        assert(a.view() =~= b.view());
    }

    /// A copy of the table with the same content.
    pub fn duplicate(&self) -> (r: SlotTable)
        requires
            self.wf(),
        ensures
            r.wf(),
            r.view() == self.view(),
            r.spec_len() == self.spec_len(),
    {
        let mut entries: Vec<SlotEntry> = Vec::new();
        let mut i: usize = 0;
        while i < self.entries.len()
            invariant
                0 <= i <= self.entries@.len(),
                entries@ == self.entries@.take(i as int),
            decreases self.entries@.len() - i,
        {
            entries.push(self.entries[i]);
            proof {
                assert(entries@ =~= self.entries@.take(i + 1));
            }
            i = i + 1;
        }
        let r = SlotTable { entries };
        proof {
            assert(r.entries@ =~= self.entries@);
            SlotTable::lemma_congruent(*self, r);
        }
        r
    }
}

impl AccountState {
    /// A copy of the record with the same content.
    pub fn duplicate(&self) -> (r: AccountState)
        requires
            self.wf(),
        ensures
            r.wf(),
            r.view() == self.view(),
            r.nonce == self.nonce,
            r.balances == self.balances,
    {
        AccountState {
            nonce: self.nonce,
            balances: self.balances,
            storage: self.storage.duplicate(),
            storage_root: copy_bytes(&self.storage_root),
            code_hash: copy_bytes(&self.code_hash),
            code: match &self.code {
                Some(c) => Some(copy_bytes(c)),
                None => None,
            },
            created_at: self.created_at,
            last_updated: self.last_updated,
        }
    }
}

impl AccountTable {
    /// Tables with the same entries have the same content.
    proof fn lemma_congruent(a: AccountTable, b: AccountTable)
        requires
            a.entries@.len() == b.entries@.len(),
            a.wf(),
            forall|i: int|
                0 <= i < a.entries@.len() ==> a.entries@[i].addr == b.entries@[i].addr
                    && a.entries@[i].state.view() == b.entries@[i].state.view()
                    && b.entries@[i].state.wf(),
        ensures
            b.wf(),
            a.view() == b.view(),
            a.spec_len() == b.spec_len(),
    {
        assert forall|k: Seq<u8>| a.contains_addr(k) == b.contains_addr(k) by {
            if a.contains_addr(k) {
                let w = a.witness_of(k);
                assert(b.entries@[w].addr.0@ =~= k);
            }
            if b.contains_addr(k) {
                let w = b.witness_of(k);
                assert(a.entries@[w].addr.0@ =~= k);
            }
        }
        assert(b.wf());
        assert forall|k: Seq<u8>| a.contains_addr(k) implies a.view()[k] == b.view()[k] by {
            let w = a.witness_of(k);
            a.lemma_at(w);
            b.lemma_at(w);
        }
        assert(a.view() =~= b.view());
    }

    /// A copy of the table with the same content.
    pub fn duplicate(&self) -> (r: AccountTable)
        requires
            self.wf(),
        ensures
            r.wf(),
            r.view() == self.view(),
            r.spec_len() == self.spec_len(),
            r.spec_entries().len() == self.spec_entries().len(),
            forall|i: int|
                0 <= i < self.spec_entries().len() ==> r.spec_entries()[i].addr
                    == self.spec_entries()[i].addr && r.spec_entries()[i].state.view()
                    == self.spec_entries()[i].state.view(),
    {
        let mut entries: Vec<AccountEntry> = Vec::new();
        let mut i: usize = 0;
        while i < self.entries.len()
            invariant
                self.wf(),
                0 <= i <= self.entries@.len(),
                entries@.len() == i,
                forall|j: int|
                    0 <= j < i ==> entries@[j].addr == self.entries@[j].addr
                        && entries@[j].state.view() == self.entries@[j].state.view()
                        && entries@[j].state.wf(),
            decreases self.entries@.len() - i,
        {
            let e = &self.entries[i];
            entries.push(AccountEntry { addr: e.addr, state: e.state.duplicate() });
            i = i + 1;
        }
        let r = AccountTable { entries };
        proof {
            AccountTable::lemma_congruent(*self, r);
        }
        r
    }
}

// ---------------------------------------------------------------------------
// The rollup state
// ---------------------------------------------------------------------------

/// The mathematical content of the rollup state.
#[verifier::ext_equal]
pub struct StateView {
    /// The 32-byte state root.
    pub state_root: Seq<u8>,
    /// The rollup block height.
    pub block_number: u64,
    /// The time of the last applied update, in milliseconds.
    pub timestamp: u64,
    /// Account content by address bytes.
    pub accounts: Map<Seq<u8>, AccountView>,
    /// Total supply bytes per token kind.
    pub total_supply: Map<TokenType, Seq<u8>>,
    /// Updates applied so far.
    pub transaction_count: u64,
    /// Gas consumed so far.
    pub gas_used: u64,
}

/// The canonical rollup state: accounts, supplies, and the root that
/// summarizes them. Exactly one logical instance exists; every component
/// reads and changes it through the state manager.
#[derive(Debug)]
pub struct L2State {
    /// The 32-byte state root.
    pub state_root: Vec<u8>,
    /// The rollup block height.
    pub block_number: u64,
    /// The time of the last applied update, in milliseconds.
    pub timestamp: u64,
    /// The account table.
    pub accounts: AccountTable,
    /// Total supply per token kind.
    pub total_supply: TokenBalances,
    /// Updates applied so far.
    pub transaction_count: u64,
    /// Gas consumed so far.
    pub gas_used: u64,
}

/// A sequence of 32 zero bytes.
pub open spec fn zero32() -> Seq<u8> {
    Seq::new(32, |i: int| 0u8)
}

impl L2State {
    /// The account table is well formed and the root has digest length.
    pub open spec fn wf(self) -> bool {
        self.accounts.wf() && self.state_root@.len() == 32
    }

    /// The state's mathematical content.
    pub open spec fn view(self) -> StateView {
        StateView {
            state_root: self.state_root@,
            block_number: self.block_number,
            timestamp: self.timestamp,
            accounts: self.accounts.view(),
            total_supply: self.total_supply.view(),
            transaction_count: self.transaction_count,
            gas_used: self.gas_used,
        }
    }

    /// The genesis state: an all-zero root, block zero, no accounts.
    pub fn genesis() -> (r: L2State)
        ensures
            r.wf(),
            r@.state_root =~= zero32(),
            r@.block_number == 0,
            r@.timestamp == 0,
            r@.accounts =~= Map::<Seq<u8>, AccountView>::empty(),
            r@.transaction_count == 0,
            r@.gas_used == 0,
    {
        let mut root: Vec<u8> = Vec::new();
        let mut i: usize = 0;
        while i < 32
            invariant
                0 <= i <= 32,
                root@.len() == i,
                forall|j: int| 0 <= j < i ==> root@[j] == 0u8,
            decreases 32 - i,
        {
            root.push(0u8);
            i = i + 1;
        }
        let r = L2State {
            state_root: root,
            block_number: 0,
            timestamp: 0,
            accounts: AccountTable::new(),
            total_supply: TokenBalances::zeroed(),
            transaction_count: 0,
            gas_used: 0,
        };
        proof {
            assert(r@.state_root =~= zero32());
        }
        r
    }

    /// A copy of the state with the same content.
    pub fn duplicate(&self) -> (r: L2State)
        requires
            self.wf(),
        ensures
            r.wf(),
            r@ == self@,
            r.accounts.spec_entries().len() == self.accounts.spec_entries().len(),
            forall|i: int|
                0 <= i < self.accounts.spec_entries().len() ==> r.accounts.spec_entries()[i].addr
                    == self.accounts.spec_entries()[i].addr
                    && r.accounts.spec_entries()[i].state.view()
                    == self.accounts.spec_entries()[i].state.view(),
    {
        let r = L2State {
            state_root: copy_bytes(&self.state_root),
            block_number: self.block_number,
            timestamp: self.timestamp,
            accounts: self.accounts.duplicate(),
            total_supply: self.total_supply,
            transaction_count: self.transaction_count,
            gas_used: self.gas_used,
        };
        proof {
            assert(r@ =~= self@);
        }
        r
    }
}

// ---------------------------------------------------------------------------
// State changes
// ---------------------------------------------------------------------------

/// The kinds of delta an executed transaction can produce.
#[derive(Debug, Clone, Copy, PartialEq, Eq, Structural)]
pub enum StateChangeType {
    /// A new account record is installed.
    AccountCreation,
    /// An account record is dropped.
    AccountDeletion,
    /// One token balance of one account is replaced.
    BalanceUpdate,
    /// One account's nonce is replaced.
    NonceUpdate,
    /// One storage slot of one account is replaced.
    StorageUpdate,
    /// One account's code and code digest are replaced.
    CodeUpdate,
    /// One token's total supply is replaced.
    SupplyUpdate,
}

/// A value carried by a state change.
#[derive(Debug, Clone)]
pub enum StateValue {
    /// No value.
    Absent,
    /// A 256-bit word.
    U256(U256),
    /// Raw bytes.
    Bytes(Vec<u8>),
    /// An address.
    Address(Address),
    /// A text value.
    Text(String),
    /// A whole account record.
    Account(AccountState),
}

/// One typed delta produced by executing a transaction.
#[derive(Debug, Clone)]
pub struct StateChange {
    /// What the delta replaces.
    pub change_type: StateChangeType,
    /// The account it touches.
    pub address: Address,
    /// The storage slot it touches, for slot replacements.
    pub key: Option<U256>,
    /// The token it touches, for balance and supply replacements.
    pub token: TokenType,
    /// The value before the delta.
    pub old_value: StateValue,
    /// The value after the delta.
    pub new_value: StateValue,
}

/// A change is well formed: an installed account record is internally
/// consistent.
pub open spec fn change_wf(c: StateChange) -> bool {
    match c.change_type {
        StateChangeType::AccountCreation => match c.new_value {
            StateValue::Account(st) => st.wf(),
            _ => true,
        },
        _ => true,
    }
}

/// The content of an empty, freshly created account record.
pub open spec fn fresh_account_view() -> AccountView {
    AccountView {
        nonce: 0,
        balances: Map::new(|t: TokenType| true, |t: TokenType| zero32()),
        storage: Map::empty(),
        storage_root: Seq::empty(),
        code_hash: Seq::empty(),
        code: None,
    }
}

/// The account content at `k`, or a fresh record where none exists.
pub open spec fn account_or_fresh(m: Map<Seq<u8>, AccountView>, k: Seq<u8>) -> AccountView {
    if m.contains_key(k) {
        m[k]
    } else {
        fresh_account_view()
    }
}

/// What one delta does to the state's content. Replacements of a balance,
/// nonce or storage slot create the account record where it is missing; a
/// code replacement on a missing account does nothing, as does a delta
/// whose carried value has the wrong shape.
pub open spec fn spec_apply_change(v: StateView, c: StateChange) -> StateView {
    match c.change_type {
        StateChangeType::AccountCreation => match c.new_value {
            StateValue::Account(st) => StateView {
                accounts: v.accounts.insert(c.address.0@, st.view()),
                ..v
            },
            _ => v,
        },
        StateChangeType::AccountDeletion => StateView {
            accounts: v.accounts.remove(c.address.0@),
            ..v
        },
        StateChangeType::BalanceUpdate => match c.new_value {
            StateValue::U256(nb) => {
                let av = account_or_fresh(v.accounts, c.address.0@);
                StateView {
                    accounts: v.accounts.insert(
                        c.address.0@,
                        AccountView { balances: av.balances.insert(c.token, nb.0@), ..av },
                    ),
                    ..v
                }
            },
            _ => v,
        },
        StateChangeType::NonceUpdate => match c.new_value {
            StateValue::U256(nn) => {
                let av = account_or_fresh(v.accounts, c.address.0@);
                StateView {
                    accounts: v.accounts.insert(
                        c.address.0@,
                        AccountView { nonce: crate::types::low64_of(nn.0@) as u64, ..av },
                    ),
                    ..v
                }
            },
            _ => v,
        },
        StateChangeType::StorageUpdate => match (c.key, c.new_value) {
            (Some(slot), StateValue::U256(nv)) => {
                let av = account_or_fresh(v.accounts, c.address.0@);
                StateView {
                    accounts: v.accounts.insert(
                        c.address.0@,
                        AccountView { storage: av.storage.insert(slot.0@, nv.0@), ..av },
                    ),
                    ..v
                }
            },
            _ => v,
        },
        StateChangeType::CodeUpdate => match c.new_value {
            StateValue::Bytes(code) => {
                if v.accounts.contains_key(c.address.0@) {
                    let av = v.accounts[c.address.0@];
                    StateView {
                        accounts: v.accounts.insert(
                            c.address.0@,
                            AccountView {
                                code: Some(code@),
                                code_hash: crate::hashing::sha256_of(code@),
                                ..av
                            },
                        ),
                        ..v
                    }
                } else {
                    v
                }
            },
            _ => v,
        },
        StateChangeType::SupplyUpdate => match c.new_value {
            StateValue::U256(ns) => StateView {
                total_supply: v.total_supply.insert(c.token, ns.0@),
                ..v
            },
            _ => v,
        },
    }
}

/// What an ordered list of deltas does to the state's content, first delta
/// first.
pub open spec fn spec_apply_changes(v: StateView, cs: Seq<StateChange>) -> StateView
    decreases cs.len(),
{
    if cs.len() == 0 {
        v
    } else {
        spec_apply_changes(spec_apply_change(v, cs[0]), cs.drop_first())
    }
}

/// Applies one delta to the state, in place.
pub fn apply_single_change(state: &mut L2State, change: StateChange)
    requires
        old(state).wf(),
        change_wf(change),
    ensures
        final(state).wf(),
        final(state)@ == spec_apply_change(old(state)@, change),
{
    let ghost pre = state@;
    match change.change_type {
        StateChangeType::AccountCreation => {
            match change.new_value {
                StateValue::Account(st) => {
                    state.accounts.upsert(change.address, st);
                },
                _ => {},
            }
        },
        StateChangeType::AccountDeletion => {
            let _ = state.accounts.take(&change.address);
        },
        StateChangeType::BalanceUpdate => {
            match change.new_value {
                StateValue::U256(nb) => {
                    let mut acct = match state.accounts.take(&change.address) {
                        Some(st) => st,
                        None => AccountState::fresh(state.timestamp),
                    };
                    acct.balances.set(change.token, nb);
                    state.accounts.upsert(change.address, acct);
                    proof {
                        lemma_remove_insert(pre.accounts, change.address.0@);
                        let av = account_or_fresh(pre.accounts, change.address.0@);
                        assert(acct.balances.view() =~= av.balances.insert(change.token, nb.0@));
                        assert(acct.view() =~= AccountView {
                            balances: av.balances.insert(change.token, nb.0@),
                            ..av
                        });
                    }
                },
                _ => {},
            }
        },
        StateChangeType::NonceUpdate => {
            match change.new_value {
                StateValue::U256(nn) => {
                    let mut acct = match state.accounts.take(&change.address) {
                        Some(st) => st,
                        None => AccountState::fresh(state.timestamp),
                    };
                    acct.nonce = nn.to_u64();
                    state.accounts.upsert(change.address, acct);
                    proof {
                        lemma_remove_insert(pre.accounts, change.address.0@);
                        let av = account_or_fresh(pre.accounts, change.address.0@);
                        assert(acct.balances.view() =~= av.balances);
                        assert(acct.view() =~= AccountView {
                            nonce: crate::types::low64_of(nn.0@) as u64,
                            ..av
                        });
                    }
                },
                _ => {},
            }
        },
        StateChangeType::StorageUpdate => {
            match (&change.key, change.new_value) {
                (Some(slot), StateValue::U256(nv)) => {
                    let mut acct = match state.accounts.take(&change.address) {
                        Some(st) => st,
                        None => AccountState::fresh(state.timestamp),
                    };
                    acct.storage.upsert(*slot, nv);
                    state.accounts.upsert(change.address, acct);
                    proof {
                        lemma_remove_insert(pre.accounts, change.address.0@);
                        let av = account_or_fresh(pre.accounts, change.address.0@);
                        assert(acct.view() =~= AccountView {
                            storage: av.storage.insert(slot.0@, nv.0@),
                            ..av
                        });
                    }
                },
                _ => {},
            }
        },
        StateChangeType::CodeUpdate => {
            match change.new_value {
                StateValue::Bytes(code) => {
                    match state.accounts.take(&change.address) {
                        Some(st) => {
                            let mut acct = st;
                            let digest = crate::hashing::sha256(code.as_slice());
                            acct.code_hash = digest;
                            acct.code = Some(code);
                            state.accounts.upsert(change.address, acct);
                            proof {
                                lemma_remove_insert(pre.accounts, change.address.0@);
                                let av = pre.accounts[change.address.0@];
                                assert(acct.view() =~= AccountView {
                                    code: Some(code@),
                                    code_hash: crate::hashing::sha256_of(code@),
                                    ..av
                                });
                            }
                        },
                        None => {},
                    }
                },
                _ => {},
            }
        },
        StateChangeType::SupplyUpdate => {
            match change.new_value {
                StateValue::U256(ns) => {
                    state.total_supply.set(change.token, ns);
                    proof {
                        assert(state.total_supply.view() =~= pre.total_supply.insert(
                            change.token,
                            ns.0@,
                        ));
                    }
                },
                _ => {},
            }
        },
    }
    proof {
        assert(state@ =~= spec_apply_change(pre, change));
    }
}

/// Removing a key and inserting at it is the same as inserting at it.
pub proof fn lemma_remove_insert<V>(m: Map<Seq<u8>, V>, k: Seq<u8>)
    ensures
        forall|v: V| #[trigger] m.remove(k).insert(k, v) == m.insert(k, v),
{
    assert forall|v: V| #[trigger] m.remove(k).insert(k, v) == m.insert(k, v) by {
        assert(m.remove(k).insert(k, v) =~= m.insert(k, v));
    }
}

// ---------------------------------------------------------------------------
// State updates
// ---------------------------------------------------------------------------

/// Whether two byte vectors hold the same bytes.
pub fn bytes_eq(a: &Vec<u8>, b: &Vec<u8>) -> (r: bool)
    ensures
        r == (a@ == b@),
{
    if a.len() != b.len() {
        proof {
            assert(a@ != b@);
        }
        return false;
    }
    let mut i: usize = 0;
    while i < a.len()
        invariant
            a@.len() == b@.len(),
            0 <= i <= a@.len(),
            forall|j: int| 0 <= j < i ==> a@[j] == b@[j],
        decreases a@.len() - i,
    {
        if a[i] != b[i] {
            proof {
                assert(a@ != b@);
            }
            return false;
        }
        i = i + 1;
    }
    proof {
        assert(a@ =~= b@);
    }
    true
}

/// The deltas of one batch, together with the pre- and post-roots they
/// claim to bridge. Rejected outright unless the claimed pre-root equals
/// the current root.
#[derive(Debug, Clone)]
pub struct StateUpdate {
    /// Opaque identifier of the update.
    pub update_id: u64,
    /// The block height the update advances to.
    pub block_number: u64,
    /// The transaction the deltas came from.
    pub transaction_id: u64,
    /// The ordered deltas.
    pub updates: Vec<StateChange>,
    /// Gas the batch consumed.
    pub gas_used: u64,
    /// When the update was produced, in milliseconds.
    pub timestamp: u64,
    /// The root the update claims to start from.
    pub state_root_before: Vec<u8>,
    /// The root the update claims to produce.
    pub state_root_after: Vec<u8>,
}

/// Every delta of the update is well formed and the claimed post-root has
/// digest length.
pub open spec fn update_wf(u: StateUpdate) -> bool {
    (forall|i: int| 0 <= i < u.updates@.len() ==> change_wf(u.updates@[i]))
        && u.state_root_after@.len() == 32
}

/// What an accepted update does to the state: its deltas are applied in
/// order, the block height, timestamp and claimed post-root are taken
/// over, and the update and gas counters grow, saturating.
pub open spec fn spec_apply_update(v: StateView, u: StateUpdate) -> StateView {
    let applied = spec_apply_changes(v, u.updates@);
    StateView {
        state_root: u.state_root_after@,
        block_number: u.block_number,
        timestamp: u.timestamp,
        accounts: applied.accounts,
        total_supply: applied.total_supply,
        transaction_count: crate::types::sat_add_nat(v.transaction_count as nat, 1) as u64,
        gas_used: crate::types::sat_add_nat(v.gas_used as nat, u.gas_used as nat) as u64,
    }
}

/// Applying deltas changes only accounts and supplies.
proof fn lemma_apply_changes_frame(v: StateView, cs: Seq<StateChange>)
    ensures
        spec_apply_changes(v, cs).state_root == v.state_root,
        spec_apply_changes(v, cs).block_number == v.block_number,
        spec_apply_changes(v, cs).timestamp == v.timestamp,
        spec_apply_changes(v, cs).transaction_count == v.transaction_count,
        spec_apply_changes(v, cs).gas_used == v.gas_used,
    decreases cs.len(),
{
    if cs.len() > 0 {
        lemma_apply_changes_frame(spec_apply_change(v, cs[0]), cs.drop_first());
    }
}

// ---------------------------------------------------------------------------
// Snapshots and rollback
// ---------------------------------------------------------------------------

/// A retained copy of the whole state at one block height, used for fast
/// rollback.
#[derive(Debug)]
pub struct StateSnapshot {
    /// Opaque identifier of the snapshot.
    pub snapshot_id: u64,
    /// The block height the snapshot was taken at.
    pub block_number: u64,
    /// The root of the retained state.
    pub state_root: Vec<u8>,
    /// The retained state itself.
    pub state: L2State,
    /// When the snapshot was taken, in milliseconds.
    pub created_at: u64,
}

/// A snapshot is internally consistent: it retains a well-formed state and
/// records that state's own root and height.
pub open spec fn snapshot_wf(s: StateSnapshot) -> bool {
    s.state.wf() && s.state_root@ == s.state@.state_root && s.block_number
        == s.state@.block_number
}

/// Why the state was rolled back.
#[derive(Debug, Clone, Copy, PartialEq, Eq, Structural)]
pub enum RollbackReason {
    /// A fraud proof reverted a batch.
    FraudProof,
    /// The anchor chain reorganized.
    ChainReorg,
    /// An operator asked for it.
    ManualRollback,
    /// The system detected an inconsistency.
    SystemError,
}

/// The audit record of one rollback.
#[derive(Debug, Clone, Copy, PartialEq, Eq, Structural)]
pub struct RollbackPoint {
    /// Opaque identifier of the rollback.
    pub point_id: u64,
    /// The height rolled back to.
    pub block_number: u64,
    /// The snapshot restored.
    pub snapshot_id: u64,
    /// Why the rollback happened.
    pub reason: RollbackReason,
    /// When it happened, in milliseconds.
    pub created_at: u64,
}

/// The index of the retained snapshot to roll back to for `target`: among
/// snapshots at or before `target`, the one with the greatest height,
/// ties going to the latest taken; `-1` when none qualifies.
pub open spec fn best_snapshot_index(s: Seq<StateSnapshot>, target: u64) -> int
    decreases s.len(),
{
    if s.len() == 0 {
        -1
    } else {
        let rest = best_snapshot_index(s.drop_last(), target);
        if s.last().block_number <= target && (rest == -1 || s[rest].block_number
            <= s.last().block_number) {
            s.len() - 1
        } else {
            rest
        }
    }
}

/// The chosen index is in bounds and at or before the target.
pub proof fn lemma_best_snapshot_bounds(s: Seq<StateSnapshot>, target: u64)
    ensures
        best_snapshot_index(s, target) == -1 || (0 <= best_snapshot_index(s, target) < s.len()
            && s[best_snapshot_index(s, target)].block_number <= target),
    decreases s.len(),
{
    if s.len() > 0 {
        lemma_best_snapshot_bounds(s.drop_last(), target);
    }
}

// ---------------------------------------------------------------------------
// The state manager
// ---------------------------------------------------------------------------

/// The balance bytes of account `a` in token `t`, zero when the account is
/// absent.
pub open spec fn balance_in(v: StateView, a: Seq<u8>, t: TokenType) -> Seq<u8> {
    if v.accounts.contains_key(a) {
        v.accounts[a].balances[t]
    } else {
        zero32()
    }
}

/// The nonce of account `a`, zero when the account is absent.
pub open spec fn nonce_in(v: StateView, a: Seq<u8>) -> u64 {
    if v.accounts.contains_key(a) {
        v.accounts[a].nonce
    } else {
        0
    }
}

/// Owner of the canonical rollup state: applies updates under the
/// optimistic pre-root check, takes and restores snapshots, and rolls the
/// state back to earlier heights.
pub struct StateManager {
    current_state: L2State,
    snapshots: Vec<StateSnapshot>,
    rollback_points: Vec<RollbackPoint>,
    next_snapshot_id: u64,
    next_rollback_id: u64,
    max_snapshots: usize,
}

impl StateManager {
    /// The current state.
    pub closed spec fn spec_state(self) -> L2State {
        self.current_state
    }

    /// The retained snapshots, oldest first.
    pub closed spec fn spec_snapshots(self) -> Seq<StateSnapshot> {
        self.snapshots@
    }

    /// The rollback audit trail.
    pub closed spec fn spec_rollback_points(self) -> Seq<RollbackPoint> {
        self.rollback_points@
    }

    /// The retention cap in force.
    pub closed spec fn spec_max_snapshots(self) -> nat {
        self.max_snapshots as nat
    }

    /// The state is well formed, every retained snapshot is internally
    /// consistent, and retention stays within the cap.
    pub closed spec fn wf(self) -> bool {
        self.current_state.wf() && self.max_snapshots >= 1 && self.snapshots@.len()
            <= self.max_snapshots && (forall|i: int|
            0 <= i < self.snapshots@.len() ==> snapshot_wf(#[trigger] self.snapshots@[i]))
    }

    /// A manager owning the genesis state, with the configured snapshot
    /// retention.
    pub fn new(config: &crate::config::SettlementConfig) -> (r: StateManager)
        ensures
            r.wf(),
            r.spec_state()@.state_root =~= zero32(),
            r.spec_state()@.block_number == 0,
            r.spec_state()@.accounts =~= Map::<Seq<u8>, AccountView>::empty(),
            r.spec_snapshots().len() == 0,
            r.spec_rollback_points().len() == 0,
    {
        StateManager {
            current_state: L2State::genesis(),
            snapshots: Vec::new(),
            rollback_points: Vec::new(),
            next_snapshot_id: 1,
            next_rollback_id: 1,
            max_snapshots: 100,
        }
    }

    /// The current state, read-only.
    pub fn state(&self) -> (r: &L2State)
        ensures
            *r == self.spec_state(),
            self.wf() ==> r.wf(),
    {
        &self.current_state
    }

    /// Mutable access to the current state, for executing a batch against
    /// it. The manager stays well formed as long as the caller leaves the
    /// state well formed.
    pub fn state_mut(&mut self) -> (r: &mut L2State)
        ensures
            *r == old(self).spec_state(),
            old(self).wf() ==> old(self).spec_state().wf(),
            final(self).spec_state() == *final(r),
            final(self).spec_snapshots() == old(self).spec_snapshots(),
            final(self).spec_rollback_points() == old(self).spec_rollback_points(),
            old(self).wf() && final(r).wf() ==> final(self).wf(),
    {
        &mut self.current_state
    }

    /// The current state root.
    pub fn get_state_root(&self) -> (r: Vec<u8>)
        requires
            self.wf(),
        ensures
            r@ == self.spec_state()@.state_root,
    {
        copy_bytes(&self.current_state.state_root)
    }

    /// The record of account `a`, if present.
    pub fn get_account(&self, a: &Address) -> (r: Option<&AccountState>)
        requires
            self.wf(),
        ensures
            match r {
                Some(st) => self.spec_state()@.accounts.contains_key(a.0@) && st.view()
                    == self.spec_state()@.accounts[a.0@],
                None => !self.spec_state()@.accounts.contains_key(a.0@),
            },
    {
        self.current_state.accounts.get(a)
    }

    /// The balance of account `a` in token `t`; zero for an absent
    /// account.
    pub fn get_balance(&self, a: &Address, t: TokenType) -> (r: U256)
        requires
            self.wf(),
        ensures
            r.0@ == balance_in(self.spec_state()@, a.0@, t),
    {
        match self.current_state.accounts.get(a) {
            Some(st) => st.balances.get(t),
            None => U256::zero(),
        }
    }

    /// The nonce of account `a`; zero for an absent account.
    pub fn get_nonce(&self, a: &Address) -> (r: u64)
        requires
            self.wf(),
        ensures
            r == nonce_in(self.spec_state()@, a.0@),
    {
        match self.current_state.accounts.get(a) {
            Some(st) => st.nonce,
            None => 0,
        }
    }

    /// Applies `update` to the state. Refused, leaving the state
    /// untouched, exactly when the claimed pre-root differs from the
    /// current root; otherwise the deltas are applied in order and the
    /// height, timestamp, root and counters advance.
    pub fn apply_state_update(&mut self, update: StateUpdate) -> (r: Result<(), SettlementError>)
        requires
            old(self).wf(),
            update_wf(update),
        ensures
            final(self).wf(),
            final(self).spec_snapshots() == old(self).spec_snapshots(),
            final(self).spec_rollback_points() == old(self).spec_rollback_points(),
            match r {
                Ok(()) => update.state_root_before@ == old(self).spec_state()@.state_root && final(self).spec_state()@ == spec_apply_update(old(self).spec_state()@, update),
                Err(e) => e == SettlementError::StateRootMismatch && update.state_root_before@
                    != old(self).spec_state()@.state_root && final(self).spec_state() == old(self).spec_state(),
            },
    {
        if !bytes_eq(&self.current_state.state_root, &update.state_root_before) {
            return Err(SettlementError::StateRootMismatch);
        }
        let ghost pre = self.current_state@;
        let StateUpdate {
            update_id,
            block_number,
            transaction_id,
            updates,
            gas_used,
            timestamp,
            state_root_before,
            state_root_after,
        } = update;
        let ghost all_changes = updates@;
        let mut cs = updates;
        while cs.len() > 0
            invariant
                self.current_state.wf(),
                self.snapshots@ == old(self).snapshots@,
                self.rollback_points@ == old(self).rollback_points@,
                self.max_snapshots == old(self).max_snapshots,
                old(self).wf(),
                forall|i: int| 0 <= i < cs@.len() ==> change_wf(cs@[i]),
                spec_apply_changes(self.current_state@, cs@) == spec_apply_changes(
                    pre,
                    all_changes,
                ),
            decreases cs@.len(),
        {
            let ghost cs_pre = cs@;
            let c = cs.remove(0);
            proof {
                assert(cs@ =~= cs_pre.drop_first());
            }
            apply_single_change(&mut self.current_state, c);
        }
        proof {
            assert(cs@.len() == 0);
            assert(self.current_state@ == spec_apply_changes(pre, all_changes));
            lemma_apply_changes_frame(pre, all_changes);
        }
        self.current_state.block_number = block_number;
        self.current_state.timestamp = timestamp;
        let tc = self.current_state.transaction_count;
        self.current_state.transaction_count = if tc < u64::MAX {
            tc + 1
        } else {
            u64::MAX
        };
        let gu = self.current_state.gas_used;
        self.current_state.gas_used = if gu <= u64::MAX - gas_used {
            gu + gas_used
        } else {
            u64::MAX
        };
        self.current_state.state_root = state_root_after;
        proof {
            assert(self.current_state@ =~= spec_apply_update(pre, update));
        }
        Ok(())
    }

    /// Takes a snapshot of the current state, retains it, and returns a
    /// copy of it. Retention is capped: when the new snapshot would
    /// exceed the cap, the first retained snapshot — the oldest, since
    /// snapshots are retained in the order they are taken — is evicted.
    pub fn create_snapshot(&mut self, now: u64) -> (r: StateSnapshot)
        requires
            old(self).wf(),
        ensures
            final(self).wf(),
            final(self).spec_state() == old(self).spec_state(),
            final(self).spec_max_snapshots() == old(self).spec_max_snapshots(),
            final(self).spec_rollback_points() == old(self).spec_rollback_points(),
            snapshot_wf(r),
            r.state@ == old(self).spec_state()@,
            r.block_number == old(self).spec_state()@.block_number,
            r.state_root@ == old(self).spec_state()@.state_root,
            r.created_at == now,
            final(self).spec_snapshots().len() <= old(self).spec_max_snapshots(),
            ({
                let kept = if old(self).spec_snapshots().len() < old(self).spec_max_snapshots() {
                    old(self).spec_snapshots()
                } else {
                    old(self).spec_snapshots().drop_first()
                };
                &&& final(self).spec_snapshots().len() == kept.len() + 1
                &&& forall|i: int|
                    0 <= i < kept.len() ==> final(self).spec_snapshots()[i] == kept[i]
            }),
            final(self).spec_snapshots().last().state@ == old(self).spec_state()@,
            final(self).spec_snapshots().last().block_number == old(self).spec_state()@.block_number,
            final(self).spec_snapshots().last().state_root@ == old(self).spec_state()@.state_root,
            final(self).spec_snapshots().last().created_at == now,
    {
        let id = self.next_snapshot_id;
        self.next_snapshot_id = if self.next_snapshot_id < u64::MAX {
            self.next_snapshot_id + 1
        } else {
            u64::MAX
        };
        let retained = StateSnapshot {
            snapshot_id: id,
            block_number: self.current_state.block_number,
            state_root: copy_bytes(&self.current_state.state_root),
            state: self.current_state.duplicate(),
            created_at: now,
        };
        let returned = StateSnapshot {
            snapshot_id: id,
            block_number: self.current_state.block_number,
            state_root: copy_bytes(&self.current_state.state_root),
            state: self.current_state.duplicate(),
            created_at: now,
        };
        self.snapshots.push(retained);
        if self.snapshots.len() > self.max_snapshots {
            self.snapshots.remove(0);
        }
        returned
    }

    /// Replaces the current state wholesale with the one a snapshot
    /// retains.
    pub fn restore_from_snapshot(&mut self, snapshot: &StateSnapshot)
        requires
            old(self).wf(),
            snapshot_wf(*snapshot),
        ensures
            final(self).wf(),
            final(self).spec_state()@ == snapshot.state@,
            final(self).spec_snapshots() == old(self).spec_snapshots(),
            final(self).spec_rollback_points() == old(self).spec_rollback_points(),
    {
        self.current_state = snapshot.state.duplicate();
    }

    /// Rolls the state back to `target`: refused when `target` is not
    /// strictly below the current height, or when no retained snapshot
    /// lies at or before it; otherwise the best such snapshot — greatest
    /// height, latest taken on ties — is restored wholesale and the
    /// rollback is recorded.
    pub fn rollback_to_block(&mut self, target: u64, reason: RollbackReason, now: u64) -> (r:
        Result<(), SettlementError>)
        requires
            old(self).wf(),
        ensures
            final(self).wf(),
            final(self).spec_snapshots() == old(self).spec_snapshots(),
            match r {
                Ok(()) => {
                    let best = best_snapshot_index(old(self).spec_snapshots(), target);
                    &&& target < old(self).spec_state()@.block_number
                    &&& best != -1
                    &&& final(self).spec_state()@ == old(self).spec_snapshots()[best].state@
                    &&& final(self).spec_state()@.state_root == old(self).spec_snapshots()[best].state_root@
                    &&& final(self).spec_rollback_points().len() == old(self).spec_rollback_points().len() + 1
                },
                Err(SettlementError::RollbackTargetInFuture) => target >= old(self).spec_state()@.block_number && final(self).spec_state() == old(self).spec_state()
                    && final(self).spec_rollback_points() == old(self).spec_rollback_points(),
                Err(SettlementError::NoSnapshotForTarget) => target < old(self).spec_state()@.block_number && best_snapshot_index(
                    old(self).spec_snapshots(),
                    target,
                ) == -1 && final(self).spec_state() == old(self).spec_state() && final(self).spec_rollback_points() == old(self).spec_rollback_points(),
                Err(_) => false,
            },
    {
        if target >= self.current_state.block_number {
            return Err(SettlementError::RollbackTargetInFuture);
        }
        let n = self.snapshots.len();
        let mut best: usize = n;
        let mut i: usize = 0;
        while i < n
            invariant
                self.wf(),
                n == self.snapshots@.len(),
                0 <= i <= n,
                best == n || best < i,
                if best == n {
                    best_snapshot_index(self.snapshots@.take(i as int), target) == -1
                } else {
                    best_snapshot_index(self.snapshots@.take(i as int), target) == best as int
                },
            decreases n - i,
        {
            proof {
                assert(self.snapshots@.take(i + 1).drop_last() =~= self.snapshots@.take(i as int));
                assert(self.snapshots@.take(i + 1).last() == self.snapshots@[i as int]);
            }
            if self.snapshots[i].block_number <= target {
                if best == n || self.snapshots[best].block_number <= self.snapshots[i].block_number
                 {
                    best = i;
                }
            }
            i = i + 1;
        }
        proof {
            assert(self.snapshots@.take(n as int) =~= self.snapshots@);
        }
        if best == n {
            return Err(SettlementError::NoSnapshotForTarget);
        }
        let ghost pre_snapshots = self.snapshots@;
        let snap_state = self.snapshots[best].state.duplicate();
        let snap_id = self.snapshots[best].snapshot_id;
        self.current_state = snap_state;
        let rid = self.next_rollback_id;
        self.next_rollback_id = if self.next_rollback_id < u64::MAX {
            self.next_rollback_id + 1
        } else {
            u64::MAX
        };
        self.rollback_points.push(
            RollbackPoint {
                point_id: rid,
                block_number: target,
                snapshot_id: snap_id,
                reason,
                created_at: now,
            },
        );
        proof {
            assert(snapshot_wf(pre_snapshots[best as int]));
        }
        Ok(())
    }

    /// The manager is serviceable: the root has digest length and the
    /// height leaves room to advance.
    pub fn is_healthy(&self) -> (r: bool)
        ensures
            r == (self.spec_state()@.state_root.len() == 32 && self.spec_state()@.block_number
                < u64::MAX),
    {
        self.current_state.state_root.len() == 32 && self.current_state.block_number < u64::MAX
    }
}

/// The relation `rollback_to_block` leaves between the manager before and
/// after the call, whatever the result: a future target or a missing
/// snapshot leaves everything as it was; otherwise the best snapshot is
/// restored and the audit trail grows by one.
pub open spec fn rollback_outcome(before: StateManager, after: StateManager, target: u64) -> bool {
    if target >= before.spec_state()@.block_number {
        after.spec_state() == before.spec_state() && after.spec_rollback_points()
            == before.spec_rollback_points()
    } else if best_snapshot_index(before.spec_snapshots(), target) == -1 {
        after.spec_state() == before.spec_state() && after.spec_rollback_points()
            == before.spec_rollback_points()
    } else {
        after.spec_state()@ == before.spec_snapshots()[best_snapshot_index(
            before.spec_snapshots(),
            target,
        )].state@ && after.spec_rollback_points().len() == before.spec_rollback_points().len() + 1
    }
}

/// Law: a snapshot taken and immediately restored reproduces the state it
/// captured — in particular, the root after the restore is byte for byte
/// the root before the snapshot. `taken` is the snapshot `create_snapshot`
/// returned on `before`, and `after` the manager `restore_from_snapshot`
/// left behind.
pub proof fn lemma_snapshot_round_trip(
    before: StateManager,
    taken: StateSnapshot,
    after: StateManager,
)
    requires
        taken.state@ == before.spec_state()@,
        after.spec_state()@ == taken.state@,
    ensures
        after.spec_state()@ == before.spec_state()@,
        after.spec_state()@.state_root == before.spec_state()@.state_root,
{
}

/// Law: a completed rollback lands exactly on the nearest retained
/// snapshot at or before the target: the state root afterwards equals the
/// root that snapshot recorded. `after` is the manager `rollback_to_block`
/// left behind on success.
pub proof fn lemma_rollback_lands_on_nearest_snapshot(
    before: StateManager,
    after: StateManager,
    target: u64,
)
    requires
        before.wf(),
        best_snapshot_index(before.spec_snapshots(), target) != -1,
        after.spec_state()@ == before.spec_snapshots()[best_snapshot_index(
            before.spec_snapshots(),
            target,
        )].state@,
    ensures
        after.spec_state()@.state_root == before.spec_snapshots()[best_snapshot_index(
            before.spec_snapshots(),
            target,
        )].state_root@,
        before.spec_snapshots()[best_snapshot_index(before.spec_snapshots(), target)].block_number
            <= target,
{
    lemma_best_snapshot_bounds(before.spec_snapshots(), target);
    let best = best_snapshot_index(before.spec_snapshots(), target);
    assert(snapshot_wf(before.spec_snapshots()[best]));
}

} // verus!
