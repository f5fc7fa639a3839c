use vstd::prelude::*;

use crate::error::SettlementError;
use crate::hashing::{sha256, sha256_of};
use crate::state::{account_or_fresh, balance_in, nonce_in, AccountEntry, AccountState, L2State,
    StateView};
use crate::types::{low64_of, sat_add_nat, sat_mul_nat, u64_be8, u64_be_bytes, Address,
    TokenAmount, TokenType, Transaction, U256};

verus! {

// ---------------------------------------------------------------------------
// Byte encodings
// ---------------------------------------------------------------------------

/// Appends the bytes of `src` to `buf`.
pub fn append_bytes(buf: &mut Vec<u8>, src: &Vec<u8>)
    ensures
        final(buf)@ == old(buf)@ + src@,
{
    let ghost pre = buf@;
    let mut i: usize = 0;
    while i < src.len()
        invariant
            0 <= i <= src@.len(),
            buf@ == pre + src@.take(i as int),
        decreases src@.len() - i,
    {
        buf.push(src[i]);
        proof {
            assert(pre + src@.take(i as int) + seq![src@[i as int]] =~= pre + src@.take(i + 1));
        }
        i = i + 1;
    }
    proof {
        assert(pre + src@.take(src@.len() as int) =~= pre + src@);
    }
}

/// Appends the 20 bytes of an address to `buf`.
pub fn append_addr(buf: &mut Vec<u8>, a: &Address)
    ensures
        final(buf)@ == old(buf)@ + a.0@,
{
    let ghost pre = buf@;
    let mut i: usize = 0;
    while i < 20
        invariant
            0 <= i <= 20,
            buf@ == pre + a.0@.take(i as int),
        decreases 20 - i,
    {
        buf.push(a.0[i]);
        proof {
            assert(pre + a.0@.take(i as int) + seq![a.0@[i as int]] =~= pre + a.0@.take(i + 1));
        }
        i = i + 1;
    }
    proof {
        assert(pre + a.0@.take(20) =~= pre + a.0@);
    }
}

/// Appends the 32 bytes of a word to `buf`.
pub fn append_word(buf: &mut Vec<u8>, w: &U256)
    ensures
        final(buf)@ == old(buf)@ + w.0@,
{
    let ghost pre = buf@;
    let mut i: usize = 0;
    while i < 32
        invariant
            0 <= i <= 32,
            buf@ == pre + w.0@.take(i as int),
        decreases 32 - i,
    {
        buf.push(w.0[i]);
        proof {
            assert(pre + w.0@.take(i as int) + seq![w.0@[i as int]] =~= pre + w.0@.take(i + 1));
        }
        i = i + 1;
    }
    proof {
        assert(pre + w.0@.take(32) =~= pre + w.0@);
    }
}

/// Appends the eight big-endian bytes of `v` to `buf`.
pub fn append_u64(buf: &mut Vec<u8>, v: u64)
    ensures
        final(buf)@ == old(buf)@ + u64_be8(v),
{
    let ghost pre = buf@;
    buf.push((v >> 56) as u8);
    buf.push((v >> 48) as u8);
    buf.push((v >> 40) as u8);
    buf.push((v >> 32) as u8);
    buf.push((v >> 24) as u8);
    buf.push((v >> 16) as u8);
    buf.push((v >> 8) as u8);
    buf.push(v as u8);
    proof {
        assert(buf@ =~= pre + u64_be8(v));
    }
}

// ---------------------------------------------------------------------------
// Gas accounting
// ---------------------------------------------------------------------------

/// The prices of the execution model's primitive operations.
#[derive(Debug, Clone, Copy, PartialEq, Eq, Structural)]
pub struct GasSchedule {
    /// Charged for every transaction.
    pub base_transaction_cost: u64,
    /// Charged per payload byte.
    pub data_cost_per_byte: u64,
    /// Charged when value moves.
    pub transfer_cost: u64,
    /// Charged to deploy a contract.
    pub contract_creation_cost: u64,
    /// Charged per storage write.
    pub storage_write_cost: u64,
    /// Charged per storage read.
    pub storage_read_cost: u64,
}

impl GasSchedule {
    /// The stock gas prices.
    pub fn stock() -> (r: GasSchedule)
        ensures
            r == (GasSchedule {
                base_transaction_cost: 21000u64,
                data_cost_per_byte: 16u64,
                transfer_cost: 2300u64,
                contract_creation_cost: 32000u64,
                storage_write_cost: 20000u64,
                storage_read_cost: 200u64,
            }),
    {
        GasSchedule {
            base_transaction_cost: 21000,
            data_cost_per_byte: 16,
            transfer_cost: 2300,
            contract_creation_cost: 32000,
            storage_write_cost: 20000,
            storage_read_cost: 200,
        }
    }
}

/// The gas a transaction costs under schedule `g`: the base cost, the
/// payload priced per byte, and the transfer cost when value moves — the
/// whole capped at the transaction's own gas limit.
pub open spec fn spec_gas_cost(g: GasSchedule, tx: Transaction) -> nat {
    let unc = g.base_transaction_cost + tx.data@.len() * g.data_cost_per_byte + (if low64_of(
        tx.amount.amount.0@,
    ) > 0 {
        g.transfer_cost as nat
    } else {
        0
    });
    if unc <= tx.gas_limit {
        unc as nat
    } else {
        tx.gas_limit as nat
    }
}

/// Computes the gas a transaction costs under schedule `g`.
pub fn calculate_gas_cost(g: &GasSchedule, tx: &Transaction) -> (r: u64)
    ensures
        r as nat == spec_gas_cost(*g, *tx),
{
    let data_len = tx.data.len() as u64;
    let data_cost: u64 = if g.data_cost_per_byte == 0 {
        0
    } else if data_len <= u64::MAX / g.data_cost_per_byte {
        proof {
            assert(data_len * g.data_cost_per_byte <= (u64::MAX as nat / g.data_cost_per_byte as nat)
                * g.data_cost_per_byte <= u64::MAX) by (nonlinear_arith)
                requires
                    g.data_cost_per_byte > 0,
                    data_len <= u64::MAX / g.data_cost_per_byte,
            ;
        }
        data_len * g.data_cost_per_byte
    } else {
        proof {
            assert(data_len * g.data_cost_per_byte > u64::MAX) by (nonlinear_arith)
                requires
                    g.data_cost_per_byte > 0,
                    data_len > u64::MAX / g.data_cost_per_byte,
            ;
        }
        u64::MAX
    };
    let with_base: u64 = if g.base_transaction_cost <= u64::MAX - data_cost {
        g.base_transaction_cost + data_cost
    } else {
        u64::MAX
    };
    let moves_value = tx.amount.amount.to_u64() > 0;
    let unc: u64 = if moves_value {
        if with_base <= u64::MAX - g.transfer_cost {
            with_base + g.transfer_cost
        } else {
            u64::MAX
        }
    } else {
        with_base
    };
    if unc <= tx.gas_limit {
        unc
    } else {
        tx.gas_limit
    }
}

// ---------------------------------------------------------------------------
// Validation
// ---------------------------------------------------------------------------

/// The known transaction validators, run in registry order.
#[derive(Debug, Clone, Copy, PartialEq, Eq, Structural)]
pub enum ValidatorKind {
    /// A signature must be present.
    Signature,
    /// The nonce must be the account's nonce plus one.
    Nonce,
    /// The sender's balance must cover the amount.
    Balance,
    /// The gas limit must lie within the protocol bounds.
    Gas,
}

/// The verdict of running the validators over one transaction.
#[derive(Debug, Clone, Copy, PartialEq, Eq, Structural)]
pub struct ValidationResult {
    /// Whether every validator passed.
    pub valid: bool,
    /// The gas the validators estimate.
    pub gas_estimate: u64,
}

/// Whether one validator accepts `tx` against state content `v`.
pub open spec fn spec_validate_one(k: ValidatorKind, tx: Transaction, v: StateView) -> bool {
    match k {
        ValidatorKind::Signature => tx.signature is Some,
        ValidatorKind::Nonce => tx.nonce == nonce_in(v, tx.from_address.0@) + 1,
        ValidatorKind::Balance => low64_of(balance_in(v, tx.from_address.0@, tx.amount.token_type))
            >= low64_of(tx.amount.amount.0@),
        ValidatorKind::Gas => 21000 <= tx.gas_limit <= 15000000,
    }
}

/// Whether every validator in the registry accepts `tx`.
pub open spec fn spec_valid_tx(ks: Seq<ValidatorKind>, tx: Transaction, v: StateView) -> bool {
    forall|i: int| 0 <= i < ks.len() ==> spec_validate_one(#[trigger] ks[i], tx, v)
}

/// The registry of validators, in the order they run: signature presence,
/// nonce, balance sufficiency, gas-limit bounds.
pub fn initialize_validators() -> (r: Vec<ValidatorKind>)
    ensures
        r@ == seq![
            ValidatorKind::Signature,
            ValidatorKind::Nonce,
            ValidatorKind::Balance,
            ValidatorKind::Gas,
        ],
{
    let mut v: Vec<ValidatorKind> = Vec::new();
    v.push(ValidatorKind::Signature);
    v.push(ValidatorKind::Nonce);
    v.push(ValidatorKind::Balance);
    v.push(ValidatorKind::Gas);
    proof {
        assert(v@ =~= seq![
            ValidatorKind::Signature,
            ValidatorKind::Nonce,
            ValidatorKind::Balance,
            ValidatorKind::Gas,
        ]);
    }
    v
}

/// Runs one validator over `tx` against `state`.
pub fn validate_one(k: ValidatorKind, tx: &Transaction, state: &L2State) -> (r: bool)
    requires
        state.wf(),
    ensures
        r == spec_validate_one(k, *tx, state@),
{
    match k {
        ValidatorKind::Signature => tx.signature.is_some(),
        ValidatorKind::Nonce => {
            let current = match state.accounts.get(&tx.from_address) {
                Some(st) => st.nonce,
                None => 0,
            };
            current < u64::MAX && tx.nonce == current + 1
        },
        ValidatorKind::Balance => {
            let bal = match state.accounts.get(&tx.from_address) {
                Some(st) => st.balances.get(tx.amount.token_type),
                None => U256::zero(),
            };
            let amt = tx.amount.amount.to_u64();
            bal.to_u64() >= amt
        },
        ValidatorKind::Gas => 21000 <= tx.gas_limit && tx.gas_limit <= 15000000,
    }
}

/// Runs the whole validator registry over `tx`, in order.
pub fn validate_single_transaction(
    validators: &Vec<ValidatorKind>,
    tx: &Transaction,
    state: &L2State,
) -> (r: ValidationResult)
    requires
        state.wf(),
    ensures
        r.valid == spec_valid_tx(validators@, *tx, state@),
        r.gas_estimate == 21000,
{
    let mut i: usize = 0;
    let n = validators.len();
    while i < n
        invariant
            state.wf(),
            n == validators@.len(),
            0 <= i <= n,
            forall|j: int| 0 <= j < i ==> spec_validate_one(#[trigger] validators@[j], *tx, state@),
        decreases n - i,
    {
        if !validate_one(validators[i], tx, state) {
            return ValidationResult { valid: false, gas_estimate: 21000 };
        }
        i = i + 1;
    }
    ValidationResult { valid: true, gas_estimate: 21000 }
}

/// The transactions of `txs` that every validator accepts against `v`, in
/// their original order.
pub open spec fn spec_filter_valid(
    ks: Seq<ValidatorKind>,
    txs: Seq<Transaction>,
    v: StateView,
) -> Seq<Transaction>
    decreases txs.len(),
{
    if txs.len() == 0 {
        Seq::empty()
    } else {
        let rest = spec_filter_valid(ks, txs.drop_first(), v);
        if spec_valid_tx(ks, txs.first(), v) {
            seq![txs.first()] + rest
        } else {
            rest
        }
    }
}

/// Keeps the transactions that every validator accepts, preserving order.
/// Validation is independent per transaction: each is judged against the
/// same starting state.
pub fn validate_transactions(
    validators: &Vec<ValidatorKind>,
    txs: Vec<Transaction>,
    state: &L2State,
) -> (r: Vec<Transaction>)
    requires
        state.wf(),
    ensures
        r@ == spec_filter_valid(validators@, txs@, state@),
{
    let mut kept: Vec<Transaction> = Vec::new();
    let mut rest = txs;
    let ghost all = rest@;
    while rest.len() > 0
        invariant
            state.wf(),
            kept@ + spec_filter_valid(validators@, rest@, state@) == spec_filter_valid(
                validators@,
                all,
                state@,
            ),
        decreases rest@.len(),
    {
        let ghost rest_pre = rest@;
        let tx = rest.remove(0);
        proof {
            assert(rest@ =~= rest_pre.drop_first());
            assert(rest_pre.first() == tx);
        }
        let v = validate_single_transaction(validators, &tx, state);
        if v.valid {
            let ghost kept_pre = kept@;
            kept.push(tx);
            proof {
                assert(kept@ + spec_filter_valid(validators@, rest@, state@) =~= kept_pre + (seq![
                    tx,
                ] + spec_filter_valid(validators@, rest@, state@)));
            }
        }
    }
    proof {
        assert(spec_filter_valid(validators@, rest@, state@) =~= Seq::<Transaction>::empty());
        assert(kept@ + Seq::<Transaction>::empty() =~= kept@);
    }
    kept
}

// ---------------------------------------------------------------------------
// Transaction hashing and the merkle commitment
// ---------------------------------------------------------------------------

/// The byte encoding of a transaction that its digest commits to.
pub open spec fn encode_tx(tx: Transaction) -> Seq<u8> {
    u64_be8(tx.id) + tx.from_address.0@ + tx.to_address.0@ + tx.amount.amount.0@ + u64_be8(tx.nonce)
        + u64_be8(tx.gas_limit) + tx.gas_price.0@ + tx.data@
}

/// Computes the digest of one transaction.
pub fn hash_transaction(tx: &Transaction) -> (r: Vec<u8>)
    ensures
        r@ == sha256_of(encode_tx(*tx)),
        r@.len() == 32,
{
    let mut buf: Vec<u8> = Vec::new();
    append_u64(&mut buf, tx.id);
    append_addr(&mut buf, &tx.from_address);
    append_addr(&mut buf, &tx.to_address);
    append_word(&mut buf, &tx.amount.amount);
    append_u64(&mut buf, tx.nonce);
    append_u64(&mut buf, tx.gas_limit);
    append_word(&mut buf, &tx.gas_price);
    append_bytes(&mut buf, &tx.data);
    proof {
        assert(buf@ =~= encode_tx(*tx));
    }
    sha256(buf.as_slice())
}

/// The concatenated digests of a transaction list, in order.
pub open spec fn concat_tx_hashes(txs: Seq<Transaction>) -> Seq<u8>
    decreases txs.len(),
{
    if txs.len() == 0 {
        Seq::empty()
    } else {
        concat_tx_hashes(txs.drop_last()) + sha256_of(encode_tx(txs.last()))
    }
}

/// The merkle commitment over a transaction list: the digest of the
/// ordered transaction digests, or 32 zero bytes for an empty list.
pub open spec fn merkle_root_of(txs: Seq<Transaction>) -> Seq<u8> {
    if txs.len() == 0 {
        crate::state::zero32()
    } else {
        sha256_of(concat_tx_hashes(txs))
    }
}

/// Builds the merkle commitment over the ordered transaction list.
pub fn build_merkle_proof(txs: &Vec<Transaction>) -> (r: Vec<u8>)
    ensures
        r@ == merkle_root_of(txs@),
        r@.len() == 32,
{
    if txs.len() == 0 {
        let mut zeros: Vec<u8> = Vec::new();
        let mut i: usize = 0;
        while i < 32
            invariant
                0 <= i <= 32,
                zeros@.len() == i,
                forall|j: int| 0 <= j < i ==> zeros@[j] == 0u8,
            decreases 32 - i,
        {
            zeros.push(0u8);
            i = i + 1;
        }
        proof {
            assert(zeros@ =~= crate::state::zero32());
        }
        return zeros;
    }
    let mut buf: Vec<u8> = Vec::new();
    let mut i: usize = 0;
    let n = txs.len();
    while i < n
        invariant
            n == txs@.len(),
            0 <= i <= n,
            buf@ == concat_tx_hashes(txs@.take(i as int)),
        decreases n - i,
    {
        proof {
            assert(txs@.take(i + 1).drop_last() =~= txs@.take(i as int));
            assert(txs@.take(i + 1).last() == txs@[i as int]);
        }
        let h = hash_transaction(&txs[i]);
        append_bytes(&mut buf, &h);
        i = i + 1;
    }
    proof {
        assert(txs@.take(n as int) =~= txs@);
    }
    sha256(buf.as_slice())
}

// ---------------------------------------------------------------------------
// The state root
// ---------------------------------------------------------------------------

/// The byte encoding of one account that the state root commits to: the
/// address, the nonce, the four balances, the storage root and the code
/// digest.
pub open spec fn encode_account(a: Seq<u8>, av: crate::state::AccountView) -> Seq<u8> {
    a + u64_be8(av.nonce) + av.balances[TokenType::Gcc] + av.balances[TokenType::Spirit]
        + av.balances[TokenType::Mana] + av.balances[TokenType::GhostToken] + av.storage_root
        + av.code_hash
}

/// The byte encoding of the account table, entries in address order.
pub open spec fn encode_entries(es: Seq<AccountEntry>) -> Seq<u8>
    decreases es.len(),
{
    if es.len() == 0 {
        Seq::empty()
    } else {
        encode_entries(es.drop_last()) + encode_account(es.last().addr.0@, es.last().state.view())
    }
}

/// Entry sequences with the same keys and content encode identically.
proof fn lemma_encode_congruent(x: Seq<AccountEntry>, y: Seq<AccountEntry>)
    requires
        x.len() == y.len(),
        forall|i: int|
            0 <= i < x.len() ==> (#[trigger] x[i].addr.0@) == y[i].addr.0@ && x[i].state.view()
                == y[i].state.view(),
    ensures
        encode_entries(x) == encode_entries(y),
    decreases x.len(),
{
    if x.len() > 0 {
        assert forall|i: int|
            0 <= i < x.drop_last().len() implies (#[trigger] x.drop_last()[i].addr.0@)
            == y.drop_last()[i].addr.0@ && x.drop_last()[i].state.view()
            == y.drop_last()[i].state.view() by {
            assert(x.drop_last()[i] == x[i]);
            assert(y.drop_last()[i] == y[i]);
        }
        lemma_encode_congruent(x.drop_last(), y.drop_last());
        assert(x.last().addr.0@ == y.last().addr.0@ && x.last().state.view()
            == y.last().state.view());
    }
}

/// The canonical byte encoding of an account map: the encoding of the
/// address-sorted entry sequence that enumerates it.
pub open spec fn canonical_state_bytes(m: Map<Seq<u8>, crate::state::AccountView>) -> Seq<u8> {
    encode_entries(
        choose|es: Seq<AccountEntry>|
            crate::state::entry_keys_sorted(es) && crate::state::entries_match(es, m),
    )
}

/// The canonical state root of an account map: a function of the
/// accounts' content alone.
pub open spec fn canonical_root(m: Map<Seq<u8>, crate::state::AccountView>) -> Seq<u8> {
    sha256_of(canonical_state_bytes(m))
}

/// A well-formed table's encoding is the canonical encoding of its
/// content.
pub proof fn lemma_table_encoding_canonical(t: crate::state::AccountTable)
    requires
        t.wf(),
    ensures
        encode_entries(t.spec_entries()) == canonical_state_bytes(t.view()),
{
    t.lemma_entries_canonical();
    let es = choose|es: Seq<AccountEntry>|
        crate::state::entry_keys_sorted(es) && crate::state::entries_match(es, t.view());
    assert(crate::state::entry_keys_sorted(es) && crate::state::entries_match(es, t.view()));
    crate::state::lemma_sorted_entries_unique(t.spec_entries(), es, t.view());
    lemma_encode_congruent(t.spec_entries(), es);
}

/// Law: the state root is determined by the accounts' content. Two
/// well-formed tables holding the same accounts encode — and therefore
/// hash — identically, whatever their history.
pub proof fn lemma_state_root_content_determined(
    t1: crate::state::AccountTable,
    t2: crate::state::AccountTable,
)
    requires
        t1.wf(),
        t2.wf(),
        t1.view() == t2.view(),
    ensures
        sha256_of(encode_entries(t1.spec_entries())) == sha256_of(
            encode_entries(t2.spec_entries()),
        ),
{
    lemma_table_encoding_canonical(t1);
    lemma_table_encoding_canonical(t2);
}

/// Computes the state root: the digest of the account table encoded in
/// address order. The root is a function of the accounts' content alone.
pub fn compute_state_root(state: &L2State) -> (r: Vec<u8>)
    requires
        state.wf(),
    ensures
        r@ == sha256_of(encode_entries(state.accounts.spec_entries())),
        r@ == canonical_root(state@.accounts),
        r@.len() == 32,
{
    proof {
        lemma_table_encoding_canonical(state.accounts);
    }
    let mut buf: Vec<u8> = Vec::new();
    let n = state.accounts.len();
    let mut i: usize = 0;
    while i < n
        invariant
            state.wf(),
            n == state.accounts.spec_entries().len(),
            0 <= i <= n,
            buf@ == encode_entries(state.accounts.spec_entries().take(i as int)),
        decreases n - i,
    {
        let ghost es = state.accounts.spec_entries();
        proof {
            assert(es.take(i + 1).drop_last() =~= es.take(i as int));
            assert(es.take(i + 1).last() == es[i as int]);
        }
        let e = state.accounts.entry_at(i);
        append_addr(&mut buf, &e.addr);
        append_u64(&mut buf, e.state.nonce);
        append_word(&mut buf, &e.state.balances.gcc);
        append_word(&mut buf, &e.state.balances.spirit);
        append_word(&mut buf, &e.state.balances.mana);
        append_word(&mut buf, &e.state.balances.ghost_token);
        append_bytes(&mut buf, &e.state.storage_root);
        append_bytes(&mut buf, &e.state.code_hash);
        proof {
            assert(buf@ =~= encode_entries(es.take(i as int)) + encode_account(
                es[i as int].addr.0@,
                es[i as int].state.view(),
            ));
        }
        i = i + 1;
    }
    proof {
        assert(state.accounts.spec_entries().take(n as int) =~= state.accounts.spec_entries());
    }
    sha256(buf.as_slice())
}

// ---------------------------------------------------------------------------
// Execution
// ---------------------------------------------------------------------------

/// Saturating increment.
pub open spec fn sat_inc(n: u64) -> u64 {
    if n < u64::MAX {
        (n + 1) as u64
    } else {
        u64::MAX
    }
}

/// The outcome of executing one transaction.
#[derive(Debug, Clone, Copy, PartialEq, Eq, Structural)]
pub struct ExecutionResult {
    /// Whether the transfer went through.
    pub success: bool,
    /// The gas it consumed.
    pub gas_used: u64,
}

/// The state content after one successful transfer: the amount's low limb
/// moves from the sender's balance to the recipient's, and the sender's
/// nonce advances, saturating.
pub open spec fn spec_execute_transfer(v: StateView, tx: Transaction) -> StateView {
    let fromk = tx.from_address.0@;
    let tok = tx.amount.token_type;
    let amt = low64_of(tx.amount.amount.0@);
    let fav = account_or_fresh(v.accounts, fromk);
    let fbal = low64_of(fav.balances[tok]);
    let a1 = v.accounts.insert(
        fromk,
        crate::state::AccountView {
            balances: fav.balances.insert(
                tok,
                u64_be_bytes(crate::types::sat_sub_nat(fbal, amt) as u64),
            ),
            ..fav
        },
    );
    let tokk = tx.to_address.0@;
    let tav = account_or_fresh(a1, tokk);
    let tbal = low64_of(tav.balances[tok]);
    let a2 = a1.insert(
        tokk,
        crate::state::AccountView {
            balances: tav.balances.insert(tok, u64_be_bytes(sat_add_nat(tbal, amt) as u64)),
            ..tav
        },
    );
    let fav2 = account_or_fresh(a2, fromk);
    let a3 = a2.insert(fromk, crate::state::AccountView { nonce: sat_inc(fav2.nonce), ..fav2 });
    StateView { accounts: a3, ..v }
}

/// Executes one transfer against the state. The transfer fails, leaving
/// the state untouched and charging the base cost, exactly when the
/// sender's balance does not cover the amount; otherwise the balances and
/// nonce move and the computed gas cost is charged.
pub fn execute_single_transaction(g: &GasSchedule, state: &mut L2State, tx: &Transaction) -> (r:
    ExecutionResult)
    requires
        old(state).wf(),
    ensures
        final(state).wf(),
        ({
            let fbal = low64_of(
                balance_in(old(state)@, tx.from_address.0@, tx.amount.token_type),
            );
            let amt = low64_of(tx.amount.amount.0@);
            if fbal < amt {
                r.success == false && r.gas_used == 21000 && final(state)@ == old(state)@
            } else {
                r.success == true && r.gas_used as nat == spec_gas_cost(*g, *tx) && final(state)@
                    == spec_execute_transfer(old(state)@, *tx)
            }
        }),
{
    let from = tx.from_address;
    let to = tx.to_address;
    let tok = tx.amount.token_type;
    let fbal_w = match state.accounts.get(&from) {
        Some(st) => st.balances.get(tok),
        None => U256::zero(),
    };
    let fbal = fbal_w.to_u64();
    let amt = tx.amount.amount.to_u64();
    proof {
        assert(fbal as nat == low64_of(balance_in(old(state)@, tx.from_address.0@, tok)));
    }
    if fbal < amt {
        return ExecutionResult { success: false, gas_used: 21000 };
    }
    let gas = calculate_gas_cost(g, tx);
    let ghost v0 = state@;
    // move the amount out of the sender's balance
    let mut facct = match state.accounts.take(&from) {
        Some(st) => st,
        None => AccountState::fresh(state.timestamp),
    };
    facct.balances.set(tok, U256::from(fbal - amt));
    state.accounts.upsert(from, facct);
    let ghost fav = account_or_fresh(v0.accounts, from.0@);
    let ghost a1 = v0.accounts.insert(
        from.0@,
        crate::state::AccountView {
            balances: fav.balances.insert(
                tok,
                u64_be_bytes(crate::types::sat_sub_nat(low64_of(fav.balances[tok]), amt as nat) as u64),
            ),
            ..fav
        },
    );
    proof {
        crate::state::lemma_remove_insert(v0.accounts, from.0@);
        assert(facct.balances.view() =~= fav.balances.insert(
            tok,
            u64_be_bytes(crate::types::sat_sub_nat(low64_of(fav.balances[tok]), amt as nat) as u64),
        ));
        assert(facct.view() =~= crate::state::AccountView {
            balances: fav.balances.insert(
                tok,
                u64_be_bytes(
                    crate::types::sat_sub_nat(low64_of(fav.balances[tok]), amt as nat) as u64,
                ),
            ),
            ..fav
        });
        assert(state@.accounts =~= a1);
    }
    // move the amount into the recipient's balance
    let tbal_w = match state.accounts.get(&to) {
        Some(st) => st.balances.get(tok),
        None => U256::zero(),
    };
    let tbal = tbal_w.to_u64();
    let new_tbal: u64 = if tbal <= u64::MAX - amt {
        tbal + amt
    } else {
        u64::MAX
    };
    let mut tacct = match state.accounts.take(&to) {
        Some(st) => st,
        None => AccountState::fresh(state.timestamp),
    };
    tacct.balances.set(tok, U256::from(new_tbal));
    state.accounts.upsert(to, tacct);
    let ghost tav = account_or_fresh(a1, to.0@);
    let ghost a2 = a1.insert(
        to.0@,
        crate::state::AccountView {
            balances: tav.balances.insert(
                tok,
                u64_be_bytes(sat_add_nat(low64_of(tav.balances[tok]), amt as nat) as u64),
            ),
            ..tav
        },
    );
    proof {
        crate::state::lemma_remove_insert(a1, to.0@);
        assert(tbal as nat == low64_of(tav.balances[tok]));
        assert(tacct.balances.view() =~= tav.balances.insert(
            tok,
            u64_be_bytes(sat_add_nat(low64_of(tav.balances[tok]), amt as nat) as u64),
        ));
        assert(tacct.view() =~= crate::state::AccountView {
            balances: tav.balances.insert(
                tok,
                u64_be_bytes(sat_add_nat(low64_of(tav.balances[tok]), amt as nat) as u64),
            ),
            ..tav
        });
        assert(state@.accounts =~= a2);
    }
    // advance the sender's nonce
    let mut nacct = match state.accounts.take(&from) {
        Some(st) => st,
        None => AccountState::fresh(state.timestamp),
    };
    let n0 = nacct.nonce;
    nacct.nonce = if n0 < u64::MAX {
        n0 + 1
    } else {
        u64::MAX
    };
    state.accounts.upsert(from, nacct);
    proof {
        crate::state::lemma_remove_insert(a2, from.0@);
        let fav2 = account_or_fresh(a2, from.0@);
        assert(nacct.view() =~= crate::state::AccountView { nonce: sat_inc(fav2.nonce), ..fav2 });
        assert(state@ =~= spec_execute_transfer(v0, *tx));
    }
    ExecutionResult { success: true, gas_used: gas }
}

/// The fold of sequential execution: each transaction whose sender balance
/// covers its amount is executed and kept, the others are dropped; `kept`
/// and `gas` accumulate the committed transactions and their total cost.
pub open spec fn spec_execute_batch(
    g: GasSchedule,
    v: StateView,
    txs: Seq<Transaction>,
    kept: Seq<Transaction>,
    gas: u64,
) -> (StateView, Seq<Transaction>, u64)
    decreases txs.len(),
{
    if txs.len() == 0 {
        (v, kept, gas)
    } else {
        let tx = txs.first();
        if low64_of(balance_in(v, tx.from_address.0@, tx.amount.token_type)) >= low64_of(
            tx.amount.amount.0@,
        ) {
            spec_execute_batch(
                g,
                spec_execute_transfer(v, tx),
                txs.drop_first(),
                kept.push(tx),
                sat_add_nat(gas as nat, spec_gas_cost(g, tx)) as u64,
            )
        } else {
            spec_execute_batch(g, v, txs.drop_first(), kept, gas)
        }
    }
}

/// Executes the transactions strictly in order against the state. Returns
/// the committed transactions and their total gas; a transaction that
/// fails — because an earlier one in the batch drained the balance — is
/// dropped from the batch, not retried.
pub fn execute_transactions(g: &GasSchedule, state: &mut L2State, txs: Vec<Transaction>) -> (r: (
    Vec<Transaction>,
    u64,
))
    requires
        old(state).wf(),
    ensures
        final(state).wf(),
        ({
            let (pv, pkept, pgas) = spec_execute_batch(*g, old(state)@, txs@, Seq::empty(), 0);
            final(state)@ == pv && r.0@ == pkept && r.1 == pgas
        }),
{
    let ghost all = txs@;
    let ghost v_in = state@;
    let mut kept: Vec<Transaction> = Vec::new();
    let mut gas: u64 = 0;
    let mut rest = txs;
    while rest.len() > 0
        invariant
            state.wf(),
            spec_execute_batch(*g, state@, rest@, kept@, gas) == spec_execute_batch(
                *g,
                v_in,
                all,
                Seq::empty(),
                0,
            ),
        decreases rest@.len(),
    {
        let ghost rest_pre = rest@;
        let tx = rest.remove(0);
        proof {
            assert(rest@ =~= rest_pre.drop_first());
            assert(rest_pre.first() == tx);
        }
        let outcome = execute_single_transaction(g, state, &tx);
        if outcome.success {
            gas = if gas <= u64::MAX - outcome.gas_used {
                gas + outcome.gas_used
            } else {
                u64::MAX
            };
            kept.push(tx);
        }
    }
    (kept, gas)
}

/// The fold changes only the accounts.
pub proof fn lemma_execute_batch_frame(
    g: GasSchedule,
    v: StateView,
    txs: Seq<Transaction>,
    kept: Seq<Transaction>,
    gas: u64,
)
    ensures
        spec_execute_batch(g, v, txs, kept, gas).0.state_root == v.state_root,
        spec_execute_batch(g, v, txs, kept, gas).0.block_number == v.block_number,
        spec_execute_batch(g, v, txs, kept, gas).0.timestamp == v.timestamp,
        spec_execute_batch(g, v, txs, kept, gas).0.total_supply == v.total_supply,
        spec_execute_batch(g, v, txs, kept, gas).0.transaction_count == v.transaction_count,
        spec_execute_batch(g, v, txs, kept, gas).0.gas_used == v.gas_used,
    decreases txs.len(),
{
    if txs.len() > 0 {
        let tx = txs.first();
        if low64_of(balance_in(v, tx.from_address.0@, tx.amount.token_type)) >= low64_of(
            tx.amount.amount.0@,
        ) {
            lemma_execute_batch_frame(
                g,
                spec_execute_transfer(v, tx),
                txs.drop_first(),
                kept.push(tx),
                sat_add_nat(gas as nat, spec_gas_cost(g, tx)) as u64,
            );
        } else {
            lemma_execute_batch_frame(g, v, txs.drop_first(), kept, gas);
        }
    }
}

/// The state the fold reaches does not depend on the accumulators.
pub proof fn lemma_execute_batch_state(
    g: GasSchedule,
    v: StateView,
    txs: Seq<Transaction>,
    k1: Seq<Transaction>,
    g1: u64,
    k2: Seq<Transaction>,
    g2: u64,
)
    ensures
        spec_execute_batch(g, v, txs, k1, g1).0 == spec_execute_batch(g, v, txs, k2, g2).0,
    decreases txs.len(),
{
    if txs.len() > 0 {
        let tx = txs.first();
        if low64_of(balance_in(v, tx.from_address.0@, tx.amount.token_type)) >= low64_of(
            tx.amount.amount.0@,
        ) {
            lemma_execute_batch_state(
                g,
                spec_execute_transfer(v, tx),
                txs.drop_first(),
                k1.push(tx),
                sat_add_nat(g1 as nat, spec_gas_cost(g, tx)) as u64,
                k2.push(tx),
                sat_add_nat(g2 as nat, spec_gas_cost(g, tx)) as u64,
            );
        } else {
            lemma_execute_batch_state(g, v, txs.drop_first(), k1, g1, k2, g2);
        }
    }
}

/// Re-derives the root a batch's transaction list produces from its
/// starting state, without touching the canonical state.
pub fn replay_batch_root(g: &GasSchedule, pre: &L2State, txs: &Vec<Transaction>) -> (r: Vec<u8>)
    requires
        pre.wf(),
    ensures
        r@ == canonical_root(
            spec_execute_batch(*g, pre@, txs@, Seq::empty(), 0).0.accounts,
        ),
        r@.len() == 32,
{
    let mut work = pre.duplicate();
    let n = txs.len();
    let mut i: usize = 0;
    proof {
        assert(txs@.skip(0) =~= txs@);
    }
    while i < n
        invariant
            work.wf(),
            n == txs@.len(),
            0 <= i <= n,
            spec_execute_batch(*g, work@, txs@.skip(i as int), Seq::empty(), 0).0
                == spec_execute_batch(*g, pre@, txs@, Seq::empty(), 0).0,
        decreases n - i,
    {
        proof {
            assert(txs@.skip(i as int).first() == txs@[i as int]);
            assert(txs@.skip(i as int).drop_first() =~= txs@.skip(i + 1));
        }
        let ghost v_before = work@;
        let tx = &txs[i];
        let outcome = execute_single_transaction(g, &mut work, tx);
        proof {
            let tv = txs@[i as int];
            if low64_of(balance_in(v_before, tv.from_address.0@, tv.amount.token_type))
                >= low64_of(tv.amount.amount.0@) {
                lemma_execute_batch_state(
                    *g,
                    spec_execute_transfer(v_before, tv),
                    txs@.skip(i + 1),
                    seq![tv],
                    sat_add_nat(0, spec_gas_cost(*g, tv)) as u64,
                    Seq::empty(),
                    0,
                );
            }
        }
        i = i + 1;
    }
    proof {
        assert(txs@.skip(n as int) =~= Seq::<Transaction>::empty());
    }
    compute_state_root(&work)
}

/// The total fee of a transaction list: each transaction's gas limit
/// priced at its gas price, summed, all saturating on the low limb.
pub open spec fn spec_total_fee(txs: Seq<Transaction>, acc: nat) -> nat
    decreases txs.len(),
{
    if txs.len() == 0 {
        acc
    } else {
        spec_total_fee(
            txs.drop_first(),
            sat_add_nat(
                acc,
                sat_mul_nat(txs.first().gas_limit as nat, low64_of(txs.first().gas_price.0@)),
            ),
        )
    }
}

/// Computes the total fee the batch pays, denominated in the gas token.
pub fn calculate_total_fee(txs: &Vec<Transaction>) -> (r: TokenAmount)
    ensures
        r.token_type == TokenType::Gcc,
        r.decimals == 18,
        low64_of(r.amount.0@) == spec_total_fee(txs@, 0),
        crate::types::high_zero(r.amount.0@),
        r.amount.0@.len() == 32,
{
    let mut total = U256::zero();
    let mut i: usize = 0;
    let n = txs.len();
    proof {
        assert(low64_of(total.0@) == 0);
        assert(txs@.skip(0) =~= txs@);
    }
    while i < n
        invariant
            n == txs@.len(),
            0 <= i <= n,
            total.0@.len() == 32,
            crate::types::high_zero(total.0@),
            spec_total_fee(txs@.skip(i as int), low64_of(total.0@)) == spec_total_fee(txs@, 0),
        decreases n - i,
    {
        proof {
            assert(txs@.skip(i as int).first() == txs@[i as int]);
            assert(txs@.skip(i as int).drop_first() =~= txs@.skip(i + 1));
        }
        let fee = U256::from(txs[i].gas_limit).saturating_mul(&txs[i].gas_price);
        total = total.saturating_add(&fee);
        i = i + 1;
    }
    proof {
        assert(txs@.skip(n as int) =~= Seq::<Transaction>::empty());
    }
    TokenAmount::new(TokenType::Gcc, total)
}

// ---------------------------------------------------------------------------
// The settlement batch and its processor
// ---------------------------------------------------------------------------

/// One batch of committed transactions: the ordered list, the roots it
/// bridges, its merkle commitment and the gas and fee it accounts for.
/// Created once, then immutable, and referenced by its id through
/// submission, challenge and finality.
#[derive(Debug)]
pub struct SettlementBatch {
    /// Opaque identifier of the batch.
    pub batch_id: u64,
    /// The committed transactions, in execution order.
    pub transactions: Vec<Transaction>,
    /// The root the batch claims to produce.
    pub state_root: Vec<u8>,
    /// The root the batch starts from.
    pub previous_state_root: Vec<u8>,
    /// The merkle commitment over the transaction list.
    pub merkle_proof: Vec<u8>,
    /// An attached zero-knowledge proof, when one was generated.
    pub zk_proof: Option<Vec<u8>>,
    /// When the batch was assembled, in milliseconds.
    pub created_at: u64,
    /// The gas the batch consumed.
    pub gas_used: u64,
    /// The fee the batch pays.
    pub fee_paid: TokenAmount,
}

/// The execution context a batch runs under.
#[derive(Debug, Clone, Copy, PartialEq, Eq)]
pub struct ExecutionContext {
    /// The rollup block height being built.
    pub block_number: u64,
    /// The wall-clock time of the context, in milliseconds.
    pub timestamp: u64,
    /// The gas budget of one batch.
    pub gas_limit: u64,
    /// The base fee charged per gas unit.
    pub base_fee: U256,
    /// The rollup chain identifier.
    pub chain_id: u64,
}

/// Integer counters of the processor's work.
#[derive(Debug, Clone, Copy, PartialEq, Eq, Structural)]
pub struct ProcessingMetrics {
    /// Transactions committed into batches.
    pub transactions_processed: u64,
    /// Batches assembled.
    pub batches_created: u64,
    /// When the counters last changed, in milliseconds.
    pub last_updated: u64,
}

/// Assembles settlement batches: validates the drained transactions
/// independently, executes the survivors strictly in order against the
/// working state, recomputes the state root, and packs the result with its
/// merkle commitment and fee.
pub struct BatchProcessor {
    config: crate::config::SettlementConfig,
    execution_context: ExecutionContext,
    gas_schedule: GasSchedule,
    validators: Vec<ValidatorKind>,
    metrics: ProcessingMetrics,
    next_batch_id: u64,
}

impl BatchProcessor {
    /// The validator registry, in run order.
    pub closed spec fn spec_validators(self) -> Seq<ValidatorKind> {
        self.validators@
    }

    /// The gas schedule in force.
    pub closed spec fn spec_gas_schedule(self) -> GasSchedule {
        self.gas_schedule
    }

    /// The id the next batch will carry.
    pub closed spec fn spec_next_batch_id(self) -> u64 {
        self.next_batch_id
    }

    /// The work counters.
    pub closed spec fn spec_metrics(self) -> ProcessingMetrics {
        self.metrics
    }

    /// A processor with the stock gas schedule and the standard validator
    /// registry: signature presence, nonce, balance sufficiency, gas-limit
    /// bounds.
    pub fn new(config: &crate::config::SettlementConfig) -> (r: BatchProcessor)
        ensures
            r.spec_validators() == seq![
                ValidatorKind::Signature,
                ValidatorKind::Nonce,
                ValidatorKind::Balance,
                ValidatorKind::Gas,
            ],
            r.spec_gas_schedule() == (GasSchedule {
                base_transaction_cost: 21000u64,
                data_cost_per_byte: 16u64,
                transfer_cost: 2300u64,
                contract_creation_cost: 32000u64,
                storage_write_cost: 20000u64,
                storage_read_cost: 200u64,
            }),
            r.spec_next_batch_id() == 1,
            r.spec_metrics() == (ProcessingMetrics {
                transactions_processed: 0u64,
                batches_created: 0u64,
                last_updated: 0u64,
            }),
    {
        BatchProcessor {
            config: config.clone(),
            execution_context: ExecutionContext {
                block_number: 0,
                timestamp: 0,
                gas_limit: config.l1_gas_limit,
                base_fee: U256::from(1000000000),
                chain_id: 1337,
            },
            gas_schedule: GasSchedule::stock(),
            validators: initialize_validators(),
            metrics: ProcessingMetrics {
                transactions_processed: 0,
                batches_created: 0,
                last_updated: 0,
            },
            next_batch_id: 1,
        }
    }

    /// Whether the processor is serviceable.
    pub fn is_healthy(&self) -> (r: bool)
        ensures
            r == (self.spec_validators().len() > 0),
    {
        self.validators.len() > 0
    }

    /// Runs one batch through the pipeline: validation of each drained
    /// transaction against the starting state, strictly sequential
    /// execution of the survivors, a fresh state root over the touched
    /// accounts, and assembly of the batch with its merkle commitment,
    /// total gas and fee.
    pub fn process_batch(&mut self, state: &mut L2State, transactions: Vec<Transaction>, now: u64)
        -> (r: SettlementBatch)
        requires
            old(state).wf(),
        ensures
            final(state).wf(),
            ({
                let valid = spec_filter_valid(
                    old(self).spec_validators(),
                    transactions@,
                    old(state)@,
                );
                let (pv, pkept, pgas) = spec_execute_batch(
                    old(self).spec_gas_schedule(),
                    old(state)@,
                    valid,
                    Seq::empty(),
                    0,
                );
                &&& r.transactions@ == pkept
                &&& r.gas_used == pgas
                &&& final(state)@.accounts == pv.accounts
                &&& final(state)@.state_root == sha256_of(
                    encode_entries(final(state).accounts.spec_entries()),
                )
                &&& final(state)@.state_root == canonical_root(pv.accounts)
                &&& final(state)@ == (StateView {
                    state_root: canonical_root(pv.accounts),
                    ..pv
                })
                &&& r.state_root@ == final(state)@.state_root
                &&& r.previous_state_root@ == old(state)@.state_root
                &&& r.merkle_proof@ == merkle_root_of(pkept)
                &&& r.zk_proof is None
                &&& r.created_at == now
                &&& r.batch_id == old(self).spec_next_batch_id()
                &&& r.fee_paid.token_type == TokenType::Gcc
                &&& low64_of(r.fee_paid.amount.0@) == spec_total_fee(pkept, 0)
            }),
            final(self).spec_validators() == old(self).spec_validators(),
            final(self).spec_gas_schedule() == old(self).spec_gas_schedule(),
            final(self).spec_next_batch_id() == sat_inc(old(self).spec_next_batch_id()),
    {
        let previous_state_root = crate::state::copy_bytes(&state.state_root);
        let validated = validate_transactions(&self.validators, transactions, state);
        let (executed, gas_used) = execute_transactions(&self.gas_schedule, state, validated);
        let new_root = compute_state_root(state);
        state.state_root = new_root;
        proof {
            let valid = spec_filter_valid(old(self).spec_validators(), transactions@, old(state)@);
            let (pv, pkept, pgas) = spec_execute_batch(
                old(self).spec_gas_schedule(),
                old(state)@,
                valid,
                Seq::empty(),
                0,
            );
            assert(state@ =~= StateView { state_root: canonical_root(pv.accounts), ..pv });
        }
        let state_root = crate::state::copy_bytes(&state.state_root);
        let merkle_proof = build_merkle_proof(&executed);
        let fee_paid = calculate_total_fee(&executed);
        let batch_id = self.next_batch_id;
        self.next_batch_id = if self.next_batch_id < u64::MAX {
            self.next_batch_id + 1
        } else {
            u64::MAX
        };
        let tx_count = executed.len() as u64;
        let tp = self.metrics.transactions_processed;
        self.metrics.transactions_processed = if tp <= u64::MAX - tx_count {
            tp + tx_count
        } else {
            u64::MAX
        };
        let bc = self.metrics.batches_created;
        self.metrics.batches_created = if bc < u64::MAX {
            bc + 1
        } else {
            u64::MAX
        };
        self.metrics.last_updated = now;
        SettlementBatch {
            batch_id,
            transactions: executed,
            state_root,
            previous_state_root,
            merkle_proof,
            zk_proof: None,
            created_at: now,
            gas_used,
            fee_paid,
        }
    }
}

/// Validation keeps a list it wholly accepts, unchanged and in order.
pub proof fn lemma_filter_keeps_valid(
    ks: Seq<ValidatorKind>,
    txs: Seq<Transaction>,
    v: StateView,
)
    requires
        forall|i: int| 0 <= i < txs.len() ==> spec_valid_tx(ks, #[trigger] txs[i], v),
    ensures
        spec_filter_valid(ks, txs, v) == txs,
    decreases txs.len(),
{
    if txs.len() > 0 {
        assert(spec_valid_tx(ks, txs[0], v));
        assert forall|i: int|
            0 <= i < txs.drop_first().len() implies spec_valid_tx(
            ks,
            #[trigger] txs.drop_first()[i],
            v,
        ) by {
            assert(txs.drop_first()[i] == txs[i + 1]);
        }
        lemma_filter_keeps_valid(ks, txs.drop_first(), v);
        assert(seq![txs.first()] + txs.drop_first() =~= txs);
    }
}

/// A transfer never lowers any balance of an account other than its
/// sender: the recipient's balance in the moved token grows, saturating,
/// and everything else stays.
pub proof fn lemma_transfer_monotone(
    v: StateView,
    tx: Transaction,
    a: Seq<u8>,
    t: crate::types::TokenType,
)
    requires
        a != tx.from_address.0@,
    ensures
        low64_of(balance_in(spec_execute_transfer(v, tx), a, t)) >= low64_of(balance_in(v, a, t)),
{
    let fromk = tx.from_address.0@;
    let tok = tx.amount.token_type;
    let amt = low64_of(tx.amount.amount.0@);
    let fav = account_or_fresh(v.accounts, fromk);
    let a1 = v.accounts.insert(
        fromk,
        crate::state::AccountView {
            balances: fav.balances.insert(
                tok,
                u64_be_bytes(crate::types::sat_sub_nat(low64_of(fav.balances[tok]), amt) as u64),
            ),
            ..fav
        },
    );
    let tokk = tx.to_address.0@;
    let tav = account_or_fresh(a1, tokk);
    let tbal = low64_of(tav.balances[tok]);
    let post = spec_execute_transfer(v, tx);
    if a == tokk {
        if t == tok {
            crate::types::lemma_low64_be_bytes(sat_add_nat(tbal, amt) as u64);
            if !v.accounts.contains_key(a) {
                assert(low64_of(crate::state::zero32()) == 0) by {
                    assert(forall|i: int|
                        0 <= i < 32 ==> #[trigger] crate::state::zero32()[i] == 0u8);
                }
            }
        }
    } else {
        if !v.accounts.contains_key(a) {
            assert(low64_of(crate::state::zero32()) == 0) by {
                assert(forall|i: int| 0 <= i < 32 ==> #[trigger] crate::state::zero32()[i] == 0u8);
            }
        }
    }
}

/// Law: a batch of transfers from pairwise-distinct senders, each of
/// whose start-state balance covers its amount, commits every transfer —
/// none is dropped — and its gas is the running saturating sum of the
/// per-transfer computed costs.
pub proof fn lemma_distinct_senders_all_kept(
    g: GasSchedule,
    v: StateView,
    txs: Seq<Transaction>,
    kept: Seq<Transaction>,
    gas: u64,
)
    requires
        forall|i: int, j: int|
            0 <= i < j < txs.len() ==> (#[trigger] txs[i].from_address.0@) != (
            #[trigger] txs[j].from_address.0@),
        forall|i: int|
            0 <= i < txs.len() ==> low64_of(
                balance_in(v, (#[trigger] txs[i]).from_address.0@, txs[i].amount.token_type),
            ) >= low64_of(txs[i].amount.amount.0@),
    ensures
        spec_execute_batch(g, v, txs, kept, gas).1 == kept + txs,
        spec_execute_batch(g, v, txs, kept, gas).2 == spec_sat_sum_costs(g, txs, gas),
    decreases txs.len(),
{
    if txs.len() == 0 {
        assert(kept + txs =~= kept);
    } else {
        let tx = txs.first();
        assert(low64_of(balance_in(v, tx.from_address.0@, tx.amount.token_type)) >= low64_of(
            tx.amount.amount.0@,
        ));
        let v1 = spec_execute_transfer(v, tx);
        let rest = txs.drop_first();
        assert forall|i: int, j: int|
            0 <= i < j < rest.len() implies (#[trigger] rest[i].from_address.0@) != (
        #[trigger] rest[j].from_address.0@) by {
            assert(rest[i] == txs[i + 1]);
            assert(rest[j] == txs[j + 1]);
        }
        assert forall|i: int|
            0 <= i < rest.len() implies low64_of(
            balance_in(v1, (#[trigger] rest[i]).from_address.0@, rest[i].amount.token_type),
        ) >= low64_of(rest[i].amount.amount.0@) by {
            assert(rest[i] == txs[i + 1]);
            assert(txs[i + 1].from_address.0@ != txs[0].from_address.0@);
            lemma_transfer_monotone(v, tx, rest[i].from_address.0@, rest[i].amount.token_type);
        }
        lemma_distinct_senders_all_kept(
            g,
            v1,
            rest,
            kept.push(tx),
            sat_add_nat(gas as nat, spec_gas_cost(g, tx)) as u64,
        );
        assert(kept.push(tx) + rest =~= kept + txs);
    }
}

/// The running saturating sum of the computed per-transfer costs.
pub open spec fn spec_sat_sum_costs(g: GasSchedule, txs: Seq<Transaction>, acc: u64) -> u64
    decreases txs.len(),
{
    if txs.len() == 0 {
        acc
    } else {
        spec_sat_sum_costs(
            g,
            txs.drop_first(),
            sat_add_nat(acc as nat, spec_gas_cost(g, txs.first())) as u64,
        )
    }
}

/// Law: batch assembly is deterministic. Against two states with the same
/// content, the same ordered transaction list passes the same validators,
/// commits the same transactions with the same total gas, and produces
/// the same state root, byte for byte.
pub proof fn lemma_batch_assembly_deterministic(
    ks: Seq<ValidatorKind>,
    g: GasSchedule,
    v1: StateView,
    v2: StateView,
    txs: Seq<Transaction>,
)
    requires
        v1 == v2,
    ensures
        spec_filter_valid(ks, txs, v1) == spec_filter_valid(ks, txs, v2),
        spec_execute_batch(g, v1, spec_filter_valid(ks, txs, v1), Seq::empty(), 0)
            == spec_execute_batch(g, v2, spec_filter_valid(ks, txs, v2), Seq::empty(), 0),
        canonical_root(
            spec_execute_batch(g, v1, spec_filter_valid(ks, txs, v1), Seq::empty(), 0).0.accounts,
        ) == canonical_root(
            spec_execute_batch(g, v2, spec_filter_valid(ks, txs, v2), Seq::empty(), 0).0.accounts,
        ),
{
}

} // verus!
