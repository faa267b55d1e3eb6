use vstd::prelude::*;

use crate::bytes::{hash_eq, Hash32};
use crate::verify::{has_key, keys_unique, upsert, key_index, PositionedNoteData, Validator};

verus! {

/// How many recent note-commitment roots the anchors window keeps.
pub const NUM_RECENT_ANCHORS: usize = 64;

/// Fixed-point scale of reward and exchange rates: this value stands for 1.0.
pub const RATE_SCALE: u64 = 1_0000_0000;

/// The window of recent anchors after `a` is committed: `a` goes in front,
/// and the oldest entry leaves where the window would exceed its bound.
pub open spec fn next_anchors(w: Seq<Hash32>, a: Hash32) -> Seq<Hash32> {
    let v = seq![a] + w;
    if v.len() > NUM_RECENT_ANCHORS {
        v.drop_last()
    } else {
        v
    }
}

/// Puts `a` in front of the anchors window `w`, keeping it within its bound.
pub fn push_anchor(w: &mut Vec<Hash32>, a: Hash32)
    requires
        old(w)@.len() <= NUM_RECENT_ANCHORS,
    ensures
        final(w)@ == next_anchors(old(w)@, a),
{
    w.insert(0, a);
    if w.len() > NUM_RECENT_ANCHORS {
        w.pop();
    }
    assert(final(w)@ =~= next_anchors(old(w)@, a));
}

/// The anchors window `w` after the roots `roots` are committed in order.
pub open spec fn anchors_after(w: Seq<Hash32>, roots: Seq<Hash32>) -> Seq<Hash32>
    decreases roots.len(),
{
    if roots.len() == 0 {
        w
    } else {
        next_anchors(anchors_after(w, roots.drop_last()), roots.last())
    }
}

/// However many blocks are committed in order, the anchors window stays
/// within its bound and holds the most recently committed root in front.
pub proof fn lemma_anchor_window_bounded(w: Seq<Hash32>, roots: Seq<Hash32>)
    requires
        w.len() <= NUM_RECENT_ANCHORS,
    ensures
        anchors_after(w, roots).len() <= NUM_RECENT_ANCHORS,
        roots.len() > 0 ==> anchors_after(w, roots).len() > 0 && anchors_after(w, roots)[0]
            == roots.last(),
    decreases roots.len(),
{
    if roots.len() > 0 {
        lemma_anchor_window_bounded(w, roots.drop_last());
    }
}

/// The anchors of the most recent blocks of `blocks`, newest first, at most
/// `NUM_RECENT_ANCHORS` of them.
pub open spec fn recent_anchors(blocks: Seq<BlockRow>) -> Seq<Hash32> {
    let n = if blocks.len() < NUM_RECENT_ANCHORS { blocks.len() } else { NUM_RECENT_ANCHORS as nat };
    Seq::new(n, |i: int| blocks[blocks.len() - 1 - i].nct_anchor)
}

/// The height of the last block of `blocks`, or 0 where there is none.
pub open spec fn last_height(blocks: Seq<BlockRow>) -> u64 {
    if blocks.len() == 0 {
        0
    } else {
        blocks.last().height
    }
}

/// Rebuilding the anchors window from the stored blocks gives the window
/// that committing those blocks one after another from an empty one gives.
pub proof fn lemma_recent_anchors_match(blocks: Seq<BlockRow>)
    ensures
        recent_anchors(blocks) == anchors_after(seq![], blocks.map_values(|b: BlockRow| b.nct_anchor)),
    decreases blocks.len(),
{
    let roots = blocks.map_values(|b: BlockRow| b.nct_anchor);
    if blocks.len() > 0 {
        let prev = blocks.drop_last();
        lemma_recent_anchors_match(prev);
        assert(roots.drop_last() =~= prev.map_values(|b: BlockRow| b.nct_anchor));
        assert(recent_anchors(blocks) =~= next_anchors(recent_anchors(prev), blocks.last().nct_anchor));
    } else {
        assert(recent_anchors(blocks) =~= seq![]);
    }
}

/// Whether `x` is a key among the first `upto` entries of `v`.
fn key_in<V>(v: &Vec<(Hash32, V)>, upto: usize, x: &Hash32) -> (r: bool)
    requires
        upto <= v@.len(),
    ensures
        r == has_key(v@.take(upto as int), *x),
{
    let ghost t = v@.take(upto as int);
    let mut i: usize = 0;
    while i < upto
        invariant
            0 <= i <= upto <= v@.len(),
            t == v@.take(upto as int),
            forall|j: int| 0 <= j < i ==> v@[j].0 != *x,
        decreases upto - i,
    {
        if hash_eq(&v[i].0, x) {
            assert(t[i as int].0 == *x);
            return true;
        }
        i = i + 1;
    }
    assert forall|j: int| 0 <= j < t.len() implies t[j].0 != *x by {
        assert(t[j] == v@[j]);
    }
    false
}

/// Sets the value of key `k` in `v`.
fn upsert_entry<V>(v: &mut Vec<(Hash32, V)>, k: Hash32, x: V)
    requires
        keys_unique(old(v)@),
    ensures
        keys_unique(final(v)@),
        final(v)@ == upsert(old(v)@, k, x),
{
    let ghost s = old(v)@;
    let ghost gx = x;
    let n = v.len();
    if key_in(v, n, &k) {
        assert(v@.take(n as int) =~= v@);
        let mut i: usize = 0;
        while i < n
            invariant
                0 <= i <= n == v@.len(),
                v@ == s,
                s == old(v)@,
                gx == x,
                keys_unique(s),
                has_key(s, k),
                forall|j: int| 0 <= j < i ==> s[j].0 != k,
            decreases n - i,
        {
            if hash_eq(&v[i].0, &k) {
                assert(key_index(s, k) == i);
                v.set(i, (k, x));
                assert(v@ == upsert(s, k, gx));
                return;
            }
            i = i + 1;
        }
        assert(false);
    } else {
        assert(v@.take(n as int) =~= v@);
        v.push((k, x));
    }
}

/// Reward and exchange rate of one validator for one epoch.
#[derive(Debug, Clone, Copy)]
pub struct RateData {
    pub identity_key: Hash32,
    pub epoch_index: u64,
    pub validator_reward_rate: u64,
    pub validator_exchange_rate: u64,
}

/// Base reward and exchange rate for one epoch.
#[derive(Debug, Clone, Copy)]
pub struct BaseRateData {
    pub epoch_index: u64,
    pub base_reward_rate: u64,
    pub base_exchange_rate: u64,
}

/// A validator's new voting power.
#[derive(Debug, Clone, Copy)]
pub struct ValidatorStatus {
    pub identity_key: Hash32,
    pub voting_power: u64,
}

/// The state a validator is in.
#[derive(Debug, Clone, Copy, PartialEq, Eq, Structural)]
pub enum ValidatorState {
    Inactive,
    Active,
    Unbonding,
    Slashed,
}

/// The mutable part of a validator's row in the validators table.
#[derive(Debug, Clone, Copy)]
pub struct ValidatorRow {
    pub identity_key: Hash32,
    pub voting_power: u64,
    pub state: ValidatorState,
    pub unbonding_epoch: Option<u64>,
}

/// A genesis validator with its initial voting power.
pub struct ValidatorPower {
    pub validator: Validator,
    pub power: u64,
}

/// Chain parameters, fixed at genesis.
#[derive(Debug, Clone)]
pub struct ChainParams {
    pub chain_id: String,
    pub epoch_duration: u64,
    pub unbonding_epochs: u64,
    pub active_validator_limit: u64,
}

/// The genesis configuration.
pub struct AppState {
    pub chain_params: ChainParams,
    pub validators: Vec<ValidatorPower>,
}

/// A row of the blocks table.
#[derive(Debug, Clone, Copy)]
pub struct BlockRow {
    pub height: u64,
    pub nct_anchor: Hash32,
    pub app_hash: Hash32,
}

/// A stored note: the note with its position, and the height it came in at.
pub struct NoteRecord {
    pub note: PositionedNoteData,
    pub height: u64,
}

/// A row of the delegation changes table.
#[derive(Debug, Clone, Copy)]
pub struct DelegationChangeRow {
    pub identity_key: Hash32,
    pub epoch_index: u64,
    pub delta: i64,
}

/// An entry of the asset registry.
pub struct AssetRecord {
    pub denom: String,
    pub total_supply: u64,
}

/// A block whose transactions have all been verified, ready to commit.
pub struct PendingBlock {
    pub height: u64,
    pub epoch_index: u64,
    /// Root of the note commitment tree after this block.
    pub nct_anchor: Hash32,
    /// The serialized note commitment tree after this block.
    pub nct_bytes: Vec<u8>,
    /// New notes, keyed by note commitment.
    pub notes: Vec<(Hash32, PositionedNoteData)>,
    pub spent_nullifiers: Vec<Hash32>,
    /// Net delegation change per validator identity.
    pub delegation_changes: Vec<(Hash32, i64)>,
    pub next_base_rate: Option<BaseRateData>,
    pub next_rates: Option<Vec<RateData>>,
    pub next_validator_statuses: Option<Vec<ValidatorStatus>>,
    /// New denomination and total supply per asset id.
    pub supply_updates: Vec<(Hash32, AssetRecord)>,
}

/// Why a commit was refused. Nothing of a refused commit is kept.
#[derive(Debug, Clone, Copy, PartialEq, Eq, Structural)]
pub enum CommitError {
    /// The genesis configuration has been committed already.
    GenesisAlreadyCommitted,
    /// A block at this height has been committed already.
    HeightAlreadyCommitted,
    /// A note commitment is stored already, or comes twice in the block.
    DuplicateNote,
    /// A nullifier is spent already, or comes twice in the block.
    NullifierAlreadySpent,
}

/// The latest values published to subscribers.
pub struct Snapshot {
    pub chain_params: Option<ChainParams>,
    pub height: u64,
    pub next_rate_data: Vec<RateData>,
    pub anchors: Vec<Hash32>,
}

/// Persisted chain state and the snapshot published from it.
pub struct WriterView {
    pub genesis_blob: Option<Seq<u8>>,
    pub nct_blob: Option<Seq<u8>>,
    pub blocks: Seq<BlockRow>,
    pub notes: Seq<(Hash32, NoteRecord)>,
    pub nullifiers: Seq<(Hash32, u64)>,
    pub delegation_changes: Seq<DelegationChangeRow>,
    pub assets: Seq<(Hash32, AssetRecord)>,
    pub validators: Seq<ValidatorRow>,
    pub validator_definitions: Seq<ValidatorPower>,
    pub base_rates: Seq<BaseRateData>,
    pub validator_rates: Seq<RateData>,
    pub chain_params: Option<ChainParams>,
    pub height: u64,
    pub next_rate_data: Seq<RateData>,
    pub anchors: Seq<Hash32>,
}

/// The sole writer of the chain state. Holding it by `&mut` for each commit
/// keeps commits serialized; subscribers read the published snapshot.
pub struct Writer {
    genesis_blob: Option<Vec<u8>>,
    nct_blob: Option<Vec<u8>>,
    blocks: Vec<BlockRow>,
    notes: Vec<(Hash32, NoteRecord)>,
    nullifiers: Vec<(Hash32, u64)>,
    delegation_changes: Vec<DelegationChangeRow>,
    assets: Vec<(Hash32, AssetRecord)>,
    validators: Vec<ValidatorRow>,
    validator_definitions: Vec<ValidatorPower>,
    base_rates: Vec<BaseRateData>,
    validator_rates: Vec<RateData>,
    snapshot: Snapshot,
}

pub open spec fn opt_view(o: Option<Vec<u8>>) -> Option<Seq<u8>> {
    match o {
        Some(v) => Some(v@),
        None => None,
    }
}

impl View for Writer {
    type V = WriterView;

    closed spec fn view(&self) -> WriterView {
        WriterView {
            genesis_blob: opt_view(self.genesis_blob),
            nct_blob: opt_view(self.nct_blob),
            blocks: self.blocks@,
            notes: self.notes@,
            nullifiers: self.nullifiers@,
            delegation_changes: self.delegation_changes@,
            assets: self.assets@,
            validators: self.validators@,
            validator_definitions: self.validator_definitions@,
            base_rates: self.base_rates@,
            validator_rates: self.validator_rates@,
            chain_params: self.snapshot.chain_params,
            height: self.snapshot.height,
            next_rate_data: self.snapshot.next_rate_data@,
            anchors: self.snapshot.anchors@,
        }
    }
}

impl WriterView {
    /// The state's own invariant: asset ids are unique and the anchors
    /// window is within its bound.
    pub open spec fn wf(&self) -> bool {
        &&& keys_unique(self.assets)
        &&& self.anchors.len() <= NUM_RECENT_ANCHORS
    }
}

/// The base rate rows genesis writes: reward 0 and exchange rate 1.0 for
/// epochs 0 and 1.
pub open spec fn genesis_base_rates() -> Seq<BaseRateData> {
    seq![
        BaseRateData { epoch_index: 0, base_reward_rate: 0, base_exchange_rate: RATE_SCALE },
        BaseRateData { epoch_index: 1, base_reward_rate: 0, base_exchange_rate: RATE_SCALE },
    ]
}

/// The rate of validator `id` at epoch `e` that genesis writes.
pub open spec fn genesis_rate(id: Hash32, e: u64) -> RateData {
    RateData {
        identity_key: id,
        epoch_index: e,
        validator_reward_rate: 0,
        validator_exchange_rate: RATE_SCALE,
    }
}

/// The validator rate rows genesis writes: those of epochs 0 and 1 for each
/// validator, in order.
pub open spec fn genesis_validator_rates(vs: Seq<ValidatorPower>) -> Seq<RateData>
    decreases vs.len(),
{
    if vs.len() == 0 {
        seq![]
    } else {
        let id = vs.last().validator.identity_key;
        genesis_validator_rates(vs.drop_last()) + seq![genesis_rate(id, 0), genesis_rate(id, 1)]
    }
}

/// The next-epoch rate data genesis publishes: epoch 1 for each validator.
pub open spec fn genesis_next_rates(vs: Seq<ValidatorPower>) -> Seq<RateData> {
    vs.map_values(|vp: ValidatorPower| genesis_rate(vp.validator.identity_key, 1))
}

/// The validator rows genesis writes: each validator active, at its power.
pub open spec fn genesis_validator_rows(vs: Seq<ValidatorPower>) -> Seq<ValidatorRow> {
    vs.map_values(
        |vp: ValidatorPower|
            ValidatorRow {
                identity_key: vp.validator.identity_key,
                voting_power: vp.power,
                state: ValidatorState::Active,
                unbonding_epoch: None,
            },
    )
}

/// Whether some block row is at height `h`.
pub open spec fn height_taken(blocks: Seq<BlockRow>, h: u64) -> bool {
    exists|i: int| 0 <= i < blocks.len() && blocks[i].height == h
}

/// Some key of `new` is a key of `table`, or comes twice in `new`.
pub open spec fn keys_conflict<V, W>(new: Seq<(Hash32, V)>, table: Seq<(Hash32, W)>) -> bool {
    exists|i: int|
        0 <= i < new.len() && (has_key(table, #[trigger] new[i].0) || has_key(new.take(i), new[i].0))
}

/// Some nullifier of `new` is a key of `table`, or comes twice in `new`.
pub open spec fn nullifiers_conflict(new: Seq<Hash32>, table: Seq<(Hash32, u64)>) -> bool {
    exists|i: int|
        0 <= i < new.len() && (has_key(table, #[trigger] new[i]) || new.take(i).contains(new[i]))
}

/// The constraint that committing `b` onto `v` breaks first, if any.
pub open spec fn block_error(v: WriterView, b: PendingBlock) -> Option<CommitError> {
    if height_taken(v.blocks, b.height) {
        Some(CommitError::HeightAlreadyCommitted)
    } else if keys_conflict(b.notes@, v.notes) {
        Some(CommitError::DuplicateNote)
    } else if nullifiers_conflict(b.spent_nullifiers@, v.nullifiers) {
        Some(CommitError::NullifierAlreadySpent)
    } else {
        None
    }
}

/// The notes table rows of the notes `new` at height `h`.
pub open spec fn note_rows(new: Seq<(Hash32, PositionedNoteData)>, h: u64) -> Seq<(Hash32, NoteRecord)> {
    new.map_values(|p: (Hash32, PositionedNoteData)| (p.0, NoteRecord { note: p.1, height: h }))
}

/// The nullifiers table rows of the nullifiers `new` spent at height `h`.
pub open spec fn nullifier_rows(new: Seq<Hash32>, h: u64) -> Seq<(Hash32, u64)> {
    new.map_values(|n: Hash32| (n, h))
}

/// The delegation changes table rows of the changes `new` in epoch `e`.
pub open spec fn delegation_rows(new: Seq<(Hash32, i64)>, e: u64) -> Seq<DelegationChangeRow> {
    new.map_values(|p: (Hash32, i64)| DelegationChangeRow { identity_key: p.0, epoch_index: e, delta: p.1 })
}

/// `s` after setting each of `ups` in order.
pub open spec fn upsert_all<V>(s: Seq<(Hash32, V)>, ups: Seq<(Hash32, V)>) -> Seq<(Hash32, V)>
    decreases ups.len(),
{
    if ups.len() == 0 {
        s
    } else {
        upsert(upsert_all(s, ups.drop_last()), ups.last().0, ups.last().1)
    }
}

/// `rows` with the voting power of every row of the status's validator set to it.
pub open spec fn set_power(rows: Seq<ValidatorRow>, st: ValidatorStatus) -> Seq<ValidatorRow> {
    Seq::new(
        rows.len(),
        |i: int|
            if rows[i].identity_key == st.identity_key {
                ValidatorRow { voting_power: st.voting_power, ..rows[i] }
            } else {
                rows[i]
            },
    )
}

/// `rows` after each of `sts` in order.
pub open spec fn apply_statuses(rows: Seq<ValidatorRow>, sts: Seq<ValidatorStatus>) -> Seq<ValidatorRow>
    decreases sts.len(),
{
    if sts.len() == 0 {
        rows
    } else {
        set_power(apply_statuses(rows, sts.drop_last()), sts.last())
    }
}

/// Whether `x` is among the first `upto` entries of `v`.
fn hash_in_prefix(v: &Vec<Hash32>, upto: usize, x: &Hash32) -> (r: bool)
    requires
        upto <= v@.len(),
    ensures
        r == v@.take(upto as int).contains(*x),
{
    let ghost t = v@.take(upto as int);
    let mut i: usize = 0;
    while i < upto
        invariant
            0 <= i <= upto <= v@.len(),
            t == v@.take(upto as int),
            forall|j: int| 0 <= j < i ==> v@[j] != *x,
        decreases upto - i,
    {
        if hash_eq(&v[i], x) {
            assert(t[i as int] == *x);
            return true;
        }
        i = i + 1;
    }
    assert forall|j: int| 0 <= j < t.len() implies t[j] != *x by {
        assert(t[j] == v@[j]);
    }
    false
}

fn height_in(blocks: &Vec<BlockRow>, h: u64) -> (r: bool)
    ensures
        r == height_taken(blocks@, h),
{
    let mut i: usize = 0;
    while i < blocks.len()
        invariant
            0 <= i <= blocks@.len(),
            forall|j: int| 0 <= j < i ==> blocks@[j].height != h,
        decreases blocks@.len() - i,
    {
        if blocks[i].height == h {
            return true;
        }
        i = i + 1;
    }
    false
}

fn find_keys_conflict<V, W>(new: &Vec<(Hash32, V)>, table: &Vec<(Hash32, W)>) -> (r: bool)
    ensures
        r == keys_conflict(new@, table@),
{
    let mut i: usize = 0;
    while i < new.len()
        invariant
            0 <= i <= new@.len(),
            forall|j: int|
                0 <= j < i ==> !(has_key(table@, #[trigger] new@[j].0) || has_key(new@.take(j), new@[j].0)),
        decreases new@.len() - i,
    {
        let n = table.len();
        let in_table = key_in(table, n, &new[i].0);
        assert(table@.take(n as int) =~= table@);
        if in_table || key_in(new, i, &new[i].0) {
            return true;
        }
        i = i + 1;
    }
    false
}

fn find_nullifiers_conflict(new: &Vec<Hash32>, table: &Vec<(Hash32, u64)>) -> (r: bool)
    ensures
        r == nullifiers_conflict(new@, table@),
{
    let mut i: usize = 0;
    while i < new.len()
        invariant
            0 <= i <= new@.len(),
            forall|j: int|
                0 <= j < i ==> !(has_key(table@, #[trigger] new@[j]) || new@.take(j).contains(new@[j])),
        decreases new@.len() - i,
    {
        let n = table.len();
        let in_table = key_in(table, n, &new[i]);
        assert(table@.take(n as int) =~= table@);
        if in_table || hash_in_prefix(new, i, &new[i]) {
            return true;
        }
        i = i + 1;
    }
    false
}

fn append_notes(table: &mut Vec<(Hash32, NoteRecord)>, new: Vec<(Hash32, PositionedNoteData)>, h: u64)
    ensures
        final(table)@ == old(table)@ + note_rows(new@, h),
{
    let ghost all = new@;
    let total = new.len();
    let mut rest = new;
    let mut k: usize = 0;
    while rest.len() > 0
        invariant
            0 <= k <= all.len(),
            all.len() == total,
            rest@ == all.skip(k as int),
            table@ == old(table)@ + note_rows(all.take(k as int), h),
        decreases rest@.len(),
    {
        assert(k < all.len());
        let (c, pn) = rest.remove(0);
        table.push((c, NoteRecord { note: pn, height: h }));
        proof {
            assert(all.take(k + 1) =~= all.take(k as int).push(all[k as int]));
            assert(note_rows(all.take(k + 1), h) =~= note_rows(all.take(k as int), h).push(
                note_rows(all.take(k + 1), h).last(),
            ));
            assert(rest@ =~= all.skip(k + 1));
        }
        k = k + 1;
    }
    assert(all.take(k as int) =~= all);
}

fn append_nullifiers(table: &mut Vec<(Hash32, u64)>, new: &Vec<Hash32>, h: u64)
    ensures
        final(table)@ == old(table)@ + nullifier_rows(new@, h),
{
    let mut i: usize = 0;
    while i < new.len()
        invariant
            0 <= i <= new@.len(),
            table@ == old(table)@ + nullifier_rows(new@.take(i as int), h),
        decreases new@.len() - i,
    {
        table.push((new[i], h));
        proof {
            assert(new@.take(i + 1) =~= new@.take(i as int).push(new@[i as int]));
            assert(nullifier_rows(new@.take(i + 1), h) =~= nullifier_rows(new@.take(i as int), h).push(
                (new@[i as int], h),
            ));
        }
        i = i + 1;
    }
    assert(new@.take(i as int) =~= new@);
}

fn append_delegation_changes(table: &mut Vec<DelegationChangeRow>, new: &Vec<(Hash32, i64)>, e: u64)
    ensures
        final(table)@ == old(table)@ + delegation_rows(new@, e),
{
    let mut i: usize = 0;
    while i < new.len()
        invariant
            0 <= i <= new@.len(),
            table@ == old(table)@ + delegation_rows(new@.take(i as int), e),
        decreases new@.len() - i,
    {
        table.push(DelegationChangeRow { identity_key: new[i].0, epoch_index: e, delta: new[i].1 });
        proof {
            assert(new@.take(i + 1) =~= new@.take(i as int).push(new@[i as int]));
            assert(delegation_rows(new@.take(i + 1), e) =~= delegation_rows(new@.take(i as int), e).push(
                delegation_rows(new@.take(i + 1), e).last(),
            ));
        }
        i = i + 1;
    }
    assert(new@.take(i as int) =~= new@);
}

fn upsert_assets(table: &mut Vec<(Hash32, AssetRecord)>, ups: Vec<(Hash32, AssetRecord)>)
    requires
        keys_unique(old(table)@),
    ensures
        keys_unique(final(table)@),
        final(table)@ == upsert_all(old(table)@, ups@),
{
    let ghost all = ups@;
    let total = ups.len();
    let mut rest = ups;
    let mut k: usize = 0;
    while rest.len() > 0
        invariant
            0 <= k <= all.len(),
            all.len() == total,
            rest@ == all.skip(k as int),
            keys_unique(table@),
            table@ == upsert_all(old(table)@, all.take(k as int)),
        decreases rest@.len(),
    {
        assert(k < all.len());
        let (id, rec) = rest.remove(0);
        upsert_entry(table, id, rec);
        proof {
            assert(all.take(k + 1).drop_last() =~= all.take(k as int));
            assert(rest@ =~= all.skip(k + 1));
        }
        k = k + 1;
    }
    assert(all.take(k as int) =~= all);
}

fn append_rates(table: &mut Vec<RateData>, new: &Vec<RateData>)
    ensures
        final(table)@ == old(table)@ + new@,
{
    let mut i: usize = 0;
    while i < new.len()
        invariant
            0 <= i <= new@.len(),
            table@ == old(table)@ + new@.take(i as int),
        decreases new@.len() - i,
    {
        table.push(new[i]);
        assert(new@.take(i + 1) =~= new@.take(i as int).push(new@[i as int]));
        i = i + 1;
    }
    assert(new@.take(i as int) =~= new@);
}

fn apply_status(rows: &mut Vec<ValidatorRow>, st: ValidatorStatus)
    ensures
        final(rows)@ == set_power(old(rows)@, st),
{
    let mut i: usize = 0;
    while i < rows.len()
        invariant
            0 <= i <= rows@.len() == old(rows)@.len(),
            forall|j: int| 0 <= j < i ==> rows@[j] == set_power(old(rows)@, st)[j],
            forall|j: int| i <= j < rows@.len() ==> rows@[j] == old(rows)@[j],
        decreases rows@.len() - i,
    {
        if hash_eq(&rows[i].identity_key, &st.identity_key) {
            let mut r = rows[i];
            r.voting_power = st.voting_power;
            rows.set(i, r);
        }
        i = i + 1;
    }
    assert(rows@ =~= set_power(old(rows)@, st));
}

fn apply_all_statuses(rows: &mut Vec<ValidatorRow>, sts: &Vec<ValidatorStatus>)
    ensures
        final(rows)@ == apply_statuses(old(rows)@, sts@),
{
    let mut i: usize = 0;
    while i < sts.len()
        invariant
            0 <= i <= sts@.len(),
            rows@ == apply_statuses(old(rows)@, sts@.take(i as int)),
        decreases sts@.len() - i,
    {
        apply_status(rows, sts[i]);
        assert(sts@.take(i + 1).drop_last() =~= sts@.take(i as int));
        i = i + 1;
    }
    assert(sts@.take(i as int) =~= sts@);
}

/// The chain state after block `b`, with app hash `app_hash`, is committed onto `o`.
pub open spec fn block_committed(o: WriterView, b: PendingBlock, app_hash: Hash32) -> WriterView {
    let (base_rates, validator_rates) = match (b.next_base_rate, b.next_rates) {
        (Some(base), Some(rates)) => (o.base_rates.push(base), o.validator_rates + rates@),
        _ => (o.base_rates, o.validator_rates),
    };
    WriterView {
        nct_blob: Some(b.nct_bytes@),
        blocks: o.blocks.push(BlockRow { height: b.height, nct_anchor: b.nct_anchor, app_hash }),
        notes: o.notes + note_rows(b.notes@, b.height),
        nullifiers: o.nullifiers + nullifier_rows(b.spent_nullifiers@, b.height),
        delegation_changes: o.delegation_changes + delegation_rows(b.delegation_changes@, b.epoch_index),
        assets: upsert_all(o.assets, b.supply_updates@),
        validators: match b.next_validator_statuses {
            Some(sts) => apply_statuses(o.validators, sts@),
            None => o.validators,
        },
        base_rates,
        validator_rates,
        height: b.height,
        next_rate_data: match b.next_rates {
            Some(rates) => rates@,
            None => o.next_rate_data,
        },
        anchors: next_anchors(o.anchors, b.nct_anchor),
        ..o
    }
}

impl Writer {
    /// A writer over an empty chain state.
    pub fn new() -> (r: Writer)
        ensures
            r@.wf(),
            r@.genesis_blob is None,
            r@.nct_blob is None,
            r@.blocks.len() == 0,
            r@.notes.len() == 0,
            r@.nullifiers.len() == 0,
            r@.delegation_changes.len() == 0,
            r@.assets.len() == 0,
            r@.validators.len() == 0,
            r@.validator_definitions.len() == 0,
            r@.base_rates.len() == 0,
            r@.validator_rates.len() == 0,
            r@.chain_params is None,
            r@.height == 0,
            r@.next_rate_data.len() == 0,
            r@.anchors.len() == 0,
    {
        Writer {
            genesis_blob: None,
            nct_blob: None,
            blocks: Vec::new(),
            notes: Vec::new(),
            nullifiers: Vec::new(),
            delegation_changes: Vec::new(),
            assets: Vec::new(),
            validators: Vec::new(),
            validator_definitions: Vec::new(),
            base_rates: Vec::new(),
            validator_rates: Vec::new(),
            snapshot: Snapshot {
                chain_params: None,
                height: 0,
                next_rate_data: Vec::new(),
                anchors: Vec::new(),
            },
        }
    }

    /// Commits the genesis configuration, whose serialized form is
    /// `genesis_bytes`, before the first block. It succeeds once per chain:
    /// a second call is refused and changes nothing.
    pub fn commit_genesis(&mut self, genesis: AppState, genesis_bytes: Vec<u8>) -> (r: Result<
        (),
        CommitError,
    >)
        requires
            old(self)@.wf(),
        ensures
            final(self)@.wf(),
            old(self)@.genesis_blob is Some ==> r == Err::<(), CommitError>(
                CommitError::GenesisAlreadyCommitted,
            ) && final(self)@ == old(self)@,
            old(self)@.genesis_blob is None ==> {
                let o = old(self)@;
                let n = final(self)@;
                let vs = genesis.validators@;
                &&& r is Ok
                &&& n.genesis_blob == Some(genesis_bytes@)
                &&& n.base_rates == o.base_rates + genesis_base_rates()
                &&& n.validators == o.validators + genesis_validator_rows(vs)
                &&& n.validator_definitions == o.validator_definitions + vs
                &&& n.validator_rates == o.validator_rates + genesis_validator_rates(vs)
                &&& n.chain_params == Some(genesis.chain_params)
                &&& n.next_rate_data == genesis_next_rates(vs)
                &&& n.nct_blob == o.nct_blob
                &&& n.blocks == o.blocks
                &&& n.notes == o.notes
                &&& n.nullifiers == o.nullifiers
                &&& n.delegation_changes == o.delegation_changes
                &&& n.assets == o.assets
                &&& n.height == o.height
                &&& n.anchors == o.anchors
            },
    {
        if self.genesis_blob.is_some() {
            return Err(CommitError::GenesisAlreadyCommitted);
        }
        let AppState { chain_params, validators: mut vs } = genesis;
        let ghost gvs = vs@;
        let mut next_rate_data: Vec<RateData> = Vec::new();
        let ghost rows0 = self.validators@;
        let ghost rates0 = self.validator_rates@;
        let mut i: usize = 0;
        while i < vs.len()
            invariant
                0 <= i <= vs@.len(),
                vs@ == gvs,
                self.validators@ == rows0 + genesis_validator_rows(gvs.take(i as int)),
                self.validator_rates@ == rates0 + genesis_validator_rates(gvs.take(i as int)),
                next_rate_data@ == genesis_next_rates(gvs.take(i as int)),
                rows0 == old(self)@.validators,
                rates0 == old(self)@.validator_rates,
                self.genesis_blob == old(self).genesis_blob,
                self.nct_blob == old(self).nct_blob,
                self.blocks == old(self).blocks,
                self.notes == old(self).notes,
                self.nullifiers == old(self).nullifiers,
                self.delegation_changes == old(self).delegation_changes,
                self.assets == old(self).assets,
                self.validator_definitions == old(self).validator_definitions,
                self.base_rates == old(self).base_rates,
                self.snapshot == old(self).snapshot,
            decreases vs@.len() - i,
        {
            let id = vs[i].validator.identity_key;
            let power = vs[i].power;
            self.validators.push(
                ValidatorRow {
                    identity_key: id,
                    voting_power: power,
                    state: ValidatorState::Active,
                    unbonding_epoch: None,
                },
            );
            self.validator_rates.push(
                RateData { identity_key: id, epoch_index: 0, validator_reward_rate: 0, validator_exchange_rate: RATE_SCALE },
            );
            self.validator_rates.push(
                RateData { identity_key: id, epoch_index: 1, validator_reward_rate: 0, validator_exchange_rate: RATE_SCALE },
            );
            next_rate_data.push(
                RateData { identity_key: id, epoch_index: 1, validator_reward_rate: 0, validator_exchange_rate: RATE_SCALE },
            );
            proof {
                let t = gvs.take(i as int);
                let t1 = gvs.take(i + 1);
                assert(t1.drop_last() =~= t);
                assert(genesis_validator_rows(t1) =~= genesis_validator_rows(t).push(
                    genesis_validator_rows(t1).last(),
                ));
                assert(genesis_next_rates(t1) =~= genesis_next_rates(t).push(genesis_next_rates(t1).last()));
            }
            i = i + 1;
        }
        assert(gvs.take(gvs.len() as int) =~= gvs);
        self.base_rates.push(BaseRateData { epoch_index: 0, base_reward_rate: 0, base_exchange_rate: RATE_SCALE });
        self.base_rates.push(BaseRateData { epoch_index: 1, base_reward_rate: 0, base_exchange_rate: RATE_SCALE });
        self.validator_definitions.append(&mut vs);
        self.genesis_blob = Some(genesis_bytes);
        self.snapshot.chain_params = Some(chain_params);
        self.snapshot.next_rate_data = next_rate_data;
        proof {
            assert(self@.base_rates =~= old(self)@.base_rates + genesis_base_rates());
            assert(self@.validator_definitions =~= old(self)@.validator_definitions + gvs);
        }
        Ok(())
    }

    /// Commits block `b`, whose authenticated-store root is `app_hash`, and
    /// returns the app hash. All or nothing: where a uniqueness constraint
    /// fails, nothing is written and nothing is published.
    pub fn commit_block(&mut self, b: PendingBlock, app_hash: Hash32) -> (r: Result<Vec<u8>, CommitError>)
        requires
            old(self)@.wf(),
        ensures
            final(self)@.wf(),
            block_error(old(self)@, b) is Some ==> r == Err::<Vec<u8>, CommitError>(
                block_error(old(self)@, b)->Some_0,
            ) && final(self)@ == old(self)@,
            block_error(old(self)@, b) is None ==> r is Ok && r->Ok_0@ == app_hash@
                && final(self)@ == block_committed(old(self)@, b, app_hash),
    {
        if height_in(&self.blocks, b.height) {
            return Err(CommitError::HeightAlreadyCommitted);
        }
        if find_keys_conflict(&b.notes, &self.notes) {
            return Err(CommitError::DuplicateNote);
        }
        if find_nullifiers_conflict(&b.spent_nullifiers, &self.nullifiers) {
            return Err(CommitError::NullifierAlreadySpent);
        }
        let ghost gb = b;
        let PendingBlock {
            height,
            epoch_index,
            nct_anchor,
            nct_bytes,
            notes,
            spent_nullifiers,
            delegation_changes,
            next_base_rate,
            next_rates,
            next_validator_statuses,
            supply_updates,
        } = b;
        self.nct_blob = Some(nct_bytes);
        self.blocks.push(BlockRow { height, nct_anchor, app_hash });
        append_notes(&mut self.notes, notes, height);
        append_nullifiers(&mut self.nullifiers, &spent_nullifiers, height);
        append_delegation_changes(&mut self.delegation_changes, &delegation_changes, epoch_index);
        upsert_assets(&mut self.assets, supply_updates);
        match (next_base_rate, &next_rates) {
            (Some(base), Some(rates)) => {
                self.base_rates.push(base);
                append_rates(&mut self.validator_rates, rates);
            },
            _ => {},
        }
        match &next_validator_statuses {
            Some(sts) => {
                apply_all_statuses(&mut self.validators, sts);
            },
            None => {},
        }
        push_anchor(&mut self.snapshot.anchors, nct_anchor);
        self.snapshot.height = height;
        match next_rates {
            Some(rates) => {
                self.snapshot.next_rate_data = rates;
            },
            None => {},
        }
        let mut out: Vec<u8> = Vec::new();
        let mut i: usize = 0;
        while i < 32
            invariant
                0 <= i <= 32,
                out@ == app_hash@.take(i as int),
            decreases 32 - i,
        {
            out.push(app_hash[i]);
            assert(app_hash@.take(i + 1) =~= app_hash@.take(i as int).push(app_hash@[i as int]));
            i = i + 1;
        }
        assert(app_hash@.take(32) =~= app_hash@);
        proof {
            assert(self@ == block_committed(old(self)@, gb, app_hash));
        }
        Ok(out)
    }

    /// The snapshot of chain state that this writer publishes.
    pub fn private_reader(&self) -> (r: &Snapshot)
        ensures
            r.chain_params == self@.chain_params,
            r.height == self@.height,
            r.next_rate_data@ == self@.next_rate_data,
            r.anchors@ == self@.anchors,
    {
        &self.snapshot
    }

    pub fn genesis_blob(&self) -> (r: &Option<Vec<u8>>)
        ensures
            opt_view(*r) == self@.genesis_blob,
    {
        &self.genesis_blob
    }

    pub fn nct_blob(&self) -> (r: &Option<Vec<u8>>)
        ensures
            opt_view(*r) == self@.nct_blob,
    {
        &self.nct_blob
    }

    pub fn blocks(&self) -> (r: &Vec<BlockRow>)
        ensures
            r@ == self@.blocks,
    {
        &self.blocks
    }

    pub fn notes(&self) -> (r: &Vec<(Hash32, NoteRecord)>)
        ensures
            r@ == self@.notes,
    {
        &self.notes
    }

    pub fn nullifiers(&self) -> (r: &Vec<(Hash32, u64)>)
        ensures
            r@ == self@.nullifiers,
    {
        &self.nullifiers
    }

    pub fn delegation_changes(&self) -> (r: &Vec<DelegationChangeRow>)
        ensures
            r@ == self@.delegation_changes,
    {
        &self.delegation_changes
    }

    pub fn assets(&self) -> (r: &Vec<(Hash32, AssetRecord)>)
        ensures
            r@ == self@.assets,
    {
        &self.assets
    }

    pub fn validators(&self) -> (r: &Vec<ValidatorRow>)
        ensures
            r@ == self@.validators,
    {
        &self.validators
    }

    pub fn validator_definitions(&self) -> (r: &Vec<ValidatorPower>)
        ensures
            r@ == self@.validator_definitions,
    {
        &self.validator_definitions
    }

    pub fn base_rates(&self) -> (r: &Vec<BaseRateData>)
        ensures
            r@ == self@.base_rates,
    {
        &self.base_rates
    }

    pub fn validator_rates(&self) -> (r: &Vec<RateData>)
        ensures
            r@ == self@.validator_rates,
    {
        &self.validator_rates
    }

    /// Fills the published snapshot from the stored state: the height of the
    /// last block, the anchors of the most recent blocks, and the chain
    /// parameters and next-epoch rates read from storage.
    pub fn init_caches(&mut self, chain_params: Option<ChainParams>, next_rate_data: Vec<RateData>)
        requires
            old(self)@.wf(),
        ensures
            final(self)@.wf(),
            final(self)@ == (WriterView {
                chain_params,
                height: last_height(old(self)@.blocks),
                next_rate_data: next_rate_data@,
                anchors: recent_anchors(old(self)@.blocks),
                ..old(self)@
            }),
    {
        let n = self.blocks.len();
        let count = if n < NUM_RECENT_ANCHORS { n } else { NUM_RECENT_ANCHORS };
        let mut anchors: Vec<Hash32> = Vec::new();
        let mut i: usize = 0;
        while i < count
            invariant
                0 <= i <= count <= n,
                n == self.blocks@.len(),
                count <= NUM_RECENT_ANCHORS,
                anchors@ =~= recent_anchors(self.blocks@).take(i as int),
                recent_anchors(self.blocks@).len() == count,
            decreases count - i,
        {
            anchors.push(self.blocks[n - 1 - i].nct_anchor);
            assert(recent_anchors(self.blocks@).take(i + 1) =~= recent_anchors(self.blocks@).take(
                i as int,
            ).push(recent_anchors(self.blocks@)[i as int]));
            i = i + 1;
        }
        assert(recent_anchors(self.blocks@).take(count as int) =~= recent_anchors(self.blocks@));
        let height = if n == 0 { 0 } else { self.blocks[n - 1].height };
        self.snapshot.chain_params = chain_params;
        self.snapshot.height = height;
        self.snapshot.next_rate_data = next_rate_data;
        self.snapshot.anchors = anchors;
    }
}

} // verus!
