use vstd::prelude::*;

use crate::bytes::{contains_hash, hash_eq, Hash32};

verus! {

/// Ciphertext and provenance of one shielded output.
pub struct NoteData {
    pub ephemeral_key: Hash32,
    pub encrypted_note: Vec<u8>,
    pub transaction_id: Hash32,
}

/// The mathematical content of a `NoteData`.
pub struct NoteDataView {
    pub ephemeral_key: Hash32,
    pub encrypted_note: Seq<u8>,
    pub transaction_id: Hash32,
}

impl View for NoteData {
    type V = NoteDataView;

    open spec fn view(&self) -> NoteDataView {
        NoteDataView {
            ephemeral_key: self.ephemeral_key,
            encrypted_note: self.encrypted_note@,
            transaction_id: self.transaction_id,
        }
    }
}

/// A note together with its position in the global note-commitment order.
pub struct PositionedNoteData {
    pub position: u64,
    pub data: NoteData,
}

/// A delegation of stake to a validator.
#[derive(Debug, Clone, Copy)]
pub struct Delegate {
    pub validator_identity: Hash32,
    pub epoch_index: u64,
    pub unbonded_amount: u64,
    pub delegation_amount: u64,
}

/// An undelegation of stake from a validator.
#[derive(Debug, Clone, Copy)]
pub struct Undelegate {
    pub validator_identity: Hash32,
    pub epoch_index: u64,
    pub unbonded_amount: u64,
    pub delegation_amount: u64,
}

/// A destination for part of a validator's rewards.
pub struct FundingStream {
    pub address: String,
    pub rate_bps: u16,
}

/// A validator definition.
pub struct Validator {
    pub identity_key: Hash32,
    pub consensus_key: Vec<u8>,
    pub sequence_number: u32,
    pub name: String,
    pub website: String,
    pub description: String,
    pub funding_streams: Vec<FundingStream>,
}

/// A shielded output action.
pub struct Output {
    pub value_commitment: Hash32,
    pub note_commitment: Hash32,
    pub ephemeral_key: Hash32,
    pub encrypted_note: Vec<u8>,
}

/// A shielded spend action.
pub struct Spend {
    pub value_commitment: Hash32,
    pub nullifier: Hash32,
    pub rk: Hash32,
}

/// One action of a transaction body.
pub enum Action {
    Output(Output),
    Spend(Spend),
    Delegate(Delegate),
    Undelegate(Undelegate),
    /// Any action kind that stateless verification does not accept.
    Other,
}

/// A transaction: its identifier, the note-commitment root its spends prove
/// against, and its actions in declaration order.
pub struct Transaction {
    pub id: Hash32,
    pub merkle_root: Hash32,
    pub actions: Vec<Action>,
}

/// The outcome of the cryptographic checks of one action: the spend
/// authorization signature (spends only) and the action's proof.
#[derive(Debug, Clone, Copy, PartialEq, Eq, Structural)]
pub struct ActionCheck {
    pub auth_ok: bool,
    pub proof_ok: bool,
}

/// The outcomes of the cryptographic checks of a transaction: the binding
/// signature over the transaction's signing digest, and one entry per action,
/// in the order of the actions. An action without an entry counts as failed.
pub struct CryptoChecks {
    pub binding_ok: bool,
    pub actions: Vec<ActionCheck>,
}

impl CryptoChecks {
    pub open spec fn auth_ok_at(&self, i: int) -> bool {
        0 <= i < self.actions@.len() && self.actions@[i].auth_ok
    }

    pub open spec fn proof_ok_at(&self, i: int) -> bool {
        0 <= i < self.actions@.len() && self.actions@[i].proof_ok
    }

    fn auth_ok(&self, i: usize) -> (r: bool)
        ensures
            r == self.auth_ok_at(i as int),
    {
        i < self.actions.len() && self.actions[i].auth_ok
    }

    fn proof_ok(&self, i: usize) -> (r: bool)
        ensures
            r == self.proof_ok_at(i as int),
    {
        i < self.actions.len() && self.actions[i].proof_ok
    }
}

/// The kind of proof that failed.
#[derive(Debug, Clone, Copy, PartialEq, Eq, Structural)]
pub enum ProofKind {
    Output,
    Spend,
}

/// Why a transaction failed stateless verification.
#[derive(Debug, Clone, Copy, PartialEq, Eq, Structural)]
pub enum VerificationError {
    BindingSignatureInvalid,
    SpendAuthInvalid,
    ProofInvalid(ProofKind),
    DoubleSpendWithinTransaction,
    UnsupportedAction,
}

/// Data of a transaction after the stateless checks have passed.
pub struct PendingTransaction {
    /// Transaction identifier.
    pub id: Hash32,
    /// Root of the note commitment tree the spends prove against.
    pub root: Hash32,
    /// Notes created by the outputs, keyed by note commitment; no key twice.
    pub new_notes: Vec<(Hash32, NoteData)>,
    /// Nullifiers revealed by the spends, in order; no nullifier twice.
    pub spent_nullifiers: Vec<Hash32>,
    pub delegations: Vec<Delegate>,
    pub undelegations: Vec<Undelegate>,
    pub validators: Vec<Validator>,
}

/// Data of a transaction after all checks have passed: delegations and
/// undelegations are collapsed into a net change per validator identity.
pub struct VerifiedTransaction {
    pub id: Hash32,
    pub new_notes: Vec<(Hash32, NoteData)>,
    pub spent_nullifiers: Vec<Hash32>,
    pub delegation_changes: Vec<(Hash32, i64)>,
}

/// What the action scan has gathered so far.
pub struct ScanState {
    pub notes: Seq<(Hash32, NoteDataView)>,
    pub nullifiers: Seq<Hash32>,
    pub delegations: Seq<Delegate>,
    pub undelegations: Seq<Undelegate>,
}

/// The mathematical content of a `PendingTransaction`.
pub struct PendingView {
    pub id: Hash32,
    pub root: Hash32,
    pub notes: Seq<(Hash32, NoteDataView)>,
    pub nullifiers: Seq<Hash32>,
    pub delegations: Seq<Delegate>,
    pub undelegations: Seq<Undelegate>,
    pub n_validators: nat,
}

impl View for PendingTransaction {
    type V = PendingView;

    open spec fn view(&self) -> PendingView {
        PendingView {
            id: self.id,
            root: self.root,
            notes: notes_view(self.new_notes@),
            nullifiers: self.spent_nullifiers@,
            delegations: self.delegations@,
            undelegations: self.undelegations@,
            n_validators: self.validators@.len(),
        }
    }
}

pub open spec fn notes_view(s: Seq<(Hash32, NoteData)>) -> Seq<(Hash32, NoteDataView)> {
    s.map_values(|p: (Hash32, NoteData)| (p.0, p.1@))
}

/// No key occurs twice.
pub open spec fn keys_unique<V>(s: Seq<(Hash32, V)>) -> bool {
    forall|i: int, j: int| 0 <= i < s.len() && 0 <= j < s.len() && i != j ==> s[i].0 != s[j].0
}

/// Whether `k` is a key of `s`.
pub open spec fn has_key<V>(s: Seq<(Hash32, V)>, k: Hash32) -> bool {
    exists|i: int| 0 <= i < s.len() && s[i].0 == k
}

/// A position of key `k` in `s`, where it is a key.
pub open spec fn key_index<V>(s: Seq<(Hash32, V)>, k: Hash32) -> int {
    choose|i: int| 0 <= i < s.len() && s[i].0 == k
}

/// Sets the value of `k`: in place where `k` is a key already, else at the end.
pub open spec fn upsert<V>(s: Seq<(Hash32, V)>, k: Hash32, v: V) -> Seq<(Hash32, V)> {
    if has_key(s, k) {
        s.update(key_index(s, k), (k, v))
    } else {
        s.push((k, v))
    }
}

/// The effect of one action on the scan, or the error it raises.
pub open spec fn scan_step(
    s: ScanState,
    a: Action,
    checks: CryptoChecks,
    i: int,
    id: Hash32,
) -> Result<ScanState, VerificationError> {
    match a {
        Action::Output(o) => {
            if !checks.proof_ok_at(i) {
                Err(VerificationError::ProofInvalid(ProofKind::Output))
            } else {
                Ok(ScanState {
                    notes: upsert(
                        s.notes,
                        o.note_commitment,
                        NoteDataView {
                            ephemeral_key: o.ephemeral_key,
                            encrypted_note: o.encrypted_note@,
                            transaction_id: id,
                        },
                    ),
                    ..s
                })
            }
        },
        Action::Spend(sp) => {
            if !checks.auth_ok_at(i) {
                Err(VerificationError::SpendAuthInvalid)
            } else if !checks.proof_ok_at(i) {
                Err(VerificationError::ProofInvalid(ProofKind::Spend))
            } else if s.nullifiers.contains(sp.nullifier) {
                Err(VerificationError::DoubleSpendWithinTransaction)
            } else {
                Ok(ScanState { nullifiers: s.nullifiers.push(sp.nullifier), ..s })
            }
        },
        Action::Delegate(d) => Ok(ScanState { delegations: s.delegations.push(d), ..s }),
        Action::Undelegate(u) => Ok(ScanState { undelegations: s.undelegations.push(u), ..s }),
        Action::Other => Err(VerificationError::UnsupportedAction),
    }
}

/// The scan over the first `n` actions of `tx`.
pub open spec fn scan(tx: Transaction, checks: CryptoChecks, n: nat) -> Result<
    ScanState,
    VerificationError,
>
    decreases n,
{
    if n == 0 {
        Ok(ScanState { notes: seq![], nullifiers: seq![], delegations: seq![], undelegations: seq![] })
    } else {
        match scan(tx, checks, (n - 1) as nat) {
            Err(e) => Err(e),
            Ok(s) => scan_step(s, tx.actions@[n - 1], checks, n - 1, tx.id),
        }
    }
}

/// Once the scan fails, it fails with the same error over every longer prefix.
proof fn lemma_scan_err_persists(tx: Transaction, checks: CryptoChecks, n: nat, m: nat)
    requires
        n <= m,
        scan(tx, checks, n) is Err,
    ensures
        scan(tx, checks, m) == scan(tx, checks, n),
    decreases m,
{
    if m > n {
        lemma_scan_err_persists(tx, checks, n, (m - 1) as nat);
    }
}

/// The result of stateless verification of `tx` under the check outcomes `checks`.
pub open spec fn stateless_outcome(tx: Transaction, checks: CryptoChecks) -> Result<
    PendingView,
    VerificationError,
> {
    if !checks.binding_ok {
        Err(VerificationError::BindingSignatureInvalid)
    } else {
        match scan(tx, checks, tx.actions@.len()) {
            Err(e) => Err(e),
            Ok(s) => Ok(
                PendingView {
                    id: tx.id,
                    root: tx.merkle_root,
                    notes: s.notes,
                    nullifiers: s.nullifiers,
                    delegations: s.delegations,
                    undelegations: s.undelegations,
                    n_validators: 0,
                },
            ),
        }
    }
}

pub open spec fn pending_result_view(r: Result<PendingTransaction, VerificationError>) -> Result<
    PendingView,
    VerificationError,
> {
    match r {
        Ok(p) => Ok(p@),
        Err(e) => Err(e),
    }
}

/// Action `i` of `tx` is an output with note commitment `k`.
pub open spec fn output_at(tx: Transaction, i: int, k: Hash32) -> bool {
    0 <= i < tx.actions@.len() && (tx.actions@[i] matches Action::Output(o) && o.note_commitment == k)
}

/// Action `i` of `tx` is a spend revealing nullifier `n`.
pub open spec fn spend_at(tx: Transaction, i: int, n: Hash32) -> bool {
    0 <= i < tx.actions@.len() && (tx.actions@[i] matches Action::Spend(sp) && sp.nullifier == n)
}

/// Action `i` of `tx` is of a supported kind and passes the checks its kind
/// has: the proof of an output; the authorization and the proof of a spend.
pub open spec fn action_passes(tx: Transaction, checks: CryptoChecks, i: int) -> bool {
    match tx.actions@[i] {
        Action::Output(_) => checks.proof_ok_at(i),
        Action::Spend(_) => checks.auth_ok_at(i) && checks.proof_ok_at(i),
        Action::Delegate(_) => true,
        Action::Undelegate(_) => true,
        Action::Other => false,
    }
}

proof fn lemma_upsert_keys<V>(s: Seq<(Hash32, V)>, k0: Hash32, v: V, k: Hash32)
    ensures
        has_key(upsert(s, k0, v), k) <==> (has_key(s, k) || k == k0),
{
    if has_key(s, k0) {
        let c = key_index(s, k0);
        let u = s.update(c, (k0, v));
        if has_key(s, k) {
            let j = choose|i: int| 0 <= i < s.len() && s[i].0 == k;
            if j == c {
                assert(u[c].0 == k);
            } else {
                assert(u[j].0 == k);
            }
        }
        if has_key(u, k) {
            let j = choose|i: int| 0 <= i < u.len() && u[i].0 == k;
            if j != c {
                assert(s[j].0 == k);
            }
        }
        assert(u[c].0 == k0);
        if k == k0 {
            assert(has_key(u, k));
        }
    } else {
        let u = s.push((k0, v));
        if has_key(s, k) {
            let j = choose|i: int| 0 <= i < s.len() && s[i].0 == k;
            assert(u[j].0 == k);
        }
        if has_key(u, k) {
            let j = choose|i: int| 0 <= i < u.len() && u[i].0 == k;
            if j < s.len() {
                assert(s[j].0 == k);
            }
        }
        assert(u[s.len() as int].0 == k0);
        if k == k0 {
            assert(has_key(u, k));
        }
    }
}

/// Where the scan over the first `n` actions succeeds, its notes are keyed by
/// exactly the outputs' commitments and its nullifiers are exactly the
/// spends' nullifiers among those actions.
proof fn lemma_scan_contents(tx: Transaction, checks: CryptoChecks, n: nat)
    requires
        n <= tx.actions@.len(),
        scan(tx, checks, n) is Ok,
    ensures
        forall|k: Hash32|
            has_key(scan(tx, checks, n)->Ok_0.notes, k) <==> exists|i: int|
                0 <= i < n && #[trigger] output_at(tx, i, k),
        forall|x: Hash32|
            scan(tx, checks, n)->Ok_0.nullifiers.contains(x) <==> exists|i: int|
                0 <= i < n && #[trigger] spend_at(tx, i, x),
    decreases n,
{
    if n > 0 {
        let m = (n - 1) as nat;
        lemma_scan_contents(tx, checks, m);
        let s = scan(tx, checks, m)->Ok_0;
        let t = scan(tx, checks, n)->Ok_0;
        assert forall|k: Hash32|
            has_key(t.notes, k) <==> exists|i: int| 0 <= i < n && #[trigger] output_at(tx, i, k) by {
            if exists|i: int| 0 <= i < n && #[trigger] output_at(tx, i, k) {
                let i = choose|i: int| 0 <= i < n && #[trigger] output_at(tx, i, k);
                if i < m {
                    assert(has_key(s.notes, k));
                }
            }
            match tx.actions@[m as int] {
                Action::Output(o) => {
                    lemma_upsert_keys(s.notes, o.note_commitment, NoteDataView {
                        ephemeral_key: o.ephemeral_key,
                        encrypted_note: o.encrypted_note@,
                        transaction_id: tx.id,
                    }, k);
                    if o.note_commitment == k {
                        assert(output_at(tx, m as int, k));
                    }
                },
                _ => {
                    assert(!output_at(tx, m as int, k));
                },
            }
        }
        assert forall|x: Hash32|
            t.nullifiers.contains(x) <==> exists|i: int| 0 <= i < n && #[trigger] spend_at(tx, i, x) by {
            if exists|i: int| 0 <= i < n && #[trigger] spend_at(tx, i, x) {
                let i = choose|i: int| 0 <= i < n && #[trigger] spend_at(tx, i, x);
                if i < m {
                    assert(s.nullifiers.contains(x));
                }
            }
            match tx.actions@[m as int] {
                Action::Spend(sp) => {
                    if sp.nullifier == x {
                        assert(spend_at(tx, m as int, x));
                        assert(t.nullifiers.last() == x);
                    } else if t.nullifiers.contains(x) {
                        let j = choose|j: int| 0 <= j < t.nullifiers.len() && t.nullifiers[j] == x;
                        assert(s.nullifiers[j] == x);
                    }
                    if s.nullifiers.contains(x) {
                        let j = choose|j: int| 0 <= j < s.nullifiers.len() && s.nullifiers[j] == x;
                        assert(t.nullifiers[j] == x);
                    }
                },
                _ => {
                    assert(!spend_at(tx, m as int, x));
                },
            }
        }
    }
}

/// Where every action passes its checks, the scan can only fail on a
/// nullifier revealed twice.
proof fn lemma_scan_err_is_double_spend(tx: Transaction, checks: CryptoChecks, n: nat)
    requires
        n <= tx.actions@.len(),
        forall|k: int| 0 <= k < n ==> #[trigger] action_passes(tx, checks, k),
        scan(tx, checks, n) is Err,
    ensures
        scan(tx, checks, n) == Err::<ScanState, VerificationError>(
            VerificationError::DoubleSpendWithinTransaction,
        ),
    decreases n,
{
    let m = (n - 1) as nat;
    assert(action_passes(tx, checks, m as int));
    if scan(tx, checks, m) is Err {
        lemma_scan_err_is_double_spend(tx, checks, m);
    }
}

/// A transaction whose binding signature does not verify is rejected with the
/// binding-signature error, and no pending transaction comes out.
pub proof fn lemma_tampered_binding_rejected(tx: Transaction, checks: CryptoChecks)
    requires
        !checks.binding_ok,
    ensures
        stateless_outcome(tx, checks) == Err::<PendingView, VerificationError>(
            VerificationError::BindingSignatureInvalid,
        ),
{
}

/// A transaction with two spends of the same nullifier is rejected as a
/// double spend, where no check fails before the second of them.
pub proof fn lemma_repeated_nullifier_rejected(
    tx: Transaction,
    checks: CryptoChecks,
    i: int,
    j: int,
    x: Hash32,
)
    requires
        checks.binding_ok,
        forall|k: int| 0 <= k <= j ==> #[trigger] action_passes(tx, checks, k),
        0 <= i < j,
        spend_at(tx, i, x),
        spend_at(tx, j, x),
    ensures
        stateless_outcome(tx, checks) == Err::<PendingView, VerificationError>(
            VerificationError::DoubleSpendWithinTransaction,
        ),
{
    let len = tx.actions@.len();
    let jn = j as nat;
    if scan(tx, checks, jn) is Ok {
        lemma_scan_contents(tx, checks, jn);
        assert(scan(tx, checks, jn)->Ok_0.nullifiers.contains(x));
        assert(action_passes(tx, checks, j));
    } else {
        lemma_scan_err_is_double_spend(tx, checks, jn);
    }
    assert(action_passes(tx, checks, j));
    assert(scan(tx, checks, (jn + 1) as nat) == Err::<ScanState, VerificationError>(
        VerificationError::DoubleSpendWithinTransaction,
    ));
    lemma_scan_err_persists(tx, checks, (jn + 1) as nat, len);
}

/// A transaction that passes stateless verification yields exactly the note
/// commitments of its outputs and exactly the nullifiers of its spends.
pub proof fn lemma_pending_contents(tx: Transaction, checks: CryptoChecks)
    requires
        stateless_outcome(tx, checks) is Ok,
    ensures
        forall|k: Hash32|
            has_key(stateless_outcome(tx, checks)->Ok_0.notes, k) <==> exists|i: int|
                #[trigger] output_at(tx, i, k),
        forall|x: Hash32|
            stateless_outcome(tx, checks)->Ok_0.nullifiers.contains(x) <==> exists|i: int|
                #[trigger] spend_at(tx, i, x),
{
    lemma_scan_contents(tx, checks, tx.actions@.len());
}

/// Sets the data of note commitment `k` in `notes`.
fn upsert_note(notes: &mut Vec<(Hash32, NoteData)>, k: Hash32, v: NoteData)
    requires
        keys_unique(old(notes)@),
    ensures
        keys_unique(final(notes)@),
        notes_view(final(notes)@) == upsert(notes_view(old(notes)@), k, v@),
{
    let ghost old_view = notes_view(old(notes)@);
    let ghost nv = v@;
    let mut i: usize = 0;
    while i < notes.len()
        invariant
            0 <= i <= notes@.len(),
            old_view == notes_view(notes@),
            old_view == notes_view(old(notes)@),
            nv == v@,
            keys_unique(notes@),
            forall|j: int| 0 <= j < i ==> notes@[j].0 != k,
        decreases notes@.len() - i,
    {
        if hash_eq(&notes[i].0, &k) {
            assert(old_view[i as int].0 == k);
            assert forall|j: int| 0 <= j < old_view.len() implies old_view[j].0 == notes@[j].0 by {}
            assert(has_key(old_view, k));
            let ghost c = key_index(old_view, k);
            assert(c == i);
            let ghost before = notes@;
            notes.set(i, (k, v));
            assert(notes@ == before.update(i as int, (k, v)));
            assert forall|j: int| 0 <= j < notes@.len() implies #[trigger] notes_view(notes@)[j] == old_view.update(i as int, (k, nv))[j] by {
                if j != i {
                    assert(notes@[j] == before[j]);
                }
            }
            assert(notes_view(notes@) =~= old_view.update(i as int, (k, nv)));
            assert(upsert(old_view, k, nv) == old_view.update(i as int, (k, nv)));
            return;
        }
        i = i + 1;
    }
    assert forall|j: int| 0 <= j < old_view.len() implies old_view[j].0 != k by {
        assert(old_view[j].0 == notes@[j].0);
    }
    assert(!has_key(old_view, k));
    notes.push((k, v));
    assert(notes_view(notes@) =~= old_view.push((k, v@)));
}

/// Stateless verification: checks signatures and proofs and gathers a
/// transaction's effects without consulting chain state.
pub trait StatelessTransactionExt: Sized {
    spec fn verification_outcome(&self, checks: &CryptoChecks) -> Result<
        PendingView,
        VerificationError,
    >;

    fn verify_stateless(&self, checks: &CryptoChecks) -> (r: Result<
        PendingTransaction,
        VerificationError,
    >)
        ensures
            pending_result_view(r) == self.verification_outcome(checks),
    ;
}

impl StatelessTransactionExt for Transaction {
    open spec fn verification_outcome(&self, checks: &CryptoChecks) -> Result<
        PendingView,
        VerificationError,
    > {
        stateless_outcome(*self, *checks)
    }

    fn verify_stateless(&self, checks: &CryptoChecks) -> (r: Result<
        PendingTransaction,
        VerificationError,
    >) {
        let id = self.id;
        if !checks.binding_ok {
            return Err(VerificationError::BindingSignatureInvalid);
        }
        let mut spent_nullifiers: Vec<Hash32> = Vec::new();
        let mut new_notes: Vec<(Hash32, NoteData)> = Vec::new();
        let mut delegations: Vec<Delegate> = Vec::new();
        let mut undelegations: Vec<Undelegate> = Vec::new();
        let validators: Vec<Validator> = Vec::new();
        let mut i: usize = 0;
        assert(notes_view(new_notes@) =~= seq![]);
        assert(spent_nullifiers@ =~= seq![]);
        assert(delegations@ =~= seq![]);
        assert(undelegations@ =~= seq![]);
        while i < self.actions.len()
            invariant
                0 <= i <= self.actions@.len(),
                id == self.id,
                checks.binding_ok,
                keys_unique(new_notes@),
                scan(*self, *checks, i as nat) == Ok::<ScanState, VerificationError>(
                    ScanState {
                        notes: notes_view(new_notes@),
                        nullifiers: spent_nullifiers@,
                        delegations: delegations@,
                        undelegations: undelegations@,
                    },
                ),
            decreases self.actions@.len() - i,
        {
            match &self.actions[i] {
                Action::Output(o) => {
                    if !checks.proof_ok(i) {
                        proof {
                            assert(scan(*self, *checks, (i + 1) as nat) == Err::<ScanState, VerificationError>(VerificationError::ProofInvalid(ProofKind::Output)));
                            lemma_scan_err_persists(*self, *checks, (i + 1) as nat, self.actions@.len());
                        }
                        return Err(VerificationError::ProofInvalid(ProofKind::Output));
                    }
                    let encrypted_note = o.encrypted_note.clone();
                    assert(encrypted_note@ =~= o.encrypted_note@);
                    let data = NoteData {
                        ephemeral_key: o.ephemeral_key,
                        encrypted_note,
                        transaction_id: id,
                    };
                    upsert_note(&mut new_notes, o.note_commitment, data);
                },
                Action::Spend(sp) => {
                    if !checks.auth_ok(i) {
                        proof {
                            assert(scan(*self, *checks, (i + 1) as nat) == Err::<ScanState, VerificationError>(VerificationError::SpendAuthInvalid));
                            lemma_scan_err_persists(*self, *checks, (i + 1) as nat, self.actions@.len());
                        }
                        return Err(VerificationError::SpendAuthInvalid);
                    }
                    if !checks.proof_ok(i) {
                        proof {
                            assert(scan(*self, *checks, (i + 1) as nat) == Err::<ScanState, VerificationError>(VerificationError::ProofInvalid(ProofKind::Spend)));
                            lemma_scan_err_persists(*self, *checks, (i + 1) as nat, self.actions@.len());
                        }
                        return Err(VerificationError::ProofInvalid(ProofKind::Spend));
                    }
                    if contains_hash(&spent_nullifiers, &sp.nullifier) {
                        proof {
                            assert(scan(*self, *checks, (i + 1) as nat) == Err::<ScanState, VerificationError>(VerificationError::DoubleSpendWithinTransaction));
                            lemma_scan_err_persists(*self, *checks, (i + 1) as nat, self.actions@.len());
                        }
                        return Err(VerificationError::DoubleSpendWithinTransaction);
                    }
                    spent_nullifiers.push(sp.nullifier);
                },
                Action::Delegate(d) => {
                    delegations.push(*d);
                },
                Action::Undelegate(u) => {
                    undelegations.push(*u);
                },
                Action::Other => {
                    proof {
                        assert(scan(*self, *checks, (i + 1) as nat) == Err::<ScanState, VerificationError>(VerificationError::UnsupportedAction));
                        lemma_scan_err_persists(*self, *checks, (i + 1) as nat, self.actions@.len());
                    }
                    return Err(VerificationError::UnsupportedAction);
                },
            }
            i = i + 1;
        }
        Ok(
            PendingTransaction {
                id,
                root: self.merkle_root,
                new_notes,
                spent_nullifiers,
                delegations,
                undelegations,
                validators,
            },
        )
    }
}

} // verus!
