//! The sync orchestrator: drives the actions of a reconciliation pass
//! through the remote store.
//!
//! All creates and updates are applied first, in the order the pass
//! produced them, then all deletes, so a rename never leaves a window
//! where neither name exists. Each action's outcome is recorded on its
//! own; one failure does not stop the remaining actions, and the caller
//! decides what the recorded failures mean for the run.

use vstd::prelude::*;

use crate::errors::{AppError, AppErrorView, StoreError};
use crate::model::RecipientKey;
use crate::reconcile::{
    action_name, action_value, del_pred, is_upsert, lemma_filter_take_step, SyncAction,
    SyncActionView,
};
use crate::sealing::{b64_of, seal, KEY_BYTES_LEN, MAX_SEAL_INPUT, SEAL_OVERHEAD};

verus! {

/// Which class of action a result reports on.
#[derive(Clone, Copy, PartialEq, Eq, Structural, Debug)]
pub enum ActionKind {
    Create,
    Update,
    Delete,
}

/// The class of an action.
pub open spec fn kind_of(a: SyncActionView) -> ActionKind {
    match a {
        SyncActionView::Create { .. } => ActionKind::Create,
        SyncActionView::Update { .. } => ActionKind::Update,
        SyncActionView::Delete { .. } => ActionKind::Delete,
    }
}

/// The remote store's write operations, both idempotent and keyed by name:
/// creating and updating are the same call, and deleting an absent name is
/// not a hard error. Implementations perform the outbound calls; the
/// orchestrator promises nothing about their outcomes and records whatever
/// they report.
pub trait SecretStore {
    /// Registers or overwrites the secret `name` with an already-sealed,
    /// base64-encoded value, against the key identified by `key_id`. The
    /// precondition is the run's central invariant: what crosses the wire
    /// is always the base64 text of a sealed box, never a plaintext value.
    fn upsert(&mut self, name: &String, ciphertext_b64: &String, key_id: &String) -> Result<
        (),
        StoreError,
    >
        requires
            exists|sealed: Seq<u8>|
                sealed.len() >= SEAL_OVERHEAD && ciphertext_b64@ == b64_of(sealed),
    ;

    /// Removes the secret `name`.
    fn delete(&mut self, name: &String) -> Result<(), StoreError>;
}

/// The recorded outcome of one applied action.
pub struct ActionResult {
    pub name: String,
    pub kind: ActionKind,
    pub outcome: Result<(), AppError>,
}

/// Spec-level image of an `ActionResult`.
pub ghost struct ActionResultView {
    pub name: Seq<char>,
    pub kind: ActionKind,
    pub outcome: Result<(), AppErrorView>,
}

impl View for ActionResult {
    type V = ActionResultView;

    open spec fn view(&self) -> ActionResultView {
        ActionResultView {
            name: self.name@,
            kind: self.kind,
            outcome: match &self.outcome {
                Ok(_) => Ok(()),
                Err(err) => Err(err@),
            },
        }
    }
}

impl DeepView for ActionResult {
    type V = ActionResultView;

    open spec fn deep_view(&self) -> ActionResultView {
        self.view()
    }
}

/// Whether an action writes a sealed value (create or update).
pub open spec fn upsert_pred() -> spec_fn(SyncActionView) -> bool {
    |a: SyncActionView| is_upsert(a)
}

/// The order in which the orchestrator applies actions: every create and
/// update first, then every delete, each class in the order given.
pub open spec fn apply_order(acts: Seq<SyncActionView>) -> Seq<SyncActionView> {
    acts.filter(upsert_pred()) + acts.filter(del_pred())
}

/// Whether a plaintext value is too large to seal: the base64 form of its
/// sealed bytes could exceed the address space.
pub open spec fn seal_oversized(v: Seq<char>) -> bool {
    vstd::utf8::encode_utf8(v).len() > MAX_SEAL_INPUT
}

/// How one recorded result must relate to the action it reports on: same
/// name, same class, and an error only of the recorded kinds — a remote
/// failure for any action, or an encode failure exactly for an upsert
/// whose value is too large to seal.
pub open spec fn result_matches(r: ActionResultView, a: SyncActionView) -> bool {
    &&& r.name == action_name(a)
    &&& r.kind == kind_of(a)
    &&& (r.outcome matches Err(err) ==> err is RemoteError || err is EncodeError)
    &&& ((r.outcome matches Err(err) && err is EncodeError) <==> is_upsert(a) && seal_oversized(
        action_value(a),
    ))
}

/// A reconciliation pass already orders its actions as the orchestrator
/// applies them — every create and update, then every delete — so `apply`
/// performs the pass's actions exactly in the order produced.
pub proof fn lemma_apply_order_of_reconcile(
    d: Seq<crate::model::SecretView>,
    e: Seq<crate::model::ExistingSecretView>,
)
    ensures
        apply_order(crate::reconcile::spec_reconcile(d, e)) == crate::reconcile::spec_reconcile(
            d,
            e,
        ),
{
    let u = crate::reconcile::spec_upserts(d, e);
    let del = crate::reconcile::spec_deletes(d, e);
    Seq::filter_distributes_over_add(u, del, upsert_pred());
    Seq::filter_distributes_over_add(u, del, del_pred());
    crate::reconcile::lemma_filter_all_true(u, upsert_pred());
    crate::reconcile::lemma_filter_all_false(u, del_pred());
    crate::reconcile::lemma_filter_all_false(del, upsert_pred());
    crate::reconcile::lemma_filter_all_true(del, del_pred());
    assert(apply_order(crate::reconcile::spec_reconcile(d, e))
        =~= crate::reconcile::spec_reconcile(d, e));
}

/// Turns what one store call reported into the recorded outcome: success
/// stays success, and a failure is recorded as a remote error carrying
/// exactly the status and message the store reported.
fn record_outcome(result: Result<(), StoreError>) -> (outcome: Result<(), AppError>)
    ensures
        outcome is Ok <==> result is Ok,
        result matches Err(reported) ==> (outcome matches Err(recorded) && recorded is RemoteError
            && recorded@ == (AppErrorView::RemoteError {
            status: reported.status,
            message: reported.message@,
        })),
{
    match result {
        Ok(_) => Ok(()),
        Err(reported) => Err(
            AppError::RemoteError { status: reported.status, message: reported.message },
        ),
    }
}

/// Seals one value and writes it to the store, reporting an encode failure
/// for a value too large to seal and a remote failure as the store
/// reported it.
fn upsert_one<S: SecretStore>(
    name: &String,
    value: &String,
    key: &RecipientKey,
    store: &mut S,
) -> (outcome: Result<(), AppError>)
    requires
        key.key_bytes@.len() == KEY_BYTES_LEN,
    ensures
        outcome matches Err(err) ==> err is RemoteError || err is EncodeError,
        (outcome matches Err(err) && err is EncodeError) <==> seal_oversized(value@),
{
    let bytes = value.as_str().as_bytes();
    if bytes.len() > MAX_SEAL_INPUT {
        return Err(AppError::EncodeError);
    }
    let sealed_b64 = match seal(bytes, key) {
        Ok(c) => c,
        Err(err) => {
            proof {
                assert(false);
            }
            return Err(err);
        },
    };
    record_outcome(store.upsert(name, &sealed_b64, &key.key_id))
}

/// Removes one secret from the store, reporting a remote failure as the
/// store reported it.
fn delete_one<S: SecretStore>(name: &String, store: &mut S) -> (outcome: Result<(), AppError>)
    ensures
        outcome matches Err(err) ==> err is RemoteError,
{
    record_outcome(store.delete(name))
}

/// Applies the actions of a reconciliation pass to the store: seals and
/// writes every create and update first, in order, then performs every
/// delete, in order. Returns one result per action, in the order applied;
/// a failed call is recorded and does not stop the remaining actions.
pub fn apply<S: SecretStore>(
    actions: &Vec<SyncAction>,
    key: &RecipientKey,
    store: &mut S,
) -> (results: Vec<ActionResult>)
    requires
        key.key_bytes@.len() == KEY_BYTES_LEN,
    ensures
        ({
            let ordered = apply_order(actions.deep_view());
            &&& results.deep_view().len() == ordered.len()
            &&& forall|i: int|
                0 <= i < ordered.len() ==> result_matches(
                    #[trigger] results.deep_view()[i],
                    ordered[i],
                )
        }),
{
    let ghost acts = actions.deep_view();
    let mut results: Vec<ActionResult> = Vec::new();

    let mut i: usize = 0;
    while i < actions.len()
        invariant
            0 <= i <= actions.len(),
            acts == actions.deep_view(),
            acts.len() == actions.len(),
            key.key_bytes@.len() == KEY_BYTES_LEN,
            results.deep_view().len() == acts.take(i as int).filter(upsert_pred()).len(),
            forall|j: int|
                0 <= j < results.deep_view().len() ==> result_matches(
                    #[trigger] results.deep_view()[j],
                    acts.take(i as int).filter(upsert_pred())[j],
                ),
        decreases actions.len() - i,
    {
        proof {
            lemma_filter_take_step(acts, upsert_pred(), i as int);
        }
        let ghost prev = results.deep_view();
        let ghost prev_filtered = acts.take(i as int).filter(upsert_pred());
        match &actions[i] {
            SyncAction::Create { name, value } => {
                let outcome = upsert_one(name, value, key, store);
                results.push(ActionResult { name: name.clone(), kind: ActionKind::Create, outcome });
            },
            SyncAction::Update { name, value } => {
                let outcome = upsert_one(name, value, key, store);
                results.push(ActionResult { name: name.clone(), kind: ActionKind::Update, outcome });
            },
            SyncAction::Delete { .. } => {},
        }
        proof {
            let filtered = acts.take(i as int + 1).filter(upsert_pred());
            if is_upsert(acts[i as int]) {
                assert(results.deep_view() =~= prev.push(results.deep_view().last()));
                assert(result_matches(results.deep_view().last(), acts[i as int]));
                assert forall|j: int| 0 <= j < results.deep_view().len() implies result_matches(
                    #[trigger] results.deep_view()[j],
                    filtered[j],
                ) by {
                    if j < prev.len() {
                        assert(results.deep_view()[j] == prev[j]);
                        assert(filtered[j] == prev_filtered[j]);
                    }
                }
            }
        }
        i += 1;
    }
    proof {
        assert(acts.take(actions.len() as int) =~= acts);
    }

    let ghost all_upserts = acts.filter(upsert_pred());
    let mut j: usize = 0;
    while j < actions.len()
        invariant
            0 <= j <= actions.len(),
            acts == actions.deep_view(),
            acts.len() == actions.len(),
            all_upserts == acts.filter(upsert_pred()),
            results.deep_view().len() == all_upserts.len() + acts.take(j as int).filter(
                del_pred(),
            ).len(),
            forall|k: int|
                0 <= k < results.deep_view().len() ==> result_matches(
                    #[trigger] results.deep_view()[k],
                    (all_upserts + acts.take(j as int).filter(del_pred()))[k],
                ),
        decreases actions.len() - j,
    {
        proof {
            lemma_filter_take_step(acts, del_pred(), j as int);
        }
        let ghost prev = results.deep_view();
        let ghost prev_ordered = all_upserts + acts.take(j as int).filter(del_pred());
        match &actions[j] {
            SyncAction::Delete { name } => {
                let outcome = delete_one(name, store);
                results.push(ActionResult { name: name.clone(), kind: ActionKind::Delete, outcome });
            },
            _ => {},
        }
        proof {
            let ordered = all_upserts + acts.take(j as int + 1).filter(del_pred());
            if acts[j as int] is Delete {
                assert(ordered =~= prev_ordered.push(acts[j as int]));
                assert(results.deep_view() =~= prev.push(results.deep_view().last()));
                assert(result_matches(results.deep_view().last(), acts[j as int]));
                assert forall|k: int| 0 <= k < results.deep_view().len() implies result_matches(
                    #[trigger] results.deep_view()[k],
                    ordered[k],
                ) by {
                    if k < prev.len() {
                        assert(results.deep_view()[k] == prev[k]);
                        assert(ordered[k] == prev_ordered[k]);
                    }
                }
            } else {
                assert(ordered =~= prev_ordered);
            }
        }
        j += 1;
    }
    proof {
        assert(acts.take(actions.len() as int) =~= acts);
    }
    results
}

} // verus!
