//! The manager that ties a run together: it annotates each secret with its
//! lifecycle status, exposes the annotated list and per-secret details to
//! the viewer, and drives a reconciliation pass through the store.
//!
//! The statuses are derived once, when the manager is built, from the same
//! classification the reconciliation pass uses, so the status a viewer
//! renders and the action the orchestrator applies always agree (see
//! `lemma_annotate_matches_reconcile`).

use vstd::prelude::*;
use vstd::string::StringExecFns;

use crate::errors::AppError;
use crate::model::{
    ExistingSecret, ExistingSecretView, PublicKeyResponse, PublicKeyResponseView, Secret,
    SecretDetails, SecretDetailsView, SecretStatus, SecretView,
};
use crate::orchestrator::{apply, apply_order, result_matches, ActionResult, SecretStore};
use crate::reconcile::{
    delete_pred, desired_contains, existing_contains, existing_has_name, lemma_filter_all_true,
    lemma_filter_take_step, spec_reconcile, SyncAction, SyncActionView,
};
use crate::sealing::{b64_decoded, b64_ok, decode_public_key, KEY_BYTES_LEN};

verus! {

/// One desired secret with its status filled in.
pub open spec fn annotate_one(s: SecretView, e: Seq<ExistingSecretView>) -> SecretView {
    SecretView {
        name: s.name,
        value: s.value,
        status: Some(
            if existing_has_name(e, s.name) {
                SecretStatus::Existing
            } else {
                SecretStatus::New
            },
        ),
    }
}

/// The placeholder entry for an existing secret that is no longer desired:
/// its plaintext is unknown, so the value is empty and the status is
/// `Deleted`.
pub open spec fn deleted_entry() -> spec_fn(ExistingSecretView) -> SecretView {
    |x: ExistingSecretView|
        SecretView { name: x.name, value: Seq::empty(), status: Some(SecretStatus::Deleted) }
}

/// The annotated secret list a manager holds: every desired secret with
/// its status, in order, followed by one `Deleted` placeholder per
/// existing secret whose name is no longer desired, in order.
pub open spec fn spec_annotate(d: Seq<SecretView>, e: Seq<ExistingSecretView>) -> Seq<SecretView> {
    d.map_values(|s: SecretView| annotate_one(s, e)) + e.filter(delete_pred(d)).map_values(
        deleted_entry(),
    )
}

/// Whether a secret has been given a status.
pub open spec fn has_status_pred() -> spec_fn(SecretView) -> bool {
    |s: SecretView| s.status is Some
}

/// The action a status stands for: `New` is a create, `Existing` an
/// update, `Deleted` a delete.
pub open spec fn action_of_secret(s: SecretView) -> SyncActionView {
    match s.status {
        Some(SecretStatus::New) => SyncActionView::Create { name: s.name, value: s.value },
        Some(SecretStatus::Existing) => SyncActionView::Update { name: s.name, value: s.value },
        _ => SyncActionView::Delete { name: s.name },
    }
}

/// The actions an annotated list stands for: one per secret with a
/// status, read off its tag.
pub open spec fn actions_of(secrets: Seq<SecretView>) -> Seq<SyncActionView> {
    secrets.filter(has_status_pred()).map_values(|s: SecretView| action_of_secret(s))
}

/// The statuses are the single source of truth: reading actions off an
/// annotated list gives exactly what a reconciliation pass of the same
/// inputs produces, so the status the viewer renders and the action the
/// orchestrator applies always agree.
pub proof fn lemma_annotate_matches_reconcile(d: Seq<SecretView>, e: Seq<ExistingSecretView>)
    ensures
        actions_of(spec_annotate(d, e)) == spec_reconcile(d, e),
{
    let ann_d = d.map_values(|s: SecretView| annotate_one(s, e));
    let ann_e = e.filter(delete_pred(d)).map_values(deleted_entry());
    Seq::filter_distributes_over_add(ann_d, ann_e, has_status_pred());
    lemma_filter_all_true(ann_d, has_status_pred());
    lemma_filter_all_true(ann_e, has_status_pred());
    assert(actions_of(spec_annotate(d, e)) =~= spec_reconcile(d, e));
}

/// The first existing secret carrying this name, if any; its timestamps
/// are what the viewer shows.
pub open spec fn find_existing(e: Seq<ExistingSecretView>, n: Seq<char>) -> Option<
    ExistingSecretView,
>
    decreases e.len(),
{
    if e.len() == 0 {
        None
    } else if e[0].name == n {
        Some(e[0])
    } else {
        find_existing(e.drop_first(), n)
    }
}

/// What the viewer shows about one annotated secret: the plaintext is
/// redacted for a secret that is to be deleted (the store never returns
/// it), and the timestamps come from the matching existing secret, if
/// any.
pub open spec fn spec_details(s: SecretView, e: Seq<ExistingSecretView>) -> SecretDetailsView
    recommends
        s.status is Some,
{
    SecretDetailsView {
        name: s.name,
        value: if s.status == Some(SecretStatus::Deleted) {
            "Unknown (Deleted)"@
        } else {
            s.value
        },
        created_at: match find_existing(e, s.name) {
            Some(x) => x.created_at,
            None => "N/A"@,
        },
        updated_at: match find_existing(e, s.name) {
            Some(x) => x.updated_at,
            None => "N/A"@,
        },
        status: s.status->0,
    }
}

/// The index of the first existing secret carrying this name, if any.
fn find_existing_index(existing: &Vec<ExistingSecret>, name: &String) -> (r: Option<usize>)
    ensures
        match r {
            Some(k) => k < existing.deep_view().len() && find_existing(
                existing.deep_view(),
                name@,
            ) == Some(existing.deep_view()[k as int]),
            None => find_existing(existing.deep_view(), name@) is None,
        },
{
    let ghost e = existing.deep_view();
    proof {
        assert(e.skip(0) =~= e);
    }
    let mut k: usize = 0;
    while k < existing.len()
        invariant
            0 <= k <= existing.len(),
            e == existing.deep_view(),
            e.len() == existing.len(),
            find_existing(e, name@) == find_existing(e.skip(k as int), name@),
        decreases existing.len() - k,
    {
        proof {
            assert(e.skip(k as int)[0] == e[k as int]);
        }
        if existing[k].name == *name {
            proof {
                assert(find_existing(e.skip(k as int), name@) == Some(e[k as int]));
            }
            return Some(k);
        }
        proof {
            assert(e.skip(k as int).drop_first() =~= e.skip(k as int + 1));
        }
        k += 1;
    }
    proof {
        assert(e.skip(existing.len() as int) =~= Seq::<ExistingSecretView>::empty());
    }
    None
}

/// Holds one run's inputs — the desired secrets, the existing secrets and
/// the store's published key — with the statuses derived on construction.
pub struct SecretsManager {
    secrets: Vec<Secret>,
    existing_secrets: Vec<ExistingSecret>,
    public_key: PublicKeyResponse,
}

/// Spec-level image of a `SecretsManager`.
pub ghost struct SecretsManagerView {
    pub secrets: Seq<SecretView>,
    pub existing_secrets: Seq<ExistingSecretView>,
    pub public_key: PublicKeyResponseView,
}

impl View for SecretsManager {
    type V = SecretsManagerView;

    closed spec fn view(&self) -> SecretsManagerView {
        SecretsManagerView {
            secrets: self.secrets.deep_view(),
            existing_secrets: self.existing_secrets.deep_view(),
            public_key: self.public_key@,
        }
    }
}

impl SecretsManager {
    /// A manager is well-formed once every secret it holds has a status.
    pub open spec fn wf(&self) -> bool {
        forall|i: int| 0 <= i < self@.secrets.len() ==> (#[trigger] self@.secrets[i]).status is Some
    }

    /// Builds the manager for one run and derives each secret's status
    /// from the two input lists.
    pub fn new(
        secrets: Vec<Secret>,
        existing_secrets: Vec<ExistingSecret>,
        public_key: PublicKeyResponse,
    ) -> (m: Self)
        ensures
            m@.secrets == spec_annotate(secrets.deep_view(), existing_secrets.deep_view()),
            m@.existing_secrets == existing_secrets.deep_view(),
            m@.public_key == public_key@,
            m.wf(),
    {
        let mut m = SecretsManager { secrets, existing_secrets, public_key };
        m.update_secret_statuses();
        m
    }

    /// Rebuilds the secret list with statuses: every desired secret is
    /// marked `Existing` or `New` by whether its name is on the store,
    /// and a `Deleted` placeholder is appended for every existing secret
    /// whose name is no longer desired.
    fn update_secret_statuses(&mut self)
        ensures
            final(self)@.secrets == spec_annotate(old(self)@.secrets, old(self)@.existing_secrets),
            final(self)@.existing_secrets == old(self)@.existing_secrets,
            final(self)@.public_key == old(self)@.public_key,
            final(self).wf(),
    {
        let ghost d = self.secrets.deep_view();
        let ghost e = self.existing_secrets.deep_view();
        let mut annotated: Vec<Secret> = Vec::new();

        let mut i: usize = 0;
        while i < self.secrets.len()
            invariant
                0 <= i <= self.secrets.len(),
                d == self.secrets.deep_view(),
                e == self.existing_secrets.deep_view(),
                d.len() == self.secrets.len(),
                annotated.deep_view() == d.take(i as int).map_values(
                    |s: SecretView| annotate_one(s, e),
                ),
            decreases self.secrets.len() - i,
        {
            let s = &self.secrets[i];
            let status = if existing_contains(&self.existing_secrets, &s.name) {
                SecretStatus::Existing
            } else {
                SecretStatus::New
            };
            annotated.push(Secret { name: s.name.clone(), value: s.value.clone(), status: Some(status) });
            proof {
                assert(annotated.deep_view() =~= d.take(i as int).map_values(
                    |sv: SecretView| annotate_one(sv, e),
                ).push(annotate_one(d[i as int], e)));
                assert(d.take(i as int + 1).map_values(|sv: SecretView| annotate_one(sv, e))
                    =~= d.take(i as int).map_values(|sv: SecretView| annotate_one(sv, e)).push(
                    annotate_one(d[i as int], e),
                ));
            }
            i += 1;
        }
        proof {
            assert(d.take(self.secrets.len() as int) =~= d);
        }

        let ghost ann_d = d.map_values(|sv: SecretView| annotate_one(sv, e));
        let mut j: usize = 0;
        while j < self.existing_secrets.len()
            invariant
                0 <= j <= self.existing_secrets.len(),
                d == self.secrets.deep_view(),
                e == self.existing_secrets.deep_view(),
                e.len() == self.existing_secrets.len(),
                ann_d == d.map_values(|sv: SecretView| annotate_one(sv, e)),
                annotated.deep_view() == ann_d + e.take(j as int).filter(delete_pred(d)).map_values(
                    deleted_entry(),
                ),
            decreases self.existing_secrets.len() - j,
        {
            proof {
                lemma_filter_take_step(e, delete_pred(d), j as int);
            }
            let ghost prev = annotated.deep_view();
            let ghost prev_part = e.take(j as int).filter(delete_pred(d)).map_values(
                deleted_entry(),
            );
            let x = &self.existing_secrets[j];
            if !desired_contains(&self.secrets, &x.name) {
                annotated.push(
                    Secret {
                        name: x.name.clone(),
                        value: String::new(),
                        status: Some(SecretStatus::Deleted),
                    },
                );
                proof {
                    let entry = deleted_entry()(e[j as int]);
                    assert(annotated.deep_view() =~= (ann_d + prev_part).push(entry));
                    assert((ann_d + prev_part).push(entry) =~= ann_d + prev_part.push(entry));
                    assert(e.take(j as int + 1).filter(delete_pred(d)).map_values(deleted_entry())
                        =~= prev_part.push(entry));
                }
            } else {
                proof {
                    assert(e.take(j as int + 1).filter(delete_pred(d)).map_values(deleted_entry())
                        =~= prev_part);
                }
            }
            j += 1;
        }
        proof {
            assert(e.take(self.existing_secrets.len() as int) =~= e);
        }

        self.secrets = annotated;
        proof {
            assert(self@.secrets == spec_annotate(d, e));
            assert forall|i: int| 0 <= i < self@.secrets.len() implies (
            #[trigger] self@.secrets[i]).status is Some by {
                if i < ann_d.len() {
                    assert(self@.secrets[i] == annotate_one(d[i], e));
                } else {
                    assert(self@.secrets[i] == deleted_entry()(
                        e.filter(delete_pred(d))[i - ann_d.len()],
                    ));
                }
            }
        }
    }

    /// The annotated secret list, for the viewer to render.
    pub fn get_secrets(&self) -> (r: &Vec<Secret>)
        ensures
            r.deep_view() == self@.secrets,
    {
        &self.secrets
    }

    /// What the viewer shows about the secret at `index`: `None` exactly
    /// when the index is out of range.
    pub fn get_secret_details(&self, index: usize) -> (r: Option<SecretDetails>)
        requires
            self.wf(),
        ensures
            r is Some <==> index < self@.secrets.len(),
            r matches Some(details) ==> details@ == spec_details(
                self@.secrets[index as int],
                self@.existing_secrets,
            ),
    {
        if index >= self.secrets.len() {
            return None;
        }
        let secret = &self.secrets[index];
        let status = match secret.status {
            Some(status) => status,
            None => {
                proof {
                    assert(false);
                }
                SecretStatus::New
            },
        };
        let value = if status == SecretStatus::Deleted {
            String::from_str("Unknown (Deleted)")
        } else {
            secret.value.clone()
        };
        let (created_at, updated_at) = match find_existing_index(
            &self.existing_secrets,
            &secret.name,
        ) {
            Some(k) => {
                let x = &self.existing_secrets[k];
                (x.created_at.clone(), x.updated_at.clone())
            },
            None => (String::from_str("N/A"), String::from_str("N/A")),
        };
        Some(SecretDetails { name: secret.name.clone(), value, created_at, updated_at, status })
    }

    /// The actions the annotated list stands for, read off each status.
    fn categorize_secrets(&self) -> (actions: Vec<SyncAction>)
        ensures
            actions.deep_view() == actions_of(self@.secrets),
    {
        let ghost s = self.secrets.deep_view();
        let mut actions: Vec<SyncAction> = Vec::new();
        let mut i: usize = 0;
        while i < self.secrets.len()
            invariant
                0 <= i <= self.secrets.len(),
                s == self.secrets.deep_view(),
                s.len() == self.secrets.len(),
                actions.deep_view() == actions_of(s.take(i as int)),
            decreases self.secrets.len() - i,
        {
            proof {
                lemma_filter_take_step(s, has_status_pred(), i as int);
            }
            let ghost prev = actions.deep_view();
            let ghost prev_filtered = s.take(i as int).filter(has_status_pred());
            match &self.secrets[i] {
                Secret { name, value, status: Some(SecretStatus::New) } => {
                    actions.push(SyncAction::Create { name: name.clone(), value: value.clone() });
                },
                Secret { name, value, status: Some(SecretStatus::Existing) } => {
                    actions.push(SyncAction::Update { name: name.clone(), value: value.clone() });
                },
                Secret { name, status: Some(SecretStatus::Deleted), .. } => {
                    actions.push(SyncAction::Delete { name: name.clone() });
                },
                Secret { status: None, .. } => {},
            }
            proof {
                if s[i as int].status is Some {
                    assert(actions.deep_view() =~= prev.push(action_of_secret(s[i as int])));
                    assert(actions_of(s.take(i as int + 1)) =~= prev_filtered.push(
                        s[i as int],
                    ).map_values(|sv: SecretView| action_of_secret(sv)));
                    assert(prev_filtered.push(s[i as int]).map_values(
                        |sv: SecretView| action_of_secret(sv),
                    ) =~= actions_of(s.take(i as int)).push(action_of_secret(s[i as int])));
                } else {
                    assert(actions_of(s.take(i as int + 1)) =~= actions_of(s.take(i as int)));
                }
            }
            i += 1;
        }
        proof {
            assert(s.take(self.secrets.len() as int) =~= s);
        }
        actions
    }

    /// Runs one reconciliation pass against the store: decodes the
    /// published key — a malformed key (text that is not base64, or
    /// material that is not `KEY_BYTES_LEN` bytes) aborts before any
    /// action is attempted — then seals and applies every create and
    /// update, then every delete, recording each action's outcome on its
    /// own.
    pub fn manage_secrets<S: SecretStore>(&self, store: &mut S) -> (r: Result<
        Vec<ActionResult>,
        AppError,
    >)
        requires
            self.wf(),
        ensures
            r is Err <==> !(b64_ok(self@.public_key.key) && b64_decoded(
                self@.public_key.key,
            ).len() == KEY_BYTES_LEN),
            r matches Err(err) ==> err is InvalidKey,
            r matches Ok(results) ==> ({
                let ordered = apply_order(actions_of(self@.secrets));
                &&& results.deep_view().len() == ordered.len()
                &&& forall|i: int|
                    0 <= i < ordered.len() ==> result_matches(
                        #[trigger] results.deep_view()[i],
                        ordered[i],
                    )
            }),
    {
        let key = match decode_public_key(&self.public_key) {
            Ok(key) => key,
            Err(err) => {
                return Err(err);
            },
        };
        let actions = self.categorize_secrets();
        let results = apply(&actions, &key, store);
        Ok(results)
    }
}

} // verus!
