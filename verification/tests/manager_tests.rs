use base64::Engine;
use github_secrets_manager::errors::{AppError, StoreError};
use github_secrets_manager::model::{ExistingSecret, PublicKeyResponse, Secret, SecretStatus};
use github_secrets_manager::orchestrator::{apply, ActionKind, SecretStore};
use github_secrets_manager::reconcile::reconcile;
use github_secrets_manager::secrets_manager::SecretsManager;

fn desired(name: &str, value: &str) -> Secret {
    Secret { name: name.to_string(), value: value.to_string(), status: None }
}

fn existing(name: &str) -> ExistingSecret {
    ExistingSecret {
        name: name.to_string(),
        created_at: "2024-01-01T00:00:00Z".to_string(),
        updated_at: "2024-01-02T00:00:00Z".to_string(),
    }
}

/// A store that records every call and can be told to fail one upsert.
struct StubStore {
    upserts: Vec<(String, String, String)>,
    deletes: Vec<String>,
    fail_upsert_of: Option<String>,
}

impl StubStore {
    fn succeeding() -> StubStore {
        StubStore { upserts: vec![], deletes: vec![], fail_upsert_of: None }
    }

    fn failing_upsert_of(name: &str) -> StubStore {
        StubStore { upserts: vec![], deletes: vec![], fail_upsert_of: Some(name.to_string()) }
    }
}

impl SecretStore for StubStore {
    fn upsert(
        &mut self,
        name: &String,
        ciphertext_b64: &String,
        key_id: &String,
    ) -> Result<(), StoreError> {
        self.upserts.push((name.clone(), ciphertext_b64.clone(), key_id.clone()));
        if self.fail_upsert_of.as_ref() == Some(name) {
            Err(StoreError { status: 500, message: "simulated server error".to_string() })
        } else {
            Ok(())
        }
    }

    fn delete(&mut self, name: &String) -> Result<(), StoreError> {
        self.deletes.push(name.clone());
        Ok(())
    }
}

fn public_key_response() -> PublicKeyResponse {
    sodiumoxide::init().unwrap();
    let (pk, _sk) = sodiumoxide::crypto::box_::gen_keypair();
    PublicKeyResponse {
        key_id: "key-1".to_string(),
        key: base64::engine::general_purpose::STANDARD.encode(pk.0),
    }
}

#[test]
fn end_to_end_run_applies_every_action_once() {
    let manager = SecretsManager::new(
        vec![desired("A", "1"), desired("B", "2")],
        vec![existing("B"), existing("C")],
        public_key_response(),
    );
    let mut store = StubStore::succeeding();
    let results = manager.manage_secrets(&mut store).unwrap();

    assert_eq!(results.len(), 3);
    assert_eq!(results[0].name, "A");
    assert_eq!(results[0].kind, ActionKind::Create);
    assert!(results[0].outcome.is_ok());
    assert_eq!(results[1].name, "B");
    assert_eq!(results[1].kind, ActionKind::Update);
    assert!(results[1].outcome.is_ok());
    assert_eq!(results[2].name, "C");
    assert_eq!(results[2].kind, ActionKind::Delete);
    assert!(results[2].outcome.is_ok());

    assert_eq!(store.upserts.len(), 2);
    assert_eq!(store.upserts[0].0, "A");
    assert_eq!(store.upserts[1].0, "B");
    assert_eq!(store.deletes, vec!["C".to_string()]);
    for (_, ciphertext, key_id) in &store.upserts {
        assert_eq!(key_id, "key-1");
        // One plaintext byte seals to 49 bytes; padded base64 takes 68 chars,
        // so the plaintext never crosses the wire as it is.
        assert_eq!(ciphertext.len(), 68);
        assert_ne!(ciphertext, "1");
        assert_ne!(ciphertext, "2");
    }
}

#[test]
fn partial_failure_still_attempts_every_action() {
    let manager = SecretsManager::new(
        vec![desired("A", "1"), desired("B", "2")],
        vec![existing("B"), existing("C")],
        public_key_response(),
    );
    let mut store = StubStore::failing_upsert_of("B");
    let results = manager.manage_secrets(&mut store).unwrap();

    assert_eq!(results.len(), 3);
    assert!(results[0].outcome.is_ok());
    assert_eq!(results[1].name, "B");
    match &results[1].outcome {
        Err(AppError::RemoteError { status, message }) => {
            assert_eq!(*status, 500);
            assert_eq!(message, "simulated server error");
        },
        other => panic!("expected a remote error for B, got {:?}", other.is_ok()),
    }
    assert!(results[2].outcome.is_ok());
    let errors = results.iter().filter(|r| r.outcome.is_err()).count();
    assert_eq!(errors, 1);
    assert_eq!(store.deletes, vec!["C".to_string()]);
}

#[test]
fn apply_orders_upserts_before_deletes() {
    sodiumoxide::init().unwrap();
    let (pk, _sk) = sodiumoxide::crypto::box_::gen_keypair();
    let key = github_secrets_manager::model::RecipientKey {
        key_id: "key-1".to_string(),
        key_bytes: pk.0.to_vec(),
    };
    let actions = reconcile(
        &vec![desired("A", "1"), desired("B", "2")],
        &vec![existing("B"), existing("C")],
    );
    let mut store = StubStore::succeeding();
    let results = apply(&actions, &key, &mut store);
    assert_eq!(results.len(), 3);
    assert_eq!(results[0].kind, ActionKind::Create);
    assert_eq!(results[1].kind, ActionKind::Update);
    assert_eq!(results[2].kind, ActionKind::Delete);
}

#[test]
fn invalid_published_key_aborts_before_any_action() {
    let manager = SecretsManager::new(
        vec![desired("A", "1")],
        vec![existing("B")],
        PublicKeyResponse { key_id: "key-1".to_string(), key: "not base64 at all".to_string() },
    );
    let mut store = StubStore::succeeding();
    let r = manager.manage_secrets(&mut store);
    assert!(matches!(r, Err(AppError::InvalidKey)));
    assert!(store.upserts.is_empty());
    assert!(store.deletes.is_empty());
}

#[test]
fn manager_annotates_statuses_and_appends_deleted() {
    let manager = SecretsManager::new(
        vec![desired("A", "1"), desired("B", "2")],
        vec![existing("B"), existing("C")],
        public_key_response(),
    );
    let secrets = manager.get_secrets();
    assert_eq!(secrets.len(), 3);
    assert_eq!(secrets[0].name, "A");
    assert_eq!(secrets[0].status, Some(SecretStatus::New));
    assert_eq!(secrets[1].name, "B");
    assert_eq!(secrets[1].status, Some(SecretStatus::Existing));
    assert_eq!(secrets[2].name, "C");
    assert_eq!(secrets[2].status, Some(SecretStatus::Deleted));
    assert_eq!(secrets[2].value, "");
}

#[test]
fn secret_details_redact_deleted_values() {
    let manager = SecretsManager::new(
        vec![desired("A", "1")],
        vec![existing("C")],
        public_key_response(),
    );
    let details_a = manager.get_secret_details(0).unwrap();
    assert_eq!(details_a.name, "A");
    assert_eq!(details_a.value, "1");
    assert_eq!(details_a.status, SecretStatus::New);
    assert_eq!(details_a.created_at, "N/A");
    assert_eq!(details_a.updated_at, "N/A");

    let details_c = manager.get_secret_details(1).unwrap();
    assert_eq!(details_c.name, "C");
    assert_eq!(details_c.value, "Unknown (Deleted)");
    assert_eq!(details_c.status, SecretStatus::Deleted);
    assert_eq!(details_c.created_at, "2024-01-01T00:00:00Z");
    assert_eq!(details_c.updated_at, "2024-01-02T00:00:00Z");

    assert!(manager.get_secret_details(2).is_none());
}
