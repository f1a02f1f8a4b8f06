//! The data model: desired secrets, references to secrets already on the
//! store, the store's published public key, and the per-secret details the
//! viewer renders.

use vstd::prelude::*;

verus! {

/// Lifecycle status of a secret relative to the remote store, derived once
/// per run from the desired and existing sets.
#[derive(Clone, Copy, PartialEq, Eq, Structural, Debug)]
pub enum SecretStatus {
    /// Desired but not yet on the store.
    New,
    /// Desired and already on the store.
    Existing,
    /// On the store but no longer desired.
    Deleted,
}

/// A secret as the caller supplies it: a case-sensitive, non-empty name and
/// a plaintext value. The status is `None` until a run derives it.
pub struct Secret {
    pub name: String,
    pub value: String,
    pub status: Option<SecretStatus>,
}

/// Spec-level image of a `Secret`.
pub ghost struct SecretView {
    pub name: Seq<char>,
    pub value: Seq<char>,
    pub status: Option<SecretStatus>,
}

impl View for Secret {
    type V = SecretView;

    open spec fn view(&self) -> SecretView {
        SecretView { name: self.name@, value: self.value@, status: self.status }
    }
}

impl DeepView for Secret {
    type V = SecretView;

    open spec fn deep_view(&self) -> SecretView {
        self.view()
    }
}

impl Clone for Secret {
    fn clone(&self) -> (r: Secret)
        ensures
            r@ == self@,
    {
        Secret { name: self.name.clone(), value: self.value.clone(), status: self.status }
    }
}

/// A reference to a secret already registered on the remote store. The store
/// never returns plaintext or ciphertext, only the name and timestamps.
pub struct ExistingSecret {
    pub name: String,
    pub created_at: String,
    pub updated_at: String,
}

/// Spec-level image of an `ExistingSecret`.
pub ghost struct ExistingSecretView {
    pub name: Seq<char>,
    pub created_at: Seq<char>,
    pub updated_at: Seq<char>,
}

impl View for ExistingSecret {
    type V = ExistingSecretView;

    open spec fn view(&self) -> ExistingSecretView {
        ExistingSecretView {
            name: self.name@,
            created_at: self.created_at@,
            updated_at: self.updated_at@,
        }
    }
}

impl DeepView for ExistingSecret {
    type V = ExistingSecretView;

    open spec fn deep_view(&self) -> ExistingSecretView {
        self.view()
    }
}

/// The store's published encryption key as the remote API serves it: an
/// opaque key identifier and base64-encoded key material.
pub struct PublicKeyResponse {
    pub key_id: String,
    pub key: String,
}

/// Spec-level image of a `PublicKeyResponse`.
pub ghost struct PublicKeyResponseView {
    pub key_id: Seq<char>,
    pub key: Seq<char>,
}

impl View for PublicKeyResponse {
    type V = PublicKeyResponseView;

    open spec fn view(&self) -> PublicKeyResponseView {
        PublicKeyResponseView { key_id: self.key_id@, key: self.key@ }
    }
}

/// The decoded recipient key: the key identifier and the raw key material.
/// Only a key with exactly 32 bytes of material can seal values; see
/// `sealing::KEY_BYTES_LEN` and `sealing::seal`.
pub struct RecipientKey {
    pub key_id: String,
    pub key_bytes: Vec<u8>,
}

/// Spec-level image of a `RecipientKey`.
pub ghost struct RecipientKeyView {
    pub key_id: Seq<char>,
    pub key_bytes: Seq<u8>,
}

impl View for RecipientKey {
    type V = RecipientKeyView;

    open spec fn view(&self) -> RecipientKeyView {
        RecipientKeyView { key_id: self.key_id@, key_bytes: self.key_bytes@ }
    }
}

/// Everything the viewer renders about one secret. For a secret that is to
/// be deleted the plaintext value is unknown and a redaction is shown; the
/// timestamps come from the matching existing secret, if any.
pub struct SecretDetails {
    pub name: String,
    pub value: String,
    pub created_at: String,
    pub updated_at: String,
    pub status: SecretStatus,
}

/// Spec-level image of a `SecretDetails`.
pub ghost struct SecretDetailsView {
    pub name: Seq<char>,
    pub value: Seq<char>,
    pub created_at: Seq<char>,
    pub updated_at: Seq<char>,
    pub status: SecretStatus,
}

impl View for SecretDetails {
    type V = SecretDetailsView;

    open spec fn view(&self) -> SecretDetailsView {
        SecretDetailsView {
            name: self.name@,
            value: self.value@,
            created_at: self.created_at@,
            updated_at: self.updated_at@,
            status: self.status,
        }
    }
}

} // verus!
