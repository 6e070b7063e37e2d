//! Plain-value snapshots handed in from the external data source.
//!
//! Timestamps are carried as milliseconds; the caller that decodes the
//! source's wire format converts its calendar dates before handing data in.

use vstd::prelude::*;

verus! {

/// The version of a secret.
pub type SecretVersion = u16;

/// Metadata about a secret.
pub struct SecretMetadata {
    /// The ID of the secret.
    pub id: String,
    /// The title of the secret.
    pub title: String,
    /// The version of the secret.
    pub version: SecretVersion,
    /// The category of the secret.
    pub category: String,
    /// The creation time of the secret, in milliseconds.
    pub created_at_ms: u64,
    /// The update time of the secret, in milliseconds.
    pub updated_at_ms: u64,
}

impl Clone for SecretMetadata {
    fn clone(&self) -> (r: Self)
        ensures
            r == *self,
    {
        SecretMetadata {
            id: self.id.clone(),
            title: self.title.clone(),
            version: self.version,
            category: self.category.clone(),
            created_at_ms: self.created_at_ms,
            updated_at_ms: self.updated_at_ms,
        }
    }
}

/// A full secret: its metadata and its fields.
pub struct Secret {
    /// Metadata of the secret.
    pub metadata: SecretMetadata,
    /// The fields in the secret.
    pub fields: Vec<SecretField>,
}

/// A field in a secret.
pub struct SecretField {
    /// The ID of the field.
    pub id: String,
    /// The source reference of the field.
    /// Might be empty - or even broken - in some cases.
    pub reference: String,
    /// The value of the field.
    /// Sometimes not present in the fetched data.
    pub value: Option<String>,
}

impl Clone for SecretField {
    fn clone(&self) -> (r: Self)
        ensures
            r == *self,
    {
        SecretField {
            id: self.id.clone(),
            reference: self.reference.clone(),
            value: match &self.value {
                Some(v) => Some(v.clone()),
                None => None,
            },
        }
    }
}

} // verus!
