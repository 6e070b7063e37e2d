//! Identifiers addressing entities at the external data source.

use vstd::prelude::*;
use vstd::string::*;

verus! {

/// The ID of an account.
pub struct Account(String);

impl Account {
    /// The account ID as a sequence of characters.
    pub closed spec fn spec_account(self) -> Seq<char> {
        self.0@
    }

    /// Creates a new account ID.
    pub fn new(account: &str) -> (r: Account)
        ensures
            r.spec_account() == account@,
    {
        Account(account.to_owned())
    }

    /// The account ID.
    pub fn account(&self) -> (r: &str)
        ensures
            r@ == self.spec_account(),
    {
        self.0.as_str()
    }
}

impl Clone for Account {
    fn clone(&self) -> (r: Self)
        ensures
            r == *self,
    {
        Account(self.0.clone())
    }
}

/// The ID of a vault, under an account.
pub struct Vault(Account, String);

impl Vault {
    /// The owning account ID as a sequence of characters.
    pub closed spec fn spec_account(self) -> Seq<char> {
        self.0.spec_account()
    }

    /// The vault ID as a sequence of characters.
    pub closed spec fn spec_vault(self) -> Seq<char> {
        self.1@
    }

    /// Creates a new vault ID.
    pub fn new(account: &Account, vault: &str) -> (r: Vault)
        ensures
            r.spec_account() == account.spec_account(),
            r.spec_vault() == vault@,
    {
        Vault(account.clone(), vault.to_owned())
    }

    /// The account ID.
    pub fn account(&self) -> (r: &str)
        ensures
            r@ == self.spec_account(),
    {
        self.0.account()
    }

    /// The vault ID.
    pub fn vault(&self) -> (r: &str)
        ensures
            r@ == self.spec_vault(),
    {
        self.1.as_str()
    }
}

impl Clone for Vault {
    fn clone(&self) -> (r: Self)
        ensures
            r == *self,
    {
        Vault(self.0.clone(), self.1.clone())
    }
}

/// The ID of a secret, under a vault.
pub struct Secret(Vault, String);

impl Secret {
    /// The owning account ID as a sequence of characters.
    pub closed spec fn spec_account(self) -> Seq<char> {
        self.0.spec_account()
    }

    /// The owning vault ID as a sequence of characters.
    pub closed spec fn spec_vault(self) -> Seq<char> {
        self.0.spec_vault()
    }

    /// The secret ID as a sequence of characters.
    pub closed spec fn spec_secret(self) -> Seq<char> {
        self.1@
    }

    /// Creates a new secret ID.
    pub fn new(vault: &Vault, secret: &str) -> (r: Secret)
        ensures
            r.spec_account() == vault.spec_account(),
            r.spec_vault() == vault.spec_vault(),
            r.spec_secret() == secret@,
    {
        Secret(vault.clone(), secret.to_owned())
    }

    /// The account ID.
    pub fn account(&self) -> (r: &str)
        ensures
            r@ == self.spec_account(),
    {
        self.0.account()
    }

    /// The vault ID.
    pub fn vault(&self) -> (r: &str)
        ensures
            r@ == self.spec_vault(),
    {
        self.0.vault()
    }

    /// The secret ID.
    pub fn secret(&self) -> (r: &str)
        ensures
            r@ == self.spec_secret(),
    {
        self.1.as_str()
    }
}

impl Clone for Secret {
    fn clone(&self) -> (r: Self)
        ensures
            r == *self,
    {
        Secret(self.0.clone(), self.1.clone())
    }
}

} // verus!
