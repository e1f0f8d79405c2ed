//! The account record: the sole entity the service manages.
use vstd::prelude::*;
use crate::ids::AccountId;

verus! {

/// An account as a caller submits it: no identifier, since the store assigns
/// one on creation.
#[derive(Debug)]
pub struct Account {
    pub username: String,
    pub email: String,
    pub password: String,
}

/// An account as the store holds it: the submitted fields plus the
/// server-assigned identifier. The password field holds the one-way hash of
/// the submitted password, never the submitted value itself.
#[derive(Debug)]
pub struct StoredAccount {
    pub id: AccountId,
    pub username: String,
    pub email: String,
    pub password: String,
}

impl Account {
    /// A field-for-field copy.
    pub fn duplicate(&self) -> (r: Account)
        ensures
            r == *self,
    {
        Account {
            username: self.username.clone(),
            email: self.email.clone(),
            password: self.password.clone(),
        }
    }
}

impl StoredAccount {
    /// A field-for-field copy.
    pub fn duplicate(&self) -> (r: StoredAccount)
        ensures
            r == *self,
    {
        StoredAccount {
            id: self.id,
            username: self.username.clone(),
            email: self.email.clone(),
            password: self.password.clone(),
        }
    }
}

} // verus!
