//! The account service: request validation, the email-uniqueness policy,
//! credential verification, and the mapping of every store outcome to a
//! caller-visible result. Each operation validates its input before any
//! store call, and every store outcome is mapped deterministically.
use vstd::prelude::*;
use crate::crypto::bcrypt_verify_of;
use crate::crypto::hash_password;
use crate::crypto::verify_password;
use crate::errors::ServiceError;
use crate::ids::id_wf;
use crate::ids::parse_id;
use crate::ids::spec_parsed_id;
use crate::ids::valid_id_string;
use crate::model::Account;
use crate::model::StoredAccount;
use crate::store::AccountStore;
use crate::store::find_email;
use crate::store::has_email;
use crate::store::has_id;
use crate::store::id_index;

verus! {

/// The create-time admission decision, given whether a record with the
/// submitted email already exists: an empty email is rejected as invalid,
/// a taken email as a conflict, and anything else is admitted.
pub fn create_precheck(email: &str, exists: bool) -> (r: Result<(), ServiceError>)
    ensures
        email@.len() == 0 ==> r == Err::<(), ServiceError>(ServiceError::Validation),
        email@.len() > 0 && exists ==> r == Err::<(), ServiceError>(ServiceError::Conflict),
        email@.len() > 0 && !exists ==> r is Ok,
{
    if email.is_empty() {
        Err(ServiceError::Validation)
    } else if exists {
        Err(ServiceError::Conflict)
    } else {
        Ok(())
    }
}

/// The outcome of an update or delete, decided from the store's reported
/// match or deletion count: one affected document means the operation
/// applied, none means no record carried the identifier.
pub fn count_outcome(count: u64) -> (r: Result<(), ServiceError>)
    ensures
        count == 1 ==> r is Ok,
        count != 1 ==> r == Err::<(), ServiceError>(ServiceError::NotFound),
{
    if count == 1 {
        Ok(())
    } else {
        Err(ServiceError::NotFound)
    }
}

/// The login outcome, decided from what credential verification reported:
/// a match authenticates, a mismatch is unauthorized, and a verification
/// fault (a malformed stored hash) is an internal error.
pub fn login_verdict(outcome: Option<bool>) -> (r: Result<(), ServiceError>)
    ensures
        outcome == Some(true) ==> r is Ok,
        outcome == Some(false) ==> r == Err::<(), ServiceError>(ServiceError::Unauthorized),
        outcome is None ==> r == Err::<(), ServiceError>(ServiceError::Internal),
{
    match outcome {
        Some(true) => Ok(()),
        Some(false) => Err(ServiceError::Unauthorized),
        None => Err(ServiceError::Internal),
    }
}

/// Creates an account from validated input and an already-computed password
/// hash. Succeeds exactly when the email is non-empty and not yet taken; the
/// new record then carries the submitted username and email, the given hash,
/// and a fresh identifier.
pub fn create_user_with_hash(store: &mut AccountStore, input: &Account, hashed: String) -> (r:
    Result<StoredAccount, ServiceError>)
    requires
        old(store).wf(),
        old(store).next_id < u64::MAX,
    ensures
        final(store).wf(),
        input.email@.len() == 0 ==> r == Err::<StoredAccount, ServiceError>(
            ServiceError::Validation,
        ) && final(store).accounts@ == old(store).accounts@,
        input.email@.len() > 0 && has_email(old(store).accounts@, input.email@) ==> r == Err::<
            StoredAccount,
            ServiceError,
        >(ServiceError::Conflict) && final(store).accounts@ == old(store).accounts@,
        input.email@.len() > 0 && !has_email(old(store).accounts@, input.email@) ==> r is Ok && ({
            let rec = r.unwrap();
            &&& final(store).accounts@ == old(store).accounts@.push(rec)
            &&& rec.username@ == input.username@
            &&& rec.email@ == input.email@
            &&& rec.password@ == hashed@
            &&& id_wf(rec.id)
            &&& !has_id(old(store).accounts@, rec.id)
        }),
{
    let exists = store.find_by_email(input.email.as_str()).is_some();
    match create_precheck(input.email.as_str(), exists) {
        Err(e) => Err(e),
        Ok(()) => {
            let doc = Account {
                username: input.username.clone(),
                email: input.email.clone(),
                password: hashed,
            };
            let rec = store.create(doc);
            Ok(rec)
        },
    }
}

/// Creates an account: rejects an empty email before any store access,
/// rejects an already-taken email as a conflict, and otherwise persists the
/// submitted username and email together with a salted one-way hash of the
/// submitted password, under a fresh identifier. The store is unchanged on
/// every failure.
pub fn create_user(store: &mut AccountStore, input: &Account) -> (r: Result<
    StoredAccount,
    ServiceError,
>)
    requires
        old(store).wf(),
        old(store).next_id < u64::MAX,
    ensures
        final(store).wf(),
        input.email@.len() == 0 ==> r == Err::<StoredAccount, ServiceError>(
            ServiceError::Validation,
        ) && final(store).accounts@ == old(store).accounts@,
        input.email@.len() > 0 && has_email(old(store).accounts@, input.email@) ==> r == Err::<
            StoredAccount,
            ServiceError,
        >(ServiceError::Conflict) && final(store).accounts@ == old(store).accounts@,
        input.email@.len() > 0 && !has_email(old(store).accounts@, input.email@) ==> match r {
            Ok(rec) => {
                &&& final(store).accounts@ == old(store).accounts@.push(rec)
                &&& rec.username@ == input.username@
                &&& rec.email@ == input.email@
                &&& bcrypt_verify_of(input.password@, rec.password@) == Some(true)
                &&& id_wf(rec.id)
                &&& !has_id(old(store).accounts@, rec.id)
            },
            Err(e) => e == ServiceError::Internal && final(store).accounts@ == old(store).accounts@,
        },
{
    if input.email.as_str().is_empty() {
        return Err(ServiceError::Validation);
    }
    let existing = store.find_by_email(input.email.as_str());
    if existing.is_some() {
        return Err(ServiceError::Conflict);
    }
    match hash_password(input.password.as_str()) {
        Err(_) => Err(ServiceError::Internal),
        Ok(h) => create_user_with_hash(store, input, h),
    }
}

/// Looks an account up by the string form of its identifier. An empty or
/// malformed identifier is rejected as invalid; a well-formed one either
/// finds the record carrying it or reports that none does.
pub fn get_user<'a>(store: &'a AccountStore, id: &str) -> (r: Result<
    &'a StoredAccount,
    ServiceError,
>)
    requires
        store.wf(),
    ensures
        !valid_id_string(id@) ==> r == Err::<&'a StoredAccount, ServiceError>(
            ServiceError::Validation,
        ),
        valid_id_string(id@) && !has_id(store.accounts@, spec_parsed_id(id@)) ==> r == Err::<
            &'a StoredAccount,
            ServiceError,
        >(ServiceError::NotFound),
        valid_id_string(id@) && has_id(store.accounts@, spec_parsed_id(id@)) ==> r is Ok && *r.unwrap()
            == store.accounts@[id_index(store.accounts@, spec_parsed_id(id@))],
{
    match parse_id(id) {
        None => Err(ServiceError::Validation),
        Some(key) => match store.find_by_id(&key) {
            Some(rec) => Ok(rec),
            None => Err(ServiceError::NotFound),
        },
    }
}

/// Looks an account up by email. An empty email is rejected as invalid;
/// otherwise the first record with exactly that email is returned, or
/// not-found when no record carries it.
pub fn get_user_using_email<'a>(store: &'a AccountStore, email: &str) -> (r: Result<
    &'a StoredAccount,
    ServiceError,
>)
    ensures
        email@.len() == 0 ==> r == Err::<&'a StoredAccount, ServiceError>(
            ServiceError::Validation,
        ),
        email@.len() > 0 && !has_email(store.accounts@, email@) ==> r == Err::<
            &'a StoredAccount,
            ServiceError,
        >(ServiceError::NotFound),
        email@.len() > 0 && has_email(store.accounts@, email@) ==> r is Ok && find_email(
            store.accounts@,
            email@,
        ) == Some(*r.unwrap()),
{
    if email.is_empty() {
        return Err(ServiceError::Validation);
    }
    match store.find_by_email(email) {
        Some(rec) => Ok(rec),
        None => Err(ServiceError::NotFound),
    }
}

/// Replaces the username, email and password of the record carrying the
/// given identifier, keeping the identifier itself; the new password is
/// stored as a salted one-way hash. A malformed identifier is rejected as
/// invalid; an unknown one reports not-found; on success the refreshed
/// record is re-fetched and returned. The store is unchanged on every
/// failure.
pub fn update_user(store: &mut AccountStore, id: &str, input: &Account) -> (r: Result<
    StoredAccount,
    ServiceError,
>)
    requires
        old(store).wf(),
    ensures
        final(store).wf(),
        final(store).next_id == old(store).next_id,
        !valid_id_string(id@) ==> r == Err::<StoredAccount, ServiceError>(ServiceError::Validation)
            && final(store).accounts@ == old(store).accounts@,
        valid_id_string(id@) && !has_id(old(store).accounts@, spec_parsed_id(id@)) ==> r == Err::<
            StoredAccount,
            ServiceError,
        >(ServiceError::NotFound) && final(store).accounts@ == old(store).accounts@,
        valid_id_string(id@) && has_id(old(store).accounts@, spec_parsed_id(id@)) ==> match r {
            Ok(rec) => {
                let key = spec_parsed_id(id@);
                let k = id_index(old(store).accounts@, key);
                &&& rec.id == key
                &&& rec.username@ == input.username@
                &&& rec.email@ == input.email@
                &&& bcrypt_verify_of(input.password@, rec.password@) == Some(true)
                &&& final(store).accounts@ == old(store).accounts@.update(k, rec)
            },
            Err(e) => e == ServiceError::Internal && final(store).accounts@ == old(store).accounts@,
        },
{
    let key = match parse_id(id) {
        None => {
            return Err(ServiceError::Validation);
        },
        Some(k) => k,
    };
    let exists = store.find_by_id(&key).is_some();
    if !exists {
        return Err(ServiceError::NotFound);
    }
    let hashed = match hash_password(input.password.as_str()) {
        Err(_) => {
            return Err(ServiceError::Internal);
        },
        Ok(h) => h,
    };
    let doc = Account {
        username: input.username.clone(),
        email: input.email.clone(),
        password: hashed,
    };
    let matched = store.update(&key, doc);
    if matched == 1 {
        proof {
            let news = store.accounts@;
            let k = id_index(old(store).accounts@, key);
            assert(news[k].id == key);
            assert(has_id(news, key));
            crate::store::lemma_id_index_unique(news, key, k);
        }
        match store.find_by_id(&key) {
            Some(rec) => {
                let out = rec.duplicate();
                Ok(out)
            },
            None => Err(ServiceError::Persistence),
        }
    } else {
        Err(ServiceError::NotFound)
    }
}

/// Deletes the record carrying the given identifier. A malformed identifier
/// is rejected as invalid; an unknown one reports not-found, so deleting the
/// same identifier twice is rejected the second time rather than faulting.
pub fn delete_user(store: &mut AccountStore, id: &str) -> (r: Result<(), ServiceError>)
    requires
        old(store).wf(),
    ensures
        final(store).wf(),
        final(store).next_id == old(store).next_id,
        !valid_id_string(id@) ==> r == Err::<(), ServiceError>(ServiceError::Validation) && final(store).accounts@ == old(store).accounts@,
        valid_id_string(id@) && !has_id(old(store).accounts@, spec_parsed_id(id@)) ==> r == Err::<
            (),
            ServiceError,
        >(ServiceError::NotFound) && final(store).accounts@ == old(store).accounts@,
        valid_id_string(id@) && has_id(old(store).accounts@, spec_parsed_id(id@)) ==> r is Ok && ({
            let key = spec_parsed_id(id@);
            let k = id_index(old(store).accounts@, key);
            &&& final(store).accounts@ == old(store).accounts@.remove(k)
            &&& !has_id(final(store).accounts@, key)
        }),
{
    let key = match parse_id(id) {
        None => {
            return Err(ServiceError::Validation);
        },
        Some(k) => k,
    };
    let deleted = store.delete(&key);
    if deleted == 1 {
        Ok(())
    } else {
        Err(ServiceError::NotFound)
    }
}

/// Returns every stored account, in store order.
pub fn get_all_users<'a>(store: &'a AccountStore) -> (r: &'a Vec<StoredAccount>)
    ensures
        r@ == store.accounts@,
{
    store.list_all()
}

/// Verifies a credential pair. An unknown email is a definite not-found,
/// never a fault; for a known email the submitted password is compared
/// against the stored hash, and a match authenticates, a mismatch is
/// unauthorized, and a malformed stored hash is an internal error.
pub fn login_user(store: &AccountStore, email: &str, password: &str) -> (r: Result<
    (),
    ServiceError,
>)
    ensures
        !has_email(store.accounts@, email@) ==> r == Err::<(), ServiceError>(
            ServiceError::NotFound,
        ),
        has_email(store.accounts@, email@) ==> ({
            let rec = find_email(store.accounts@, email@).unwrap();
            match bcrypt_verify_of(password@, rec.password@) {
                Some(true) => r is Ok,
                Some(false) => r == Err::<(), ServiceError>(ServiceError::Unauthorized),
                None => r == Err::<(), ServiceError>(ServiceError::Internal),
            }
        }),
{
    match store.find_by_email(email) {
        None => Err(ServiceError::NotFound),
        Some(rec) => match verify_password(password, rec.password.as_str()) {
            Ok(b) => login_verdict(Some(b)),
            Err(_) => login_verdict(None),
        },
    }
}

} // verus!
