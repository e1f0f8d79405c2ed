//! The laws of the account service, each proved from the contracts the
//! operations themselves state: what a created account looks like when read
//! back, why a second create with the same email conflicts, what an update
//! leaves behind, and why a delete is idempotent in effect.
use vstd::prelude::*;
use crate::crypto::bcrypt_verify_of;
use crate::ids::AccountId;
use crate::model::Account;
use crate::model::StoredAccount;
use crate::store::email_count;
use crate::store::find_email;
use crate::store::has_email;
use crate::store::has_id;
use crate::store::id_index;
use crate::store::lemma_email_count_push;
use crate::store::lemma_find_email_push;
use crate::store::lemma_id_index_unique;
use crate::store::lemma_no_email_count_zero;
use crate::store::unique_ids;

verus! {

/// Law: a successful create followed by a lookup under the same email finds
/// exactly the created record: the submitted username and email, and a
/// stored hash that authenticates the submitted password. The hypotheses
/// are what `create_user` guarantees of the record it returns on success,
/// and the conclusions are what `get_user_using_email` then returns on the
/// grown store.
pub proof fn lemma_create_then_get_by_email(
    s0: Seq<StoredAccount>,
    rec: StoredAccount,
    input: Account,
)
    requires
        input.email@.len() > 0,
        !has_email(s0, input.email@),
        rec.email@ == input.email@,
        rec.username@ == input.username@,
        bcrypt_verify_of(input.password@, rec.password@) == Some(true),
    ensures
        has_email(s0.push(rec), input.email@),
        find_email(s0.push(rec), input.email@) == Some(rec),
        find_email(s0.push(rec), input.email@).unwrap().username@ == input.username@,
        find_email(s0.push(rec), input.email@).unwrap().email@ == input.email@,
        bcrypt_verify_of(
            input.password@,
            find_email(s0.push(rec), input.email@).unwrap().password@,
        ) == Some(true),
{
    lemma_find_email_push(s0, rec, input.email@);
}

/// Law: after a create is accepted for an email no record carried, exactly
/// one record carries that email, so a second create with the same email is
/// rejected as a conflict (`create_user` rejects exactly when `has_email`
/// holds of the store it sees) and leaves the count at one.
pub proof fn lemma_second_create_conflicts(s0: Seq<StoredAccount>, rec: StoredAccount, e: Seq<char>)
    requires
        !has_email(s0, e),
        rec.email@ == e,
    ensures
        has_email(s0.push(rec), e),
        email_count(s0.push(rec), e) == 1,
{
    lemma_find_email_push(s0, rec, e);
    lemma_no_email_count_zero(s0, e);
    lemma_email_count_push(s0, rec, e);
}

/// Law: after an update replaces the record at an identifier, a lookup by
/// that identifier finds the replacement, under the original identifier.
/// The hypotheses are what `update_user` guarantees on success; the
/// conclusions are what `get_user` then returns.
pub proof fn lemma_update_then_get(s0: Seq<StoredAccount>, key: AccountId, rec: StoredAccount)
    requires
        unique_ids(s0),
        has_id(s0, key),
        rec.id == key,
    ensures
        ({
            let s1 = s0.update(id_index(s0, key), rec);
            &&& has_id(s1, key)
            &&& unique_ids(s1)
            &&& id_index(s1, key) == id_index(s0, key)
            &&& s1[id_index(s1, key)] == rec
        }),
{
    let k = id_index(s0, key);
    assert(0 <= k < s0.len() && s0[k].id == key);
    let s1 = s0.update(k, rec);
    assert(forall|p: int| 0 <= p < s1.len() ==> (#[trigger] s1[p]).id == s0[p].id);
    assert(unique_ids(s1)) by {
        assert forall|i: int, j: int| 0 <= i < j < s1.len() implies (#[trigger] s1[i]).id != (
        #[trigger] s1[j]).id by {
            assert(s1[i].id == s0[i].id && s1[j].id == s0[j].id);
        }
    }
    assert(s1[k] == rec);
    lemma_id_index_unique(s1, key, k);
}

/// Law: deleting an identifier removes it for good, so a second delete of
/// the same identifier finds nothing and `delete_user` reports not-found
/// rather than faulting.
pub proof fn lemma_delete_is_idempotent(s0: Seq<StoredAccount>, key: AccountId)
    requires
        unique_ids(s0),
        has_id(s0, key),
    ensures
        !has_id(s0.remove(id_index(s0, key)), key),
{
    let k = id_index(s0, key);
    assert(0 <= k < s0.len() && s0[k].id == key);
    let s1 = s0.remove(k);
    if has_id(s1, key) {
        let p = choose|p: int| 0 <= p < s1.len() && (#[trigger] s1[p]).id == key;
        if p < k {
            assert(s1[p] == s0[p]);
            lemma_id_index_unique(s0, key, p);
        } else {
            assert(s1[p] == s0[p + 1]);
            lemma_id_index_unique(s0, key, p + 1);
        }
        assert(false);
    }
}

/// Law: after a successful create, a login with the created email and the
/// submitted password authenticates: the stored hash of the found record
/// verifies that password, which is the case in which `login_user` returns
/// success.
pub proof fn lemma_create_then_login_succeeds(
    s0: Seq<StoredAccount>,
    rec: StoredAccount,
    input: Account,
)
    requires
        input.email@.len() > 0,
        !has_email(s0, input.email@),
        rec.email@ == input.email@,
        bcrypt_verify_of(input.password@, rec.password@) == Some(true),
    ensures
        has_email(s0.push(rec), input.email@),
        bcrypt_verify_of(
            input.password@,
            find_email(s0.push(rec), input.email@).unwrap().password@,
        ) == Some(true),
{
    lemma_find_email_push(s0, rec, input.email@);
}

} // verus!
