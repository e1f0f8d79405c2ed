//! The account store: a document collection keyed by the server-assigned
//! identifier, with a secondary exact-match lookup by email. The store
//! enforces no uniqueness policy of its own; it faithfully reports match and
//! deletion counts so the service layer can tell "applied" from "not found".
use vstd::prelude::*;
use crate::ids::AccountId;
use crate::ids::id_wf;
use crate::ids::pow16;
use crate::model::Account;
use crate::model::StoredAccount;

verus! {

/// Whether some record in `s` carries identifier `id`.
pub open spec fn has_id(s: Seq<StoredAccount>, id: AccountId) -> bool {
    exists|i: int| 0 <= i < s.len() && (#[trigger] s[i]).id == id
}

/// The index of a record carrying `id`; meaningful only when `has_id` holds,
/// and then unique in a well-formed store.
pub open spec fn id_index(s: Seq<StoredAccount>, id: AccountId) -> int {
    choose|i: int| 0 <= i < s.len() && (#[trigger] s[i]).id == id
}

/// No two records in `s` carry the same identifier.
pub open spec fn unique_ids(s: Seq<StoredAccount>) -> bool {
    forall|i: int, j: int|
        0 <= i < j < s.len() ==> (#[trigger] s[i]).id != (#[trigger] s[j]).id
}

/// In a collection without duplicate identifiers, any index that carries
/// `id` is the index `id_index` denotes.
pub proof fn lemma_id_index_unique(s: Seq<StoredAccount>, id: AccountId, i: int)
    requires
        unique_ids(s),
        0 <= i < s.len(),
        s[i].id == id,
    ensures
        has_id(s, id),
        id_index(s, id) == i,
{
    assert(has_id(s, id));
    let k = id_index(s, id);
    assert(0 <= k < s.len() && s[k].id == id);
    if k < i {
        assert(s[k].id != s[i].id);
    } else if i < k {
        assert(s[i].id != s[k].id);
    }
}

/// Whether some record in `s` carries email `e` (exact, case-sensitive).
pub open spec fn has_email(s: Seq<StoredAccount>, e: Seq<char>) -> bool {
    exists|i: int| 0 <= i < s.len() && (#[trigger] s[i]).email@ == e
}

/// The first record in `s` whose email is exactly `e`, if any.
pub open spec fn find_email(s: Seq<StoredAccount>, e: Seq<char>) -> Option<StoredAccount>
    decreases s.len(),
{
    if s.len() == 0 {
        None
    } else if s[0].email@ == e {
        Some(s[0])
    } else {
        find_email(s.drop_first(), e)
    }
}

/// How many records in `s` carry email `e`.
pub open spec fn email_count(s: Seq<StoredAccount>, e: Seq<char>) -> nat
    decreases s.len(),
{
    if s.len() == 0 {
        0
    } else {
        email_count(s.drop_last(), e) + (if s.last().email@ == e {
            1nat
        } else {
            0nat
        })
    }
}

/// Appending a record whose email no existing record carries makes that
/// record the first (and only) match for its email.
pub proof fn lemma_find_email_push(s: Seq<StoredAccount>, rec: StoredAccount, e: Seq<char>)
    requires
        !has_email(s, e),
        rec.email@ == e,
    ensures
        has_email(s.push(rec), e),
        find_email(s.push(rec), e) == Some(rec),
    decreases s.len(),
{
    let t = s.push(rec);
    assert(t[s.len() as int] == rec);
    assert(has_email(t, e));
    if s.len() == 0 {
        assert(t[0] == rec);
    } else {
        assert(s[0].email@ != e);
        assert(t[0] == s[0]);
        assert(!has_email(s.drop_first(), e)) by {
            if has_email(s.drop_first(), e) {
                let i = choose|i: int|
                    0 <= i < s.drop_first().len() && (#[trigger] s.drop_first()[i]).email@ == e;
                assert(s[i + 1].email@ == e);
                assert(has_email(s, e));
            }
        }
        assert(t.drop_first() =~= s.drop_first().push(rec));
        lemma_find_email_push(s.drop_first(), rec, e);
        assert(find_email(t, e) == find_email(t.drop_first(), e));
    }
}

/// A collection with no match for `e` holds zero records with email `e`.
pub proof fn lemma_no_email_count_zero(s: Seq<StoredAccount>, e: Seq<char>)
    requires
        !has_email(s, e),
    ensures
        email_count(s, e) == 0,
    decreases s.len(),
{
    if s.len() > 0 {
        assert(s.last().email@ != e) by {
            assert(s[s.len() - 1] == s.last());
            if s.last().email@ == e {
                assert(has_email(s, e));
            }
        }
        assert(!has_email(s.drop_last(), e)) by {
            if has_email(s.drop_last(), e) {
                let i = choose|i: int|
                    0 <= i < s.drop_last().len() && (#[trigger] s.drop_last()[i]).email@ == e;
                assert(s[i].email@ == e);
                assert(has_email(s, e));
            }
        }
        lemma_no_email_count_zero(s.drop_last(), e);
    }
}

/// Appending a record raises the count for its email by one and leaves
/// every other email's count unchanged.
pub proof fn lemma_email_count_push(s: Seq<StoredAccount>, rec: StoredAccount, e: Seq<char>)
    ensures
        email_count(s.push(rec), e) == email_count(s, e) + (if rec.email@ == e {
            1nat
        } else {
            0nat
        }),
{
    let t = s.push(rec);
    assert(t.drop_last() =~= s);
    assert(t.last() == rec);
}

/// The account collection together with the counter from which fresh
/// identifiers are assigned.
pub struct AccountStore {
    pub accounts: Vec<StoredAccount>,
    pub next_id: u64,
}

impl AccountStore {
    /// Well-formedness: every stored identifier is well formed, lies below
    /// the assignment counter (so fresh identifiers never collide), and no
    /// two records share an identifier.
    pub open spec fn wf(self) -> bool {
        &&& forall|i: int|
            0 <= i < self.accounts@.len() ==> id_wf((#[trigger] self.accounts@[i]).id)
        &&& forall|i: int|
            0 <= i < self.accounts@.len() ==> (#[trigger] self.accounts@[i]).id.value < (
            self.next_id as u128)
        &&& unique_ids(self.accounts@)
    }

    /// An empty store.
    pub fn new() -> (r: AccountStore)
        ensures
            r.wf(),
            r.accounts@.len() == 0,
            r.next_id == 0,
    {
        AccountStore { accounts: Vec::new(), next_id: 0 }
    }

    /// Persists a submitted account under a freshly assigned identifier and
    /// returns the stored form. The new identifier collides with no record
    /// already in the store.
    pub fn create(&mut self, a: Account) -> (r: StoredAccount)
        requires
            old(self).wf(),
            old(self).next_id < u64::MAX,
        ensures
            final(self).wf(),
            r.id.value == old(self).next_id as u128,
            id_wf(r.id),
            !has_id(old(self).accounts@, r.id),
            r.username@ == a.username@,
            r.email@ == a.email@,
            r.password@ == a.password@,
            final(self).accounts@ == old(self).accounts@.push(r),
            final(self).next_id == old(self).next_id + 1,
    {
        let id = AccountId { value: self.next_id as u128 };
        proof {
            assert(pow16(24) == 0x1000000000000000000000000nat) by {
                reveal_with_fuel(pow16, 25);
            }
            assert(id_wf(id));
            assert(!has_id(self.accounts@, id));
        }
        let rec = StoredAccount {
            id,
            username: a.username,
            email: a.email,
            password: a.password,
        };
        let stored = rec.duplicate();
        self.accounts.push(stored);
        self.next_id = self.next_id + 1;
        proof {
            let s = self.accounts@;
            let olds = old(self).accounts@;
            assert forall|i: int| 0 <= i < s.len() implies id_wf((#[trigger] s[i]).id) && (
            s[i].id.value < self.next_id as u128) by {
                if i < olds.len() {
                    assert(s[i] == olds[i]);
                } else {
                    assert(s[i] == rec);
                }
            }
            assert forall|i: int, j: int| 0 <= i < j < s.len() implies (#[trigger] s[i]).id != (
            #[trigger] s[j]).id by {
                if j < olds.len() {
                    assert(s[i] == olds[i] && s[j] == olds[j]);
                } else {
                    assert(s[j] == rec);
                    assert(s[i] == olds[i]);
                }
            }
        }
        rec
    }

    /// Looks a record up by identifier; finds one exactly when the store
    /// holds that identifier.
    pub fn find_by_id(&self, id: &AccountId) -> (r: Option<&StoredAccount>)
        requires
            self.wf(),
        ensures
            r is Some <==> has_id(self.accounts@, *id),
            r is Some ==> *r.unwrap() == self.accounts@[id_index(self.accounts@, *id)]
                && r.unwrap().id == *id,
    {
        let n = self.accounts.len();
        let mut i: usize = 0;
        while i < n
            invariant
                self.wf(),
                n == self.accounts@.len(),
                0 <= i <= n,
                forall|j: int| 0 <= j < i ==> (#[trigger] self.accounts@[j]).id != *id,
            decreases n - i,
        {
            if self.accounts[i].id.value == id.value {
                proof {
                    assert(self.accounts@[i as int].id == *id);
                    assert(has_id(self.accounts@, *id));
                    let k = id_index(self.accounts@, *id);
                    assert(0 <= k < self.accounts@.len() && self.accounts@[k].id == *id);
                    assert(k == i as int);
                }
                return Some(&self.accounts[i]);
            }
            i = i + 1;
        }
        proof {
            assert(!has_id(self.accounts@, *id));
        }
        None
    }

    /// Looks the first record up whose email matches exactly; finds one
    /// exactly when some record carries that email.
    pub fn find_by_email(&self, email: &str) -> (r: Option<&StoredAccount>)
        ensures
            r is Some <==> has_email(self.accounts@, email@),
            r is Some ==> find_email(self.accounts@, email@) == Some(*r.unwrap()),
            r is Some ==> r.unwrap().email@ == email@,
    {
        let target: String = email.to_owned();
        let n = self.accounts.len();
        let mut i: usize = 0;
        proof {
            assert(self.accounts@.skip(0) =~= self.accounts@);
        }
        while i < n
            invariant
                target@ == email@,
                n == self.accounts@.len(),
                0 <= i <= n,
                forall|j: int| 0 <= j < i ==> (#[trigger] self.accounts@[j]).email@ != email@,
                find_email(self.accounts@, email@) == find_email(
                    self.accounts@.skip(i as int),
                    email@,
                ),
            decreases n - i,
        {
            let candidate: &StoredAccount = &self.accounts[i];
            if candidate.email.eq(&target) {
                proof {
                    let rest = self.accounts@.skip(i as int);
                    assert(rest[0] == self.accounts@[i as int]);
                    assert(find_email(rest, email@) == Some(self.accounts@[i as int]));
                    assert(has_email(self.accounts@, email@));
                }
                return Some(candidate);
            }
            proof {
                let rest = self.accounts@.skip(i as int);
                assert(rest[0] == self.accounts@[i as int]);
                assert(rest.drop_first() =~= self.accounts@.skip(i + 1));
            }
            i = i + 1;
        }
        proof {
            assert(self.accounts@.skip(n as int) =~= Seq::<StoredAccount>::empty());
            assert(!has_email(self.accounts@, email@));
        }
        None
    }

    /// Replaces every field but the identifier of the record carrying `id`,
    /// and reports how many records matched: 1 when the identifier was
    /// present, 0 when it was not (and then the store is unchanged).
    pub fn update(&mut self, id: &AccountId, a: Account) -> (matched: usize)
        requires
            old(self).wf(),
        ensures
            final(self).wf(),
            final(self).next_id == old(self).next_id,
            matched <= 1,
            (matched == 1) <==> has_id(old(self).accounts@, *id),
            matched == 0 ==> final(self).accounts@ == old(self).accounts@,
            matched == 1 ==> {
                let k = id_index(old(self).accounts@, *id);
                &&& 0 <= k < old(self).accounts@.len()
                &&& old(self).accounts@[k].id == *id
                &&& final(self).accounts@ == old(self).accounts@.update(
                    k,
                    (StoredAccount {
                        id: *id,
                        username: a.username,
                        email: a.email,
                        password: a.password,
                    }),
                )
            },
    {
        let n = self.accounts.len();
        let mut i: usize = 0;
        while i < n
            invariant
                self.wf(),
                self.accounts@ == old(self).accounts@,
                self.next_id == old(self).next_id,
                n == self.accounts@.len(),
                0 <= i <= n,
                forall|j: int| 0 <= j < i ==> (#[trigger] self.accounts@[j]).id != *id,
            decreases n - i,
        {
            if self.accounts[i].id.value == id.value {
                proof {
                    assert(self.accounts@[i as int].id == *id);
                    assert(has_id(self.accounts@, *id));
                    let k = id_index(self.accounts@, *id);
                    assert(0 <= k < self.accounts@.len() && self.accounts@[k].id == *id);
                    assert(k == i as int);
                }
                let replacement = StoredAccount {
                    id: AccountId { value: id.value },
                    username: a.username,
                    email: a.email,
                    password: a.password,
                };
                self.accounts.set(i, replacement);
                proof {
                    let s = self.accounts@;
                    let olds = old(self).accounts@;
                    assert forall|p: int| 0 <= p < s.len() implies id_wf((#[trigger] s[p]).id)
                        && (s[p].id.value < self.next_id as u128) by {
                        if p != i as int {
                            assert(s[p] == olds[p]);
                        } else {
                            assert(s[p].id == olds[p].id);
                        }
                    }
                    assert forall|p: int, q: int| 0 <= p < q < s.len() implies (
                    #[trigger] s[p]).id != (#[trigger] s[q]).id by {
                        assert(s[p].id == olds[p].id);
                        assert(s[q].id == olds[q].id);
                    }
                }
                return 1;
            }
            i = i + 1;
        }
        proof {
            assert(!has_id(self.accounts@, *id));
        }
        0
    }

    /// Removes the record carrying `id` and reports how many records were
    /// deleted: 1 when the identifier was present, 0 when it was not (and
    /// then the store is unchanged).
    pub fn delete(&mut self, id: &AccountId) -> (deleted: usize)
        requires
            old(self).wf(),
        ensures
            final(self).wf(),
            final(self).next_id == old(self).next_id,
            deleted <= 1,
            (deleted == 1) <==> has_id(old(self).accounts@, *id),
            deleted == 0 ==> final(self).accounts@ == old(self).accounts@,
            deleted == 1 ==> {
                let k = id_index(old(self).accounts@, *id);
                &&& 0 <= k < old(self).accounts@.len()
                &&& old(self).accounts@[k].id == *id
                &&& final(self).accounts@ == old(self).accounts@.remove(k)
                &&& !has_id(final(self).accounts@, *id)
            },
    {
        let n = self.accounts.len();
        let mut i: usize = 0;
        while i < n
            invariant
                self.wf(),
                self.accounts@ == old(self).accounts@,
                self.next_id == old(self).next_id,
                n == self.accounts@.len(),
                0 <= i <= n,
                forall|j: int| 0 <= j < i ==> (#[trigger] self.accounts@[j]).id != *id,
            decreases n - i,
        {
            if self.accounts[i].id.value == id.value {
                proof {
                    assert(self.accounts@[i as int].id == *id);
                    assert(has_id(self.accounts@, *id));
                    let k = id_index(self.accounts@, *id);
                    assert(0 <= k < self.accounts@.len() && self.accounts@[k].id == *id);
                    assert(k == i as int);
                }
                self.accounts.remove(i);
                proof {
                    let s = self.accounts@;
                    let olds = old(self).accounts@;
                    assert forall|p: int| 0 <= p < s.len() implies id_wf((#[trigger] s[p]).id)
                        && (s[p].id.value < self.next_id as u128) by {
                        if p < i as int {
                            assert(s[p] == olds[p]);
                        } else {
                            assert(s[p] == olds[p + 1]);
                        }
                    }
                    assert forall|p: int, q: int| 0 <= p < q < s.len() implies (
                    #[trigger] s[p]).id != (#[trigger] s[q]).id by {
                        if q < i as int {
                            assert(s[p] == olds[p] && s[q] == olds[q]);
                        } else if p < i as int {
                            assert(s[p] == olds[p] && s[q] == olds[q + 1]);
                        } else {
                            assert(s[p] == olds[p + 1] && s[q] == olds[q + 1]);
                        }
                    }
                    assert forall|p: int| 0 <= p < s.len() implies (#[trigger] s[p]).id != *id by {
                        if p < i as int {
                            assert(s[p] == olds[p]);
                        } else {
                            assert(s[p] == olds[p + 1]);
                        }
                    }
                }
                return 1;
            }
            i = i + 1;
        }
        proof {
            assert(!has_id(self.accounts@, *id));
        }
        0
    }

    /// Every record, in store order.
    pub fn list_all(&self) -> (r: &Vec<StoredAccount>)
        ensures
            r@ == self.accounts@,
    {
        &self.accounts
    }
}

} // verus!
