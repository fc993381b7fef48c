//! The user store: lookup by id or email, insertion under uniqueness
//! constraints, deletion by id. The trait is the seam the service is
//! written against; `MemoryDb` is the verified in-memory implementation.

use vstd::prelude::*;

use crate::errors::DbError;
use crate::model::{Email, User, UserId, UserModel};

verus! {

/// The first record at or after position `i` whose email is `email`.
pub open spec fn find_email_from(s: Seq<UserModel>, email: Seq<char>, i: int) -> Option<UserModel>
    decreases s.len() - i,
{
    if i < 0 || i >= s.len() {
        None
    } else if s[i].email == email {
        Some(s[i])
    } else {
        find_email_from(s, email, i + 1)
    }
}

/// The first record whose email is `email`.
pub open spec fn find_by_email(s: Seq<UserModel>, email: Seq<char>) -> Option<UserModel> {
    find_email_from(s, email, 0)
}

/// The first record at or after position `i` whose id is `id`.
pub open spec fn find_id_from(s: Seq<UserModel>, id: u128, i: int) -> Option<UserModel>
    decreases s.len() - i,
{
    if i < 0 || i >= s.len() {
        None
    } else if s[i].id == id {
        Some(s[i])
    } else {
        find_id_from(s, id, i + 1)
    }
}

/// The first record whose id is `id`.
pub open spec fn find_by_id(s: Seq<UserModel>, id: u128) -> Option<UserModel> {
    find_id_from(s, id, 0)
}

/// The store contents with every record of the given id removed.
pub open spec fn without_id(s: Seq<UserModel>, id: u128) -> Seq<UserModel>
    decreases s.len(),
{
    if s.len() == 0 {
        Seq::empty()
    } else {
        let rest = without_id(s.drop_last(), id);
        if s.last().id == id {
            rest
        } else {
            rest.push(s.last())
        }
    }
}

/// Every stored email and every stored id belongs to at most one record.
pub open spec fn unique_users(s: Seq<UserModel>) -> bool {
    forall|i: int, j: int|
        0 <= i < j < s.len() ==> s[i].email != s[j].email && s[i].id != s[j].id
}

/// A record with a matching email at or after `i` makes the search succeed.
pub(crate) proof fn lemma_email_found(s: Seq<UserModel>, e: Seq<char>, i: int, j: int)
    requires
        0 <= i <= j < s.len(),
        s[j].email == e,
    ensures
        find_email_from(s, e, i) is Some,
    decreases j - i,
{
    if i < j && s[i].email != e {
        lemma_email_found(s, e, i + 1, j);
    }
}

/// A successful email search names a matching record at or after `i`.
pub(crate) proof fn lemma_email_witness(s: Seq<UserModel>, e: Seq<char>, i: int)
    requires
        0 <= i,
        find_email_from(s, e, i) is Some,
    ensures
        exists|j: int|
            i <= j < s.len() && s[j].email == e && find_email_from(s, e, i) == Some(s[j]),
    decreases s.len() - i,
{
    if i < s.len() {
        if s[i].email == e {
            assert(i <= i < s.len() && s[i].email == e && find_email_from(s, e, i) == Some(s[i]));
        } else {
            lemma_email_witness(s, e, i + 1);
            let j = choose|j: int|
                i + 1 <= j < s.len() && s[j].email == e && find_email_from(s, e, i + 1) == Some(
                    s[j],
                );
            assert(i <= j < s.len() && s[j].email == e && find_email_from(s, e, i) == Some(s[j]));
        }
    }
}

/// A record with a matching id at or after `i` makes the search succeed.
pub(crate) proof fn lemma_id_found(s: Seq<UserModel>, id: u128, i: int, j: int)
    requires
        0 <= i <= j < s.len(),
        s[j].id == id,
    ensures
        find_id_from(s, id, i) is Some,
    decreases j - i,
{
    if i < j && s[i].id != id {
        lemma_id_found(s, id, i + 1, j);
    }
}

/// A successful id search names a matching record at or after `i`.
pub(crate) proof fn lemma_id_witness(s: Seq<UserModel>, id: u128, i: int)
    requires
        0 <= i,
        find_id_from(s, id, i) is Some,
    ensures
        exists|j: int| i <= j < s.len() && s[j].id == id,
    decreases s.len() - i,
{
    if i < s.len() {
        if s[i].id == id {
            assert(i <= i < s.len() && s[i].id == id);
        } else {
            lemma_id_witness(s, id, i + 1);
            let j = choose|j: int| i + 1 <= j < s.len() && s[j].id == id;
            assert(i <= j < s.len() && s[j].id == id);
        }
    }
}

/// No record the deletion keeps carries the removed id.
pub(crate) proof fn lemma_without_id_no_id(s: Seq<UserModel>, id: u128)
    ensures
        forall|j: int| 0 <= j < without_id(s, id).len() ==> without_id(s, id)[j].id != id,
    decreases s.len(),
{
    if s.len() > 0 {
        lemma_without_id_no_id(s.drop_last(), id);
        let wd = without_id(s.drop_last(), id);
        assert forall|j: int| 0 <= j < without_id(s, id).len() implies without_id(s, id)[j].id
            != id by {
            if s.last().id != id {
                if j < wd.len() {
                    assert(without_id(s, id)[j] == wd[j]);
                } else {
                    assert(without_id(s, id)[j] == s.last());
                }
            }
        }
    }
}

/// Every record the deletion keeps stood in the store, with another id.
pub(crate) proof fn lemma_without_id_membership(s: Seq<UserModel>, id: u128, x: UserModel)
    requires
        without_id(s, id).contains(x),
    ensures
        s.contains(x),
        x.id != id,
    decreases s.len(),
{
    if s.len() > 0 {
        let wd = without_id(s.drop_last(), id);
        if s.last().id == id {
            lemma_without_id_membership(s.drop_last(), id, x);
            let i = choose|i: int| 0 <= i < s.drop_last().len() && s.drop_last()[i] == x;
            assert(s[i] == x);
        } else {
            let j = choose|j: int| 0 <= j < without_id(s, id).len() && without_id(s, id)[j] == x;
            if j < wd.len() {
                assert(wd[j] == x);
                assert(wd.contains(x));
                lemma_without_id_membership(s.drop_last(), id, x);
                let i = choose|i: int| 0 <= i < s.drop_last().len() && s.drop_last()[i] == x;
                assert(s[i] == x);
            } else {
                assert(x == s.last());
                assert(s[s.len() - 1] == x);
            }
        }
    }
}

/// Deletion keeps the uniqueness of emails and ids.
pub(crate) proof fn lemma_without_id_unique(s: Seq<UserModel>, id: u128)
    requires
        unique_users(s),
    ensures
        unique_users(without_id(s, id)),
    decreases s.len(),
{
    if s.len() > 0 {
        assert(unique_users(s.drop_last())) by {
            assert forall|i: int, j: int| 0 <= i < j < s.drop_last().len() implies s.drop_last()[i].email
                != s.drop_last()[j].email && s.drop_last()[i].id != s.drop_last()[j].id by {
                assert(s.drop_last()[i] == s[i] && s.drop_last()[j] == s[j]);
            }
        }
        lemma_without_id_unique(s.drop_last(), id);
        let wd = without_id(s.drop_last(), id);
        if s.last().id != id {
            assert forall|j: int| 0 <= j < wd.len() implies wd[j].email != s.last().email
                && wd[j].id != s.last().id by {
                assert(wd.contains(wd[j]));
                lemma_without_id_membership(s.drop_last(), id, wd[j]);
                let i = choose|i: int| 0 <= i < s.drop_last().len() && s.drop_last()[i] == wd[j];
                assert(s[i] == wd[j]);
                assert(s[s.len() - 1] == s.last());
            }
            assert(unique_users(wd.push(s.last()))) by {
                assert forall|i: int, j: int| 0 <= i < j < wd.push(s.last()).len() implies wd.push(
                    s.last(),
                )[i].email != wd.push(s.last())[j].email && wd.push(s.last())[i].id != wd.push(
                    s.last(),
                )[j].id by {
                    if j < wd.len() {
                        assert(wd.push(s.last())[i] == wd[i] && wd.push(s.last())[j] == wd[j]);
                    } else {
                        assert(wd.push(s.last())[i] == wd[i] && wd.push(s.last())[j] == s.last());
                    }
                }
            }
        }
    }
}

/// Persistence for user records. Reads reflect the abstract contents;
/// insertion enforces uniqueness of both email and id; a failed write
/// leaves the contents unchanged.
pub trait Db {
    /// The abstract contents of the store, in insertion order.
    spec fn users(&self) -> Seq<UserModel>;

    fn user_by_id(&self, user_id: UserId) -> (r: Option<User>)
        ensures
            match r {
                Some(u) => find_by_id(self.users(), user_id@) == Some(u@),
                None => find_by_id(self.users(), user_id@) is None,
            },
    ;

    fn user_by_email(&self, email: &Email) -> (r: Option<User>)
        ensures
            match r {
                Some(u) => find_by_email(self.users(), email@) == Some(u@),
                None => find_by_email(self.users(), email@) is None,
            },
    ;

    fn create_user(&mut self, user: User) -> (r: Result<(), DbError>)
        ensures
            r is Ok ==> final(self).users() == old(self).users().push(user@)
                && find_by_email(old(self).users(), user@.email) is None
                && find_by_id(old(self).users(), user@.id) is None,
            r is Err ==> final(self).users() == old(self).users(),
            find_by_email(old(self).users(), user@.email) is Some || find_by_id(
                old(self).users(),
                user@.id,
            ) is Some ==> r == Err::<(), DbError>(DbError::AlreadyExists),
            r == Err::<(), DbError>(DbError::AlreadyExists) ==> find_by_email(
                old(self).users(),
                user@.email,
            ) is Some || find_by_id(old(self).users(), user@.id) is Some,
            unique_users(old(self).users()) ==> unique_users(final(self).users()),
    ;

    fn delete_user(&mut self, user_id: UserId) -> (r: Result<(), DbError>)
        ensures
            r is Ok ==> final(self).users() == without_id(old(self).users(), user_id@),
            r is Err ==> final(self).users() == old(self).users(),
            unique_users(old(self).users()) ==> unique_users(final(self).users()),
    ;
}

/// A verified in-memory store: a vector of records with unique emails
/// and ids, enforced on insertion.
pub struct MemoryDb {
    store: Vec<User>,
}

impl MemoryDb {
    pub fn new() -> (r: MemoryDb)
        ensures
            r.users() == Seq::<UserModel>::empty(),
    {
        let r = MemoryDb { store: Vec::new() };
        assert(r.users() =~= Seq::<UserModel>::empty());
        r
    }
}

impl Db for MemoryDb {
    closed spec fn users(&self) -> Seq<UserModel> {
        self.store@.map_values(|u: User| u@)
    }

    fn user_by_id(&self, user_id: UserId) -> (r: Option<User>)
        ensures
            match r {
                Some(u) => find_by_id(self.users(), user_id@) == Some(u@),
                None => find_by_id(self.users(), user_id@) is None,
            },
    {
        let ghost us = self.users();
        let n = self.store.len();
        let mut i: usize = 0;
        while i < n
            invariant
                n == self.store.len(),
                0 <= i <= n,
                us == self.users(),
                us.len() == n,
                find_by_id(us, user_id@) == find_id_from(us, user_id@, i as int),
            decreases n - i,
        {
            assert(us[i as int] == self.store@[i as int]@);
            if self.store[i].id.0 == user_id.0 {
                return Some(self.store[i].duplicate());
            }
            i = i + 1;
        }
        None
    }

    fn user_by_email(&self, email: &Email) -> (r: Option<User>)
        ensures
            match r {
                Some(u) => find_by_email(self.users(), email@) == Some(u@),
                None => find_by_email(self.users(), email@) is None,
            },
    {
        let ghost us = self.users();
        let n = self.store.len();
        let mut i: usize = 0;
        while i < n
            invariant
                n == self.store.len(),
                0 <= i <= n,
                us == self.users(),
                us.len() == n,
                find_by_email(us, email@) == find_email_from(us, email@, i as int),
            decreases n - i,
        {
            assert(us[i as int] == self.store@[i as int]@);
            if self.store[i].email.0 == email.0 {
                return Some(self.store[i].duplicate());
            }
            i = i + 1;
        }
        None
    }

    fn create_user(&mut self, user: User) -> (r: Result<(), DbError>)
        ensures
            r is Ok ==> final(self).users() == old(self).users().push(user@)
                && find_by_email(old(self).users(), user@.email) is None
                && find_by_id(old(self).users(), user@.id) is None,
            r is Err ==> final(self).users() == old(self).users(),
            find_by_email(old(self).users(), user@.email) is Some || find_by_id(
                old(self).users(),
                user@.id,
            ) is Some ==> r == Err::<(), DbError>(DbError::AlreadyExists),
            r == Err::<(), DbError>(DbError::AlreadyExists) ==> find_by_email(
                old(self).users(),
                user@.email,
            ) is Some || find_by_id(old(self).users(), user@.id) is Some,
            unique_users(old(self).users()) ==> unique_users(final(self).users()),
            find_by_email(old(self).users(), user@.email) is None && find_by_id(
                old(self).users(),
                user@.id,
            ) is None ==> r is Ok,
    {
        let ghost us = self.users();
        let n = self.store.len();
        let mut i: usize = 0;
        while i < n
            invariant
                n == self.store.len(),
                0 <= i <= n,
                us == self.users(),
                us.len() == n,
                find_by_email(us, user@.email) == find_email_from(us, user@.email, i as int),
                find_by_id(us, user@.id) == find_id_from(us, user@.id, i as int),
            decreases n - i,
        {
            assert(us[i as int] == self.store@[i as int]@);
            if self.store[i].email.0 == user.email.0 {
                return Err(DbError::AlreadyExists);
            }
            if self.store[i].id.0 == user.id.0 {
                return Err(DbError::AlreadyExists);
            }
            i = i + 1;
        }
        self.store.push(user);
        proof {
            assert(self.users() =~= us.push(user@));
            if unique_users(us) {
                assert forall|k: int| 0 <= k < us.len() implies us[k].email != user@.email
                    && us[k].id != user@.id by {
                    if us[k].email == user@.email {
                        lemma_email_found(us, user@.email, 0, k);
                    }
                    if us[k].id == user@.id {
                        lemma_id_found(us, user@.id, 0, k);
                    }
                }
                assert forall|i: int, j: int| 0 <= i < j < us.push(user@).len() implies us.push(
                    user@,
                )[i].email != us.push(user@)[j].email && us.push(user@)[i].id != us.push(
                    user@,
                )[j].id by {
                    if j < us.len() {
                        assert(us.push(user@)[i] == us[i] && us.push(user@)[j] == us[j]);
                    } else {
                        assert(us.push(user@)[i] == us[i] && us.push(user@)[j] == user@);
                    }
                }
            }
        }
        Ok(())
    }

    fn delete_user(&mut self, user_id: UserId) -> (r: Result<(), DbError>)
        ensures
            r is Ok ==> final(self).users() == without_id(old(self).users(), user_id@),
            r is Err ==> final(self).users() == old(self).users(),
            unique_users(old(self).users()) ==> unique_users(final(self).users()),
            r is Ok,
    {
        let ghost us = self.users();
        let n = self.store.len();
        let mut kept: Vec<User> = Vec::new();
        let mut i: usize = 0;
        while i < n
            invariant
                n == self.store.len(),
                0 <= i <= n,
                us == self.users(),
                us.len() == n,
                kept@.map_values(|u: User| u@) == without_id(us.take(i as int), user_id@),
            decreases n - i,
        {
            assert(us[i as int] == self.store@[i as int]@);
            assert(us.take(i + 1).drop_last() =~= us.take(i as int));
            assert(us.take(i + 1).last() == us[i as int]);
            if self.store[i].id.0 != user_id.0 {
                kept.push(self.store[i].duplicate());
                assert(kept@.map_values(|u: User| u@) =~= without_id(
                    us.take(i as int),
                    user_id@,
                ).push(us[i as int]));
            }
            i = i + 1;
        }
        assert(us.take(n as int) =~= us);
        self.store = kept;
        proof {
            if unique_users(us) {
                lemma_without_id_unique(us, user_id@);
            }
        }
        Ok(())
    }
}

} // verus!
