//! The fixed table of user accounts.
use vstd::prelude::*;
use vstd::string::*;
use crate::model::{find_last, lemma_find_last, lemma_find_last_prefix, StoreError, StoreErrorV};

verus! {

#[derive(Debug)]
pub struct User {
    pub id: i64,
    pub name: String,
}

pub ghost struct UserV {
    pub id: i64,
    pub name: Seq<char>,
}

impl View for User {
    type V = UserV;

    open spec fn view(&self) -> UserV {
        UserV { id: self.id, name: self.name@ }
    }
}

impl DeepView for User {
    type V = UserV;

    open spec fn deep_view(&self) -> UserV {
        self@
    }
}

impl User {
    pub fn duplicate(&self) -> (r: User)
        ensures
            r@ == self@,
    {
        User { id: self.id, name: self.name.clone() }
    }
}

pub open spec fn user_with_id(id: i64) -> spec_fn(UserV) -> bool {
    |u: UserV| u.id == id
}

/// The users, in order of creation, and the id the next one gets.
pub struct UserStore {
    users: Vec<User>,
    next_id: i64,
}

impl UserStore {
    pub closed spec fn users(&self) -> Seq<UserV> {
        self.users@.map_values(|u: User| u@)
    }

    pub closed spec fn next_id(&self) -> i64 {
        self.next_id
    }

    pub open spec fn wf(&self) -> bool {
        &&& 1 <= self.next_id()
        &&& forall|i: int| 0 <= i < self.users().len() ==> #[trigger] self.users()[i].id < self.next_id()
        &&& forall|i: int, j: int| 0 <= i < j < self.users().len() ==> self.users()[i].id < self.users()[j].id
    }

    pub fn new() -> (r: UserStore)
        ensures
            r.users() == Seq::<UserV>::empty(),
            r.next_id() == 1,
            r.wf(),
    {
        let r = UserStore { users: Vec::new(), next_id: 1 };
        assert(r.users() =~= Seq::<UserV>::empty());
        r
    }

    /// Adds a user called `name` with the next id.
    pub fn create_user(&mut self, name: String) -> (r: Result<User, StoreError>)
        requires
            old(self).wf(),
        ensures
            final(self).wf(),
            old(self).next_id() < i64::MAX ==> {
                &&& r is Ok
                &&& r->Ok_0@ == UserV { id: old(self).next_id(), name: name@ }
                &&& final(self).users() == old(self).users().push(r->Ok_0@)
                &&& final(self).next_id() == old(self).next_id() + 1
            },
            old(self).next_id() == i64::MAX ==> r is Err && r->Err_0@ == StoreErrorV::Internal
                && final(self).users() == old(self).users() && final(self).next_id() == old(self).next_id(),
    {
        if self.next_id == i64::MAX {
            return Err(StoreError::Internal(String::from_str("ids exhausted")));
        }
        let u = User { id: self.next_id, name };
        let out = u.duplicate();
        self.users.push(u);
        self.next_id = self.next_id + 1;
        assert(self.users() =~= old(self).users().push(out@));
        Ok(out)
    }

    /// The user with the given id.
    pub fn get_user(&self, id: i64) -> (r: Result<User, StoreError>)
        requires
            self.wf(),
        ensures
            forall|i: int| 0 <= i < self.users().len() && #[trigger] self.users()[i].id == id
                ==> r is Ok && r->Ok_0@ == self.users()[i],
            (forall|i: int| 0 <= i < self.users().len() ==> #[trigger] self.users()[i].id != id)
                ==> r is Err && r->Err_0@ == StoreErrorV::NotFound,
    {
        proof {
            lemma_find_last(self.users(), user_with_id(id));
            assert forall|i: int| 0 <= i < self.users().len() && #[trigger] self.users()[i].id == id
                implies i == find_last(self.users(), user_with_id(id)) by {
                let k = find_last(self.users(), user_with_id(id));
                if i < k {
                    assert(self.users()[i].id < self.users()[k].id);
                }
                if k < i {
                    assert(!user_with_id(id)(self.users()[i]));
                }
            }
        }
        let ghost vs = self.users();
        let ghost p = user_with_id(id);
        let mut i: usize = self.users.len();
        assert(vs.subrange(0, i as int) =~= vs);
        while i > 0
            invariant
                i <= self.users.len(),
                vs == self.users(),
                p == user_with_id(id),
                forall|j: int| 0 <= j < vs.len() && #[trigger] vs[j].id == id ==> j == find_last(vs, p),
                find_last(vs, p) == find_last(vs.subrange(0, i as int), p),
            decreases i,
        {
            i = i - 1;
            if self.users[i].id == id {
                assert(vs.subrange(0, i as int + 1).last() == vs[i as int]);
                return Ok(self.users[i].duplicate());
            }
            proof {
                lemma_find_last_prefix(vs, p, i as int);
            }
        }
        Err(StoreError::NotFound)
    }

    /// Every user, in order of creation.
    pub fn get_users(&self) -> (r: Vec<User>)
        ensures
            r.deep_view() == self.users(),
    {
        let mut out: Vec<User> = Vec::new();
        let mut i: usize = 0;
        while i < self.users.len()
            invariant
                i <= self.users.len(),
                out@.len() == i,
                forall|j: int| 0 <= j < i ==> (#[trigger] out@[j])@ == self.users@[j]@,
            decreases self.users.len() - i,
        {
            out.push(self.users[i].duplicate());
            i = i + 1;
        }
        assert(out.deep_view() =~= self.users());
        out
    }
}

} // verus!
