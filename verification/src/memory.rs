//! The in-memory backend: the reference implementation of the
//! repository contract over a plain vector, one record per identifier.
//!
//! No storage medium is involved, so no operation of this backend ever
//! fails: every method returns `Ok`, which its contract states on top
//! of the contract inherited from [`UserRepo`].

use vstd::prelude::*;

use crate::users::User;
use crate::users::UserId;
use crate::users::UserRepo;
use crate::users::UserRepoError;
use crate::users::UserView;
use crate::users::listing_of;
use crate::users::user_wf;

verus! {

/// The views of the records a vector holds, in order.
pub open spec fn views_of(s: Seq<User>) -> Seq<UserView> {
    s.map_values(|u: User| u@)
}

/// No identifier appears twice.
pub open spec fn distinct_ids(s: Seq<UserView>) -> bool {
    forall|i: int, j: int| 0 <= i < j < s.len() ==> (#[trigger] s[i]).id != (#[trigger] s[j]).id
}

/// Whether some record in `s` carries `id`.
pub open spec fn has_id(s: Seq<UserView>, id: UserId) -> bool {
    exists|i: int| 0 <= i < s.len() && (#[trigger] s[i]).id == id
}

/// The abstraction from the stored records to the map the repository
/// contract speaks of.
pub open spec fn user_map(s: Seq<UserView>) -> Map<UserId, UserView>
    decreases s.len(),
{
    if s.len() == 0 {
        Map::empty()
    } else {
        user_map(s.drop_last()).insert(s.last().id, s.last())
    }
}

proof fn lemma_user_map_finite(s: Seq<UserView>)
    ensures
        user_map(s).dom().finite(),
    decreases s.len(),
{
    if s.len() > 0 {
        lemma_user_map_finite(s.drop_last());
    }
}

proof fn lemma_user_map_contains(s: Seq<UserView>, id: UserId)
    ensures
        user_map(s).dom().contains(id) <==> has_id(s, id),
    decreases s.len(),
{
    if s.len() > 0 {
        lemma_user_map_contains(s.drop_last(), id);
        if s.last().id == id {
            assert(s[s.len() - 1].id == id);
        } else if user_map(s).dom().contains(id) {
            let i = choose|i: int| 0 <= i < s.drop_last().len() && (#[trigger] s.drop_last()[
                i
            ]).id == id;
            assert(s[i].id == id);
        } else if has_id(s, id) {
            let i = choose|i: int| 0 <= i < s.len() && (#[trigger] s[i]).id == id;
            assert(s.drop_last()[i].id == id);
        }
    }
}

proof fn lemma_user_map_index(s: Seq<UserView>, i: int)
    requires
        distinct_ids(s),
        0 <= i < s.len(),
    ensures
        user_map(s).dom().contains(s[i].id),
        user_map(s)[s[i].id] == s[i],
    decreases s.len(),
{
    if i == s.len() - 1 {
    } else {
        assert(distinct_ids(s.drop_last()));
        assert(s.drop_last()[i] == s[i]);
        lemma_user_map_index(s.drop_last(), i);
        assert(s.last().id != s[i].id);
    }
}

proof fn lemma_user_map_len(s: Seq<UserView>)
    requires
        distinct_ids(s),
    ensures
        user_map(s).len() == s.len(),
    decreases s.len(),
{
    if s.len() > 0 {
        assert(distinct_ids(s.drop_last()));
        lemma_user_map_len(s.drop_last());
        lemma_user_map_finite(s.drop_last());
        lemma_user_map_contains(s.drop_last(), s.last().id);
        assert(!has_id(s.drop_last(), s.last().id)) by {
            if has_id(s.drop_last(), s.last().id) {
                let i = choose|i: int|
                    0 <= i < s.drop_last().len() && (#[trigger] s.drop_last()[i]).id
                        == s.last().id;
                assert(s[i].id == s[s.len() - 1].id);
            }
        }
    }
}

proof fn lemma_user_map_push(s: Seq<UserView>, u: UserView)
    requires
        distinct_ids(s),
        !has_id(s, u.id),
    ensures
        user_map(s.push(u)) == user_map(s).insert(u.id, u),
        distinct_ids(s.push(u)),
{
    assert(s.push(u).drop_last() =~= s);
    assert forall|i: int, j: int| 0 <= i < j < s.push(u).len() implies (#[trigger] s.push(u)[
        i
    ]).id != (#[trigger] s.push(u)[j]).id by {
        if j == s.len() {
            assert(!(0 <= i < s.len() && (#[trigger] s[i]).id == u.id));
        }
    }
}

proof fn lemma_user_map_update(s: Seq<UserView>, i: int, u: UserView)
    requires
        distinct_ids(s),
        0 <= i < s.len(),
        s[i].id == u.id,
    ensures
        user_map(s.update(i, u)) == user_map(s).insert(u.id, u),
        distinct_ids(s.update(i, u)),
    decreases s.len(),
{
    let t = s.update(i, u);
    assert(distinct_ids(t));
    if i == s.len() - 1 {
        assert(t.drop_last() =~= s.drop_last());
        assert(t.last() == u);
        assert(user_map(t) =~= user_map(s).insert(u.id, u));
    } else {
        assert(distinct_ids(s.drop_last()));
        assert(s.drop_last()[i] == s[i]);
        lemma_user_map_update(s.drop_last(), i, u);
        assert(t.drop_last() =~= s.drop_last().update(i, u));
        assert(t.last() == s.last());
        assert(s.last().id != u.id);
        assert(user_map(t) =~= user_map(s).insert(u.id, u));
    }
}

proof fn lemma_user_map_remove(s: Seq<UserView>, i: int)
    requires
        distinct_ids(s),
        0 <= i < s.len(),
    ensures
        user_map(s.remove(i)) == user_map(s).remove(s[i].id),
        distinct_ids(s.remove(i)),
    decreases s.len(),
{
    let t = s.remove(i);
    assert(distinct_ids(t));
    if i == s.len() - 1 {
        assert(t =~= s.drop_last());
        lemma_user_map_contains(s.drop_last(), s.last().id);
        assert(!has_id(s.drop_last(), s.last().id)) by {
            if has_id(s.drop_last(), s.last().id) {
                let j = choose|j: int|
                    0 <= j < s.drop_last().len() && (#[trigger] s.drop_last()[j]).id
                        == s.last().id;
                assert(s[j].id == s[s.len() - 1].id);
            }
        }
        assert(user_map(t) =~= user_map(s).remove(s[i].id));
    } else {
        assert(distinct_ids(s.drop_last()));
        assert(s.drop_last()[i] == s[i]);
        lemma_user_map_remove(s.drop_last(), i);
        assert(t.drop_last() =~= s.drop_last().remove(i));
        assert(t.last() == s.last());
        assert(s.last().id != s[i].id);
        assert(user_map(t) =~= user_map(s).remove(s[i].id));
    }
}

/// A vector with distinct identifiers lists its own abstraction.
proof fn lemma_user_map_listing(s: Seq<UserView>)
    requires
        distinct_ids(s),
    ensures
        listing_of(s, user_map(s)),
{
    lemma_user_map_len(s);
    assert forall|i: int| 0 <= i < s.len() implies user_map(s).dom().contains(
        #[trigger] s[i].id,
    ) && user_map(s)[s[i].id] == s[i] by {
        lemma_user_map_index(s, i);
    }
    assert forall|id: UserId| user_map(s).dom().contains(id) implies exists|i: int|
        0 <= i < s.len() && (#[trigger] s[i]).id == id by {
        lemma_user_map_contains(s, id);
    }
}

/// The in-memory backend.  Holds the records directly; the reference
/// for contract conformance.
pub struct MemoryUserRepo {
    users: Vec<User>,
}

impl MemoryUserRepo {
    /// A fresh, empty store.
    pub fn new() -> (r: MemoryUserRepo)
        ensures
            r.inv(),
            r.users() == Map::<UserId, UserView>::empty(),
    {
        let r = MemoryUserRepo { users: Vec::new() };
        proof {
            assert(views_of(r.users@) =~= Seq::<UserView>::empty());
        }
        r
    }
}

impl UserRepo for MemoryUserRepo {
    closed spec fn users(&self) -> Map<UserId, UserView> {
        user_map(views_of(self.users@))
    }

    closed spec fn inv(&self) -> bool {
        &&& distinct_ids(views_of(self.users@))
        &&& forall|i: int|
            0 <= i < self.users@.len() ==> user_wf(#[trigger] views_of(self.users@)[i])
    }

    /// Adding to the in-memory store never fails.
    #[verifier::loop_isolation(false)]
    fn add_user(&mut self, username: &str, email: &str) -> (r: Result<User, UserRepoError>)
        ensures
            r is Ok,
    {
        let id = crate::users::fresh_user_id();
        let user = User { id, username: username.to_owned(), email: email.to_owned() };
        let ghost prior = views_of(old(self).users@);
        proof {
            assert(prior.len() == old(self).users@.len());
        }
        let n = self.users.len();
        let mut i: usize = 0;
        while i < n
            invariant
                self == old(self),
                n == self.users@.len(),
                prior == views_of(self.users@),
                prior.len() == n,
                distinct_ids(prior),
                i <= n,
                user.id == id,
                forall|j: int| 0 <= j < i ==> (#[trigger] prior[j]).id != id,
            decreases n - i,
        {
            if self.users[i].id == id {
                let stored = user.clone();
                self.users.set(i, stored);
                proof {
                    assert(views_of(self.users@) =~= prior.update(i as int, user@));
                    lemma_user_map_update(prior, i as int, user@);
                    assert(user_map(views_of(self.users@)) == user_map(prior).insert(
                        user@.id,
                        user@,
                    ));
                    assert forall|j: int| 0 <= j < self.users@.len() implies user_wf(
                        #[trigger] views_of(self.users@)[j],
                    ) by {
                        if j != i as int {
                            assert(views_of(self.users@)[j] == prior[j]);
                            assert(user_wf(views_of(old(self).users@)[j]));
                        }
                    }
                }
                return Ok(user);
            }
            i += 1;
        }
        let stored = user.clone();
        self.users.push(stored);
        proof {
            assert(views_of(self.users@) =~= prior.push(user@));
            assert(!has_id(prior, id)) by {
                if has_id(prior, id) {
                    let j = choose|j: int| 0 <= j < prior.len() && (#[trigger] prior[j]).id == id;
                }
            }
            lemma_user_map_push(prior, user@);
        }
        Ok(user)
    }

    /// Reading the in-memory store never fails.
    #[verifier::loop_isolation(false)]
    fn get_user(&self, id: UserId) -> (r: Result<Option<User>, UserRepoError>)
        ensures
            r is Ok,
    {
        let ghost views = views_of(self.users@);
        proof {
            assert(views.len() == self.users@.len());
        }
        let n = self.users.len();
        let mut i: usize = 0;
        while i < n
            invariant
                n == self.users@.len(),
                views == views_of(self.users@),
                views.len() == n,
                distinct_ids(views),
                i <= n,
                forall|j: int| 0 <= j < i ==> (#[trigger] views[j]).id != id,
            decreases n - i,
        {
            if self.users[i].id == id {
                proof {
                    lemma_user_map_index(views, i as int);
                }
                return Ok(Some(self.users[i].clone()));
            }
            i += 1;
        }
        proof {
            lemma_user_map_contains(views, id);
            assert(!has_id(views, id)) by {
                if has_id(views, id) {
                    let j = choose|j: int| 0 <= j < views.len() && (#[trigger] views[j]).id == id;
                }
            }
        }
        Ok(None)
    }

    /// A single atomic take-and-return against the store; never fails.
    #[verifier::loop_isolation(false)]
    fn remove_user(&mut self, id: UserId) -> (r: Result<Option<User>, UserRepoError>)
        ensures
            r is Ok,
    {
        let ghost prior = views_of(old(self).users@);
        proof {
            assert(prior.len() == old(self).users@.len());
        }
        let n = self.users.len();
        let mut i: usize = 0;
        while i < n
            invariant
                self == old(self),
                n == self.users@.len(),
                prior == views_of(self.users@),
                prior.len() == n,
                distinct_ids(prior),
                i <= n,
                forall|j: int| 0 <= j < i ==> (#[trigger] prior[j]).id != id,
            decreases n - i,
        {
            if self.users[i].id == id {
                proof {
                    lemma_user_map_index(prior, i as int);
                }
                let removed = self.users.remove(i);
                proof {
                    assert(views_of(self.users@) =~= prior.remove(i as int));
                    lemma_user_map_remove(prior, i as int);
                    assert forall|j: int| 0 <= j < self.users@.len() implies user_wf(
                        #[trigger] views_of(self.users@)[j],
                    ) by {
                        if j < i as int {
                            assert(views_of(self.users@)[j] == prior[j]);
                            assert(user_wf(views_of(old(self).users@)[j]));
                        } else {
                            assert(views_of(self.users@)[j] == prior[j + 1]);
                            assert(user_wf(views_of(old(self).users@)[j + 1]));
                        }
                    }
                }
                return Ok(Some(removed));
            }
            i += 1;
        }
        proof {
            lemma_user_map_contains(prior, id);
            assert(!has_id(prior, id)) by {
                if has_id(prior, id) {
                    let j = choose|j: int| 0 <= j < prior.len() && (#[trigger] prior[j]).id == id;
                }
            }
            assert(user_map(prior).remove(id) =~= user_map(prior));
        }
        Ok(None)
    }

    /// Listing the in-memory store never fails.
    #[verifier::loop_isolation(false)]
    fn list_users(&self) -> (r: Result<Vec<User>, UserRepoError>)
        ensures
            r is Ok,
    {
        let ghost views = views_of(self.users@);
        proof {
            assert(views.len() == self.users@.len());
        }
        let n = self.users.len();
        let mut out: Vec<User> = Vec::new();
        let mut i: usize = 0;
        while i < n
            invariant
                n == self.users@.len(),
                views == views_of(self.users@),
                views.len() == n,
                distinct_ids(views),
                i <= n,
                out@.len() == i,
                forall|j: int| 0 <= j < i ==> (#[trigger] out@[j])@ == views[j],
            decreases n - i,
        {
            out.push(self.users[i].clone());
            i += 1;
        }
        proof {
            assert(out@.map_values(|u: User| u@) =~= views);
            lemma_user_map_listing(views);
        }
        Ok(out)
    }
}

} // verus!
