//! The repository laws.
//!
//! What must hold of every backend that meets the contract, stated
//! over the abstract store model that the contract's `ensures` speak
//! of, and proved once here.

use vstd::prelude::*;

use crate::idtext::lemma_id_text_round_trip;
use crate::records::record_of;
use crate::records::record_user;
use crate::users::UserId;
use crate::users::UserView;
use crate::users::store_drop;
use crate::users::store_lookup;
use crate::users::store_put;

verus! {

/// Law: after an add, a get on the returned identifier yields exactly
/// the value the add returned.
pub proof fn lemma_add_then_get(m: Map<UserId, UserView>, u: UserView)
    ensures
        store_lookup(store_put(m, u), u.id) == Some(u),
{
}

/// The store after a whole sequence of adds, first add first.
pub open spec fn store_put_all(m: Map<UserId, UserView>, us: Seq<UserView>) -> Map<
    UserId,
    UserView,
>
    decreases us.len(),
{
    if us.len() == 0 {
        m
    } else {
        store_put(store_put_all(m, us.drop_last()), us.last())
    }
}

/// A sequence of adds reaches exactly the identifiers it added plus
/// what was stored before.
pub proof fn lemma_put_all_ids(m: Map<UserId, UserView>, us: Seq<UserView>)
    ensures
        forall|id: UserId|
            store_put_all(m, us).dom().contains(id) <==> (m.dom().contains(id) || exists|i: int|
                0 <= i < us.len() && (#[trigger] us[i]).id == id),
    decreases us.len(),
{
    if us.len() > 0 {
        lemma_put_all_ids(m, us.drop_last());
        assert forall|id: UserId|
            store_put_all(m, us).dom().contains(id) <==> (m.dom().contains(id) || exists|i: int|
                0 <= i < us.len() && (#[trigger] us[i]).id == id) by {
            if us.last().id == id {
                assert(us[us.len() - 1].id == id);
            } else if m.dom().contains(id) {
            } else if store_put_all(m, us).dom().contains(id) {
                let i = choose|i: int|
                    0 <= i < us.drop_last().len() && (#[trigger] us.drop_last()[i]).id == id;
                assert(us[i].id == id);
            } else if exists|i: int| 0 <= i < us.len() && (#[trigger] us[i]).id == id {
                let i = choose|i: int| 0 <= i < us.len() && (#[trigger] us[i]).id == id;
                assert(us.drop_last()[i].id == id);
            }
        }
    }
}

/// Law: after N successful adds under pairwise distinct identifiers
/// that were not stored before, the store — and with it any listing —
/// has grown by exactly N, whatever reads happened in between.
pub proof fn lemma_adds_grow_store(m: Map<UserId, UserView>, us: Seq<UserView>)
    requires
        m.dom().finite(),
        forall|i: int, j: int|
            0 <= i < j < us.len() ==> (#[trigger] us[i]).id != (#[trigger] us[j]).id,
        forall|i: int| 0 <= i < us.len() ==> !m.dom().contains((#[trigger] us[i]).id),
    ensures
        store_put_all(m, us).dom().finite(),
        store_put_all(m, us).len() == m.len() + us.len(),
    decreases us.len(),
{
    if us.len() > 0 {
        lemma_adds_grow_store(m, us.drop_last());
        lemma_put_all_ids(m, us.drop_last());
        assert(!store_put_all(m, us.drop_last()).dom().contains(us.last().id)) by {
            assert(!m.dom().contains(us[us.len() - 1].id));
            if exists|i: int|
                0 <= i < us.drop_last().len() && (#[trigger] us.drop_last()[i]).id
                    == us.last().id {
                let i = choose|i: int|
                    0 <= i < us.drop_last().len() && (#[trigger] us.drop_last()[i]).id
                        == us.last().id;
                assert(us[i].id == us[us.len() - 1].id);
            }
        }
    }
}

/// Law: removing a never-added or already-removed identifier reports
/// absence, not an error, and leaves the store — and any listing's
/// length — unchanged.
pub proof fn lemma_remove_absent(m: Map<UserId, UserView>, id: UserId)
    requires
        store_lookup(m, id) is None,
    ensures
        store_drop(m, id) == m,
{
    assert(store_drop(m, id) =~= m);
}

/// Law: removing a present identifier hands back exactly the stored
/// value, and a subsequent get on that identifier reports absence.
pub proof fn lemma_remove_present(m: Map<UserId, UserView>, id: UserId)
    requires
        store_lookup(m, id) is Some,
    ensures
        store_lookup(m, id) == Some(m[id]),
        store_lookup(store_drop(m, id), id) is None,
{
}

/// Law: remove is idempotent.  After any remove, the identifier looks
/// absent, and removing it again reports absence and changes nothing
/// — the removed value is handed out exactly once.
pub proof fn lemma_remove_idempotent(m: Map<UserId, UserView>, id: UserId)
    ensures
        store_lookup(store_drop(m, id), id) is None,
        store_drop(store_drop(m, id), id) == store_drop(m, id),
{
    assert(store_drop(store_drop(m, id), id) =~= store_drop(m, id));
}

/// Law: the stored form of a record decodes back to exactly that
/// record.  The relational and the document backend share this one
/// stored shape and this one codec, so a record written by either
/// reads back identically — the codec half of backend conformance.
pub proof fn lemma_record_round_trip(u: UserView)
    ensures
        record_user(record_of(u)) == Some(u),
{
    lemma_id_text_round_trip(u.id);
}

} // verus!
