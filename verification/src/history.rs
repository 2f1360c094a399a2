//! What holds across any run of lifecycle operations: the store keeps its
//! invariant, ids are never given twice, and an administrator who was
//! deleted never comes back.

use vstd::prelude::*;
use crate::listing::entry_of;
use crate::model::{
    active_rows, admin_index, lemma_links_without, lemma_respond_keeps_wf, listed, respond,
    role_names_of, AdminRecordView, StoreState,
};
use crate::protocol::RequestView;
use crate::service::{
    created, deleted, entries, frozen, insertion, lemma_active_rows,
    lemma_roles_outlive_operations, listed_all, NewAdmin,
};

verus! {

/// An operation that can change the store.
pub ghost enum Operation {
    /// A creation, with what hashing the password gave.
    Create { input: NewAdmin, hash: Result<Seq<char>, Seq<char>> },
    Delete { acting: i64, target: i64 },
    Freeze { acting: i64, target: i64 },
}

/// The store after the operation.
pub open spec fn applied(s: StoreState, operation: Operation) -> StoreState {
    match operation {
        Operation::Create { input, hash } => created(s, input, hash).0,
        Operation::Delete { acting, target } => deleted(s, acting, target).0,
        Operation::Freeze { acting, target } => frozen(s, acting, target).0,
    }
}

/// The store after the operations, one after the other.
pub open spec fn after_all(s: StoreState, operations: Seq<Operation>) -> StoreState
    decreases operations.len(),
{
    if operations.len() == 0 {
        s
    } else {
        applied(after_all(s, operations.drop_last()), operations.last())
    }
}

/// Whether the id has been given and no row has it, neither in the
/// relations nor in those that a rollback would put back.
pub open spec fn gone(s: StoreState, id: i64) -> bool {
    &&& id < s.next_id
    &&& admin_index(s.admins, id) is None
    &&& s.saved matches Some(t) ==> admin_index(t.admins, id) is None
}

/// Whatever request the store carries out, an id that is gone stays gone
/// and the next id does not go back.
pub proof fn lemma_gone_after_request(s: StoreState, request: RequestView, id: i64)
    requires
        s.wf(),
        gone(s, id),
    ensures
        gone(respond(s, request).0, id),
        respond(s, request).0.next_id >= s.next_id,
{
    let t = respond(s, request).0;
    if admin_index(t.admins, id) is Some {
        let i = admin_index(t.admins, id)->0;
        match request {
            RequestView::InsertAdmin { .. } => {
                if i < s.admins.len() {
                    assert(s.admins[i].id == id);
                }
            },
            RequestView::DeleteAdmin { admin_id } => {
                match admin_index(s.admins, admin_id) {
                    Some(k) => {
                        assert(s.admins[if i < k {
                            i
                        } else {
                            i + 1
                        }].id == id);
                    },
                    None => {},
                }
            },
            RequestView::Deactivate { admin_id } => {
                assert(s.admins[i].id == id);
            },
            _ => {},
        }
    }
}

/// The store after the requests, one after the other, whoever sent them.
pub open spec fn after_requests(s: StoreState, requests: Seq<RequestView>) -> StoreState
    decreases requests.len(),
{
    if requests.len() == 0 {
        s
    } else {
        respond(after_requests(s, requests.drop_last()), requests.last()).0
    }
}

/// Whatever requests reach the store, in whatever order and from however
/// many operations at once, the store keeps its invariant: at no moment do
/// two rows share a username, an email, a phone number or an id. An id
/// that is gone stays gone.
pub proof fn lemma_requests_keep(s: StoreState, requests: Seq<RequestView>, id: i64)
    requires
        s.wf(),
    ensures
        after_requests(s, requests).wf(),
        after_requests(s, requests).next_id >= s.next_id,
        gone(s, id) ==> gone(after_requests(s, requests), id),
    decreases requests.len(),
{
    if requests.len() > 0 {
        let before = after_requests(s, requests.drop_last());
        lemma_requests_keep(s, requests.drop_last(), id);
        lemma_respond_keeps_wf(before, requests.last());
        if gone(s, id) {
            lemma_gone_after_request(before, requests.last(), id);
        } else {
            lemma_next_id_grows(before, requests.last());
        }
    }
}

/// However the requests of any number of operations interleave, no two
/// rows of the store ever share a username.
pub proof fn lemma_username_never_twice(
    s: StoreState,
    requests: Seq<RequestView>,
    i: int,
    j: int,
)
    requires
        s.wf(),
        0 <= i < j < after_requests(s, requests).admins.len(),
    ensures
        after_requests(s, requests).admins[i].username != after_requests(
            s,
            requests,
        ).admins[j].username,
{
    lemma_requests_keep(s, requests, 0);
    crate::model::lemma_rows_differ(after_requests(s, requests), i, j);
}

/// No request makes the next id go back.
pub proof fn lemma_next_id_grows(s: StoreState, request: RequestView)
    ensures
        respond(s, request).0.next_id >= s.next_id,
{
}

/// Each operation keeps the store's invariant and leaves no transaction
/// open, gives no id twice, and keeps an id that is gone.
pub proof fn lemma_operation_keeps(s: StoreState, operation: Operation, id: i64)
    requires
        s.wf(),
        s.saved is None,
    ensures
        applied(s, operation).wf(),
        applied(s, operation).saved is None,
        applied(s, operation).next_id >= s.next_id,
        applied(s, operation).roles == s.roles,
        gone(s, id) ==> gone(applied(s, operation), id),
{
    let t = applied(s, operation);
    match operation {
        Operation::Create { input, hash } => {
            if t != s {
                let request = insertion(input, hash->Ok_0);
                let grown = respond(s, request).0;
                lemma_respond_keeps_wf(s, request);
                if gone(s, id) {
                    lemma_gone_after_request(s, request, id);
                }
                if created(s, input, hash).1 is Ok {
                    assert(t.admins == grown.admins);
                    assert forall|i: int| 0 <= i < t.links.len() implies admin_index(
                        t.admins,
                        (#[trigger] t.links[i]).user_id,
                    ) is Some by {
                        if i >= s.links.len() {
                            assert(t.links[i].user_id == s.next_id);
                            assert(t.admins[s.admins.len() as int].id == s.next_id);
                        } else {
                            assert(t.links[i] == grown.links[i]);
                        }
                    }
                }
            }
        },
        Operation::Delete { acting, target } => {
            if t != s {
                let first = RequestView::DeleteAssignments { admin_id: target };
                let second = RequestView::DeleteAdmin { admin_id: target };
                let s1 = respond(s, first).0;
                lemma_respond_keeps_wf(s, first);
                lemma_links_without(s.links, s.roles, target);
                lemma_respond_keeps_wf(s1, second);
                assert(t == respond(s1, second).0);
                if gone(s, id) {
                    lemma_gone_after_request(s, first, id);
                    lemma_gone_after_request(s1, second, id);
                }
            }
        },
        Operation::Freeze { acting, target } => {
            if t != s {
                let request = RequestView::Deactivate { admin_id: target };
                lemma_respond_keeps_wf(s, request);
                assert(t == respond(s, request).0);
                if gone(s, id) {
                    lemma_gone_after_request(s, request, id);
                }
            }
        },
    }
}

/// Whatever operations follow one another, the store keeps its invariant:
/// at no moment do two rows share an id, a username, an email or a phone
/// number, and every assignment is that of an administrator who has a row.
/// An id that is gone stays gone.
pub proof fn lemma_history_keeps(s: StoreState, operations: Seq<Operation>, id: i64)
    requires
        s.wf(),
        s.saved is None,
    ensures
        after_all(s, operations).wf(),
        after_all(s, operations).saved is None,
        after_all(s, operations).next_id >= s.next_id,
        after_all(s, operations).roles == s.roles,
        gone(s, id) ==> gone(after_all(s, operations), id),
    decreases operations.len(),
{
    if operations.len() > 0 {
        lemma_history_keeps(s, operations.drop_last(), id);
        lemma_operation_keeps(after_all(s, operations.drop_last()), operations.last(), id);
    }
}

/// No listing of a store shows an id that is gone.
pub proof fn lemma_gone_is_not_listed(s: StoreState, id: i64)
    requires
        gone(s, id),
    ensures
        forall|k: int| 0 <= k < entries(s).len() ==> (#[trigger] entries(s)[k]).id != id,
{
    lemma_active_rows(s.admins);
    assert forall|k: int| 0 <= k < entries(s).len() implies (#[trigger] entries(s)[k]).id
        != id by {
        let shown = active_rows(s.admins)[k];
        let j = choose|j: int|
            0 <= j < s.admins.len() && s.admins[j].is_active && shown == listed(s.admins[j]);
        if s.admins[j].id == id {
            assert(admin_index(s.admins, id) is Some);
        }
    }
}

/// An administrator who was deleted never comes back: whatever creations,
/// deletions and freezes follow, no listing shows the id again, whoever
/// asks for it.
pub proof fn lemma_deleted_never_returns(
    s: StoreState,
    acting: i64,
    target: i64,
    later: Seq<Operation>,
    asking: i64,
)
    requires
        s.wf(),
        s.saved is None,
        deleted(s, acting, target).1 is Ok,
    ensures
        gone(after_all(deleted(s, acting, target).0, later), target),
        listed_all(after_all(deleted(s, acting, target).0, later), asking) matches Ok(shown)
            ==> forall|k: int| 0 <= k < shown.len() ==> (#[trigger] shown[k]).id != target,
{
    let after = deleted(s, acting, target).0;
    let at = admin_index(s.admins, target)->0;
    assert(s.admins[at].id < s.next_id);
    crate::model::lemma_without_keeps_unique(s.admins, target, s.next_id);
    assert(admin_index(after.admins, target) is None) by {
        if admin_index(after.admins, target) is Some {
            let i = admin_index(after.admins, target)->0;
            assert(after.admins[i].id != target);
        }
    }
    lemma_operation_keeps(s, Operation::Delete { acting, target }, target);
    lemma_history_keeps(after, later, target);
    lemma_gone_is_not_listed(after_all(after, later), target);
}

/// An operation on another target leaves an administrator's row as it
/// is.
pub proof fn lemma_row_outlives_others(s: StoreState, operation: Operation, id: i64)
    requires
        s.wf(),
        s.saved is None,
        admin_index(s.admins, id) is Some,
        operation matches Operation::Delete { target, .. } ==> target != id,
        operation matches Operation::Freeze { target, .. } ==> target != id,
    ensures
        admin_index(applied(s, operation).admins, id) matches Some(j) && applied(
            s,
            operation,
        ).admins[j] == s.admins[admin_index(s.admins, id)->0],
{
    let t = applied(s, operation);
    let i = admin_index(s.admins, id)->0;
    lemma_operation_keeps(s, operation, id);
    match operation {
        Operation::Create { input, hash } => {
            if t.admins != s.admins {
                assert(t.admins[i] == s.admins[i]);
            }
        },
        Operation::Delete { acting, target } => {
            if t != s {
                match admin_index(s.admins, target) {
                    Some(k) => {
                        if i < k {
                            assert(t.admins[i] == s.admins[i]);
                        } else {
                            assert(t.admins[i - 1] == s.admins[i]);
                        }
                    },
                    None => {},
                }
            }
        },
        Operation::Freeze { acting, target } => {
            if t != s {
                let k = admin_index(s.admins, target)->0;
                assert(k != i);
                assert(t.admins[i] == s.admins[i]);
            }
        },
    }
    let j = admin_index(t.admins, id)->0;
    assert(t.admins[j].id == id);
    assert(t.admins[j] == s.admins[i]) by {
        let w = choose|w: int| 0 <= w < t.admins.len() && t.admins[w] == s.admins[i];
        if w < j {
            assert(t.admins[w].id != t.admins[j].id);
        } else if j < w {
            assert(t.admins[j].id != t.admins[w].id);
        }
    }
}

/// Whether none of the operations is a deletion or a freeze of the
/// administrator.
pub open spec fn spares(operations: Seq<Operation>, id: i64) -> bool {
    forall|k: int|
        0 <= k < operations.len() ==> match #[trigger] operations[k] {
            Operation::Create { .. } => true,
            Operation::Delete { target, .. } => target != id,
            Operation::Freeze { target, .. } => target != id,
        }
}

/// Whatever operations follow one another, an administrator whom none of
/// them deletes or freezes keeps its row and its roles.
pub proof fn lemma_spared_stays(s: StoreState, operations: Seq<Operation>, id: i64)
    requires
        s.wf(),
        s.saved is None,
        admin_index(s.admins, id) is Some,
        spares(operations, id),
    ensures
        admin_index(after_all(s, operations).admins, id) matches Some(j) && after_all(
            s,
            operations,
        ).admins[j] == s.admins[admin_index(s.admins, id)->0],
        role_names_of(after_all(s, operations).links, after_all(s, operations).roles, id)
            == role_names_of(s.links, s.roles, id),
    decreases operations.len(),
{
    if operations.len() > 0 {
        let earlier = operations.drop_last();
        let before = after_all(s, earlier);
        let last = operations.last();
        assert(spares(earlier, id)) by {
            assert forall|k: int| 0 <= k < earlier.len() implies match #[trigger] earlier[k] {
                Operation::Create { .. } => true,
                Operation::Delete { target, .. } => target != id,
                Operation::Freeze { target, .. } => target != id,
            } by {
                assert(earlier[k] == operations[k]);
            }
        }
        assert(operations[operations.len() - 1] == last);
        lemma_spared_stays(s, earlier, id);
        lemma_history_keeps(s, earlier, id);
        lemma_row_outlives_others(before, last, id);
        lemma_operation_keeps(before, last, id);
        let at = admin_index(before.admins, id)->0;
        assert(before.admins[at].id == id);
        assert(id < before.next_id);
        match last {
            Operation::Create { input, hash } => {
                lemma_roles_outlive_operations(before, input, hash, 0, 0, id);
            },
            Operation::Delete { acting, target } => {
                lemma_roles_outlive_operations(
                    before,
                    NewAdmin {
                        acting,
                        username: Seq::empty(),
                        password: Seq::empty(),
                        email: Seq::empty(),
                        phone_number: None,
                        role_names: Seq::empty(),
                    },
                    Err(Seq::empty()),
                    acting,
                    target,
                    id,
                );
            },
            Operation::Freeze { acting, target } => {},
        }
    }
}

/// The listing shows the rows in the order of the store: of two entries,
/// the earlier one is the entry of an earlier active row.
pub proof fn lemma_listing_keeps_order(admins: Seq<AdminRecordView>)
    ensures
        forall|j: int, k: int|
            0 <= j < k < active_rows(admins).len() ==> exists|a: int, b: int|
                0 <= a < b < admins.len() && #[trigger] active_rows(admins)[j] == listed(
                    admins[a],
                ) && #[trigger] active_rows(admins)[k] == listed(admins[b]),
    decreases admins.len(),
{
    if admins.len() > 0 {
        let shorter = admins.drop_last();
        let shown = active_rows(admins);
        lemma_listing_keeps_order(shorter);
        lemma_active_rows(shorter);
        assert forall|j: int, k: int| 0 <= j < k < shown.len() implies exists|a: int, b: int|
            0 <= a < b < admins.len() && #[trigger] shown[j] == listed(admins[a])
                && #[trigger] shown[k] == listed(admins[b]) by {
            if k < active_rows(shorter).len() {
                let (a, b) = choose|a: int, b: int|
                    0 <= a < b < shorter.len() && active_rows(shorter)[j] == listed(shorter[a])
                        && active_rows(shorter)[k] == listed(shorter[b]);
                assert(admins[a] == shorter[a] && admins[b] == shorter[b]);
                assert(shown[j] == active_rows(shorter)[j] && shown[k] == active_rows(shorter)[k]);
            } else {
                let a = choose|a: int|
                    0 <= a < shorter.len() && shorter[a].is_active && active_rows(shorter)[j]
                        == listed(shorter[a]);
                let b = admins.len() - 1;
                assert(admins[a] == shorter[a]);
                assert(shown[j] == active_rows(shorter)[j]);
                assert(shown[k] == listed(admins[b]));
            }
        }
    }
}

/// Every active row is shown by the listing.
pub proof fn lemma_active_row_is_shown(admins: Seq<AdminRecordView>, i: int)
    requires
        0 <= i < admins.len(),
        admins[i].is_active,
    ensures
        exists|k: int|
            0 <= k < active_rows(admins).len() && #[trigger] active_rows(admins)[k] == listed(
                admins[i],
            ),
    decreases admins.len(),
{
    let shorter = admins.drop_last();
    if i == admins.len() - 1 {
        let k = active_rows(admins).len() - 1;
        assert(active_rows(admins)[k] == listed(admins[i]));
    } else {
        lemma_active_row_is_shown(shorter, i);
        let k = choose|k: int|
            0 <= k < active_rows(shorter).len() && #[trigger] active_rows(shorter)[k] == listed(
                shorter[i],
            );
        assert(active_rows(admins)[k] == active_rows(shorter)[k]);
    }
}

/// The listing shows every active administrator exactly once, with the
/// values of its row and the roles it holds; no two entries share an id.
pub proof fn lemma_listed_exactly_once(s: StoreState, id: i64)
    requires
        s.wf(),
        admin_index(s.admins, id) matches Some(i) && s.admins[i].is_active,
    ensures
        exists|k: int|
            0 <= k < entries(s).len() && #[trigger] entries(s)[k] == entry_of(
                listed(s.admins[admin_index(s.admins, id)->0]),
                role_names_of(s.links, s.roles, id),
            ) && forall|j: int|
                0 <= j < entries(s).len() && j != k ==> (#[trigger] entries(s)[j]).id != id,
{
    let i = admin_index(s.admins, id)->0;
    assert(s.admins[i].id == id);
    lemma_active_row_is_shown(s.admins, i);
    lemma_listing_keeps_order(s.admins);
    let shown = active_rows(s.admins);
    let k = choose|k: int| 0 <= k < shown.len() && #[trigger] shown[k] == listed(s.admins[i]);
    assert(entries(s)[k] == entry_of(listed(s.admins[i]), role_names_of(s.links, s.roles, id)));
    assert forall|j: int| 0 <= j < entries(s).len() && j != k implies (#[trigger] entries(s)[j]).id
        != id by {
        if j < k {
            let (a, b) = choose|a: int, b: int|
                0 <= a < b < s.admins.len() && shown[j] == listed(s.admins[a]) && shown[k]
                    == listed(s.admins[b]);
            assert(s.admins[a].id != s.admins[b].id);
        } else {
            let (a, b) = choose|a: int, b: int|
                0 <= a < b < s.admins.len() && shown[k] == listed(s.admins[a]) && shown[j]
                    == listed(s.admins[b]);
            assert(s.admins[a].id != s.admins[b].id);
        }
    }
}

/// An administrator that a creation made is listed from then on, until it
/// is frozen or deleted: whatever operations on others follow, the listing
/// shows it exactly once, active, with the values and exactly the roles it
/// was created with.
pub proof fn lemma_created_stays_listed(
    s: StoreState,
    input: NewAdmin,
    hash: Result<Seq<char>, Seq<char>>,
    later: Seq<Operation>,
)
    requires
        s.wf(),
        s.saved is None,
        created(s, input, hash).1 is Ok,
        spares(later, s.next_id),
    ensures
        exists|k: int|
            0 <= k < entries(after_all(created(s, input, hash).0, later)).len()
                && #[trigger] entries(after_all(created(s, input, hash).0, later))[k]
                == crate::service::new_entry(s, input) && forall|j: int|
                0 <= j < entries(after_all(created(s, input, hash).0, later)).len() && j != k ==> (
                #[trigger] entries(after_all(created(s, input, hash).0, later))[j]).id
                    != s.next_id,
{
    let id = s.next_id;
    let made = created(s, input, hash).0;
    let end = after_all(made, later);
    lemma_operation_keeps(s, Operation::Create { input, hash }, id);
    crate::service::lemma_created_holds_exactly_its_roles(s, input, hash);
    let last = made.admins.len() - 1;
    assert(made.admins[last].id == id);
    let at = admin_index(made.admins, id)->0;
    assert(at == last) by {
        if at < last {
            assert(made.admins[at].id != made.admins[last].id);
        }
    }
    lemma_spared_stays(made, later, id);
    lemma_history_keeps(made, later, id);
    lemma_listed_exactly_once(end, id);
}

} // verus!
