//! The account store as mathematics: the administrator, role and
//! assignment relations, the uniqueness they keep, and what each request
//! does to them.

use vstd::prelude::*;
use crate::protocol::{AdminRowView, Column, CredentialsView, ReplyView, RequestView};

verus! {

/// An administrator row.
pub ghost struct AdminRecordView {
    pub id: i64,
    pub username: Seq<char>,
    pub email: Seq<char>,
    pub phone_number: Option<Seq<char>>,
    pub password_hash: Seq<char>,
    pub is_active: bool,
    pub created_at: i64,
    pub updated_at: i64,
}

/// A role row.
pub ghost struct RoleRecordView {
    pub id: i32,
    pub name: Seq<char>,
}

/// A role assignment: an edge from an administrator to a role.
#[derive(Debug, Clone, Copy, PartialEq, Eq, Structural)]
pub struct RoleLink {
    pub user_id: i64,
    pub role_id: i32,
}

/// The two relations that a transaction can change.
pub ghost struct Tables {
    pub admins: Seq<AdminRecordView>,
    pub links: Seq<RoleLink>,
}

/// Everything the store holds.
pub ghost struct StoreState {
    pub admins: Seq<AdminRecordView>,
    pub roles: Seq<RoleRecordView>,
    pub links: Seq<RoleLink>,
    /// The id that the next inserted administrator gets.
    pub next_id: i64,
    /// The store's clock, in seconds since the epoch.
    pub now: i64,
    /// The relations as they were when the open transaction began.
    pub saved: Option<Tables>,
}

/// What the row holds in the column.
pub open spec fn held(row: AdminRecordView, column: Column) -> Option<Seq<char>> {
    match column {
        Column::Username => Some(row.username),
        Column::Email => Some(row.email),
        Column::PhoneNumber => row.phone_number,
    }
}

/// Whether some row holds the value in the column.
pub open spec fn taken(admins: Seq<AdminRecordView>, column: Column, value: Seq<char>) -> bool {
    exists|i: int| 0 <= i < admins.len() && held(#[trigger] admins[i], column) == Some(value)
}

/// Whether the rows are told apart by id, by username, by email and, where
/// they have one, by phone number, and every id lies below `next_id`.
pub open spec fn admins_unique(admins: Seq<AdminRecordView>, next_id: i64) -> bool {
    &&& forall|i: int| 0 <= i < admins.len() ==> (#[trigger] admins[i]).id < next_id
    &&& forall|i: int, j: int|
        0 <= i < j < admins.len() ==> (#[trigger] admins[i]).id != (#[trigger] admins[j]).id
    &&& forall|i: int, j: int, column: Column|
        0 <= i < j < admins.len() && held(admins[i], column) is Some ==> #[trigger] held(
            admins[i],
            column,
        ) != #[trigger] held(admins[j], column)
}

/// Whether the roles are told apart by id and by name.
pub open spec fn roles_unique(roles: Seq<RoleRecordView>) -> bool {
    forall|i: int, j: int|
        0 <= i < j < roles.len() ==> (#[trigger] roles[i]).id != (#[trigger] roles[j]).id
            && roles[i].name != roles[j].name
}

/// The index of the row of that id, where there is one.
pub open spec fn admin_index(admins: Seq<AdminRecordView>, id: i64) -> Option<int> {
    if exists|i: int| 0 <= i < admins.len() && (#[trigger] admins[i]).id == id {
        Some(choose|i: int| 0 <= i < admins.len() && (#[trigger] admins[i]).id == id)
    } else {
        None
    }
}

/// Whether every assignment is that of an administrator who has a row.
pub open spec fn links_refer(links: Seq<RoleLink>, admins: Seq<AdminRecordView>) -> bool {
    forall|i: int| 0 <= i < links.len() ==> admin_index(admins, (#[trigger] links[i]).user_id) is Some
}

/// Whether every assignment is to a role that there is.
pub open spec fn links_name_roles(links: Seq<RoleLink>, roles: Seq<RoleRecordView>) -> bool {
    forall|i: int| 0 <= i < links.len() ==> role_name(roles, (#[trigger] links[i]).role_id) is Some
}

/// Whether some assignment is the administrator's.
pub open spec fn has_links(links: Seq<RoleLink>, id: i64) -> bool {
    exists|i: int| 0 <= i < links.len() && (#[trigger] links[i]).user_id == id
}

/// The index of the active row of that username, where there is one.
pub open spec fn active_index(admins: Seq<AdminRecordView>, username: Seq<char>) -> Option<int> {
    if exists|i: int|
        0 <= i < admins.len() && (#[trigger] admins[i]).username == username && admins[i].is_active {
        Some(
            choose|i: int|
                0 <= i < admins.len() && (#[trigger] admins[i]).username == username
                    && admins[i].is_active,
        )
    } else {
        None
    }
}

/// The index of the role of that name, where there is one.
pub open spec fn role_index(roles: Seq<RoleRecordView>, name: Seq<char>) -> Option<int> {
    if exists|i: int| 0 <= i < roles.len() && (#[trigger] roles[i]).name == name {
        Some(choose|i: int| 0 <= i < roles.len() && (#[trigger] roles[i]).name == name)
    } else {
        None
    }
}

/// The name of the role of that id, where there is one.
pub open spec fn role_name(roles: Seq<RoleRecordView>, id: i32) -> Option<Seq<char>> {
    if exists|i: int| 0 <= i < roles.len() && (#[trigger] roles[i]).id == id {
        Some(roles[choose|i: int| 0 <= i < roles.len() && (#[trigger] roles[i]).id == id].name)
    } else {
        None
    }
}

/// The names of the roles assigned to the administrator, in the order of
/// the assignments.
pub open spec fn role_names_of(links: Seq<RoleLink>, roles: Seq<RoleRecordView>, id: i64) -> Seq<
    Seq<char>,
>
    decreases links.len(),
{
    if links.len() == 0 {
        Seq::empty()
    } else {
        let before = role_names_of(links.drop_last(), roles, id);
        if links.last().user_id == id && role_name(roles, links.last().role_id) is Some {
            before.push(role_name(roles, links.last().role_id)->0)
        } else {
            before
        }
    }
}

/// The assignments without those of the administrator.
pub open spec fn links_without(links: Seq<RoleLink>, id: i64) -> Seq<RoleLink>
    decreases links.len(),
{
    if links.len() == 0 {
        Seq::empty()
    } else if links.last().user_id == id {
        links_without(links.drop_last(), id)
    } else {
        links_without(links.drop_last(), id).push(links.last())
    }
}

/// The row as the listing reads it.
pub open spec fn listed(row: AdminRecordView) -> AdminRowView {
    AdminRowView {
        id: row.id,
        username: row.username,
        email: row.email,
        phone_number: row.phone_number,
        is_active: Some(row.is_active),
        created_at: Some(row.created_at),
    }
}

/// The active rows in order, as the listing reads them.
pub open spec fn active_rows(admins: Seq<AdminRecordView>) -> Seq<AdminRowView>
    decreases admins.len(),
{
    if admins.len() == 0 {
        Seq::empty()
    } else if admins.last().is_active {
        active_rows(admins.drop_last()).push(listed(admins.last()))
    } else {
        active_rows(admins.drop_last())
    }
}

/// The rows without the one of that id.
pub open spec fn admins_without(admins: Seq<AdminRecordView>, id: i64) -> Seq<AdminRecordView> {
    match admin_index(admins, id) {
        Some(i) => admins.remove(i),
        None => admins,
    }
}

/// The rows with the one of that id frozen at the moment `now`.
pub open spec fn admins_frozen(admins: Seq<AdminRecordView>, id: i64, now: i64) -> Seq<
    AdminRecordView,
> {
    match admin_index(admins, id) {
        Some(i) => admins.update(
            i,
            AdminRecordView { is_active: false, updated_at: now, ..admins[i] },
        ),
        None => admins,
    }
}

/// What a store says of a request that it cannot carry out.
pub open spec fn refusal(request: RequestView) -> Seq<char> {
    match request {
        RequestView::HashPassword { .. } => "not a request to the store"@,
        RequestView::Begin => "a transaction is already open"@,
        RequestView::Commit => "no transaction is open"@,
        RequestView::Rollback => "no transaction is open"@,
        RequestView::InsertAdmin { .. } => "duplicate key value violates unique constraint"@,
        RequestView::AssignRole { .. } => "insert or update on table violates foreign key constraint"@,
        RequestView::DeleteAdmin { .. } => "update or delete on table violates foreign key constraint"@,
        RequestView::Status { .. } => "no rows returned by a query that expected to return at least one row"@,
        _ => "the request failed"@,
    }
}

impl StoreState {
    /// The invariant of the store: the rows it holds are told apart, every
    /// assignment is that of an administrator who has a row to a role that
    /// there is, and so it is with the relations that it would go back to.
    pub open spec fn wf(self) -> bool {
        &&& admins_unique(self.admins, self.next_id)
        &&& roles_unique(self.roles)
        &&& links_refer(self.links, self.admins)
        &&& links_name_roles(self.links, self.roles)
        &&& self.saved matches Some(t) ==> admins_unique(t.admins, self.next_id) && links_refer(
            t.links,
            t.admins,
        ) && links_name_roles(t.links, self.roles)
    }

    /// The two relations that a transaction can change.
    pub open spec fn tables(self) -> Tables {
        Tables { admins: self.admins, links: self.links }
    }

    /// Whether the administrator holds the super-administrator role.
    pub open spec fn is_super_admin(self, id: i64) -> bool {
        role_names_of(self.links, self.roles, id).contains(crate::guard::super_admin())
    }

    /// Whether an insertion of these values would break no uniqueness and
    /// an id is left for it.
    pub open spec fn admits(
        self,
        username: Seq<char>,
        email: Seq<char>,
        phone_number: Option<Seq<char>>,
    ) -> bool {
        &&& !taken(self.admins, Column::Username, username)
        &&& !taken(self.admins, Column::Email, email)
        &&& phone_number matches Some(p) ==> !taken(self.admins, Column::PhoneNumber, p)
        &&& self.next_id < i64::MAX
    }

    /// The reply to a request that cannot be carried out; nothing changes.
    pub open spec fn refuse(self, request: RequestView) -> (StoreState, ReplyView) {
        (self, ReplyView::Failed(refusal(request)))
    }
}

/// The row that an insertion makes.
pub open spec fn inserted_row(
    s: StoreState,
    username: Seq<char>,
    email: Seq<char>,
    password_hash: Seq<char>,
    phone_number: Option<Seq<char>>,
) -> AdminRecordView {
    AdminRecordView {
        id: s.next_id,
        username,
        email,
        phone_number,
        password_hash,
        is_active: true,
        created_at: s.now,
        updated_at: s.now,
    }
}

/// What the store holds after a request, and its reply.
///
/// Reads change nothing. A write changes the relations at once; a rollback
/// puts back what they were when the transaction began. The store itself
/// refuses an insertion that would break a uniqueness, an assignment to an
/// administrator who has no row or to a role that there is not, and the
/// removal of a row that still has assignments.
pub open spec fn respond(s: StoreState, request: RequestView) -> (StoreState, ReplyView) {
    match request {
        RequestView::HashPassword { .. } => s.refuse(request),
        RequestView::RolesOf { admin_id } => (
            s,
            ReplyView::Roles(role_names_of(s.links, s.roles, admin_id)),
        ),
        RequestView::FindActiveByUsername { username } => (
            s,
            ReplyView::Found(
                match active_index(s.admins, username) {
                    Some(i) => Some(
                        CredentialsView {
                            id: s.admins[i].id,
                            username: s.admins[i].username,
                            password_hash: s.admins[i].password_hash,
                        },
                    ),
                    None => None,
                },
            ),
        ),
        RequestView::Begin => if s.saved is None {
            (StoreState { saved: Some(s.tables()), ..s }, ReplyView::Done)
        } else {
            s.refuse(request)
        },
        RequestView::Exists { column, value } => (
            s,
            ReplyView::Exists(taken(s.admins, column, value)),
        ),
        RequestView::InsertAdmin { username, email, password_hash, phone_number } => if s.admits(
            username,
            email,
            phone_number,
        ) {
            (
                StoreState {
                    admins: s.admins.push(
                        inserted_row(s, username, email, password_hash, phone_number),
                    ),
                    next_id: (s.next_id + 1) as i64,
                    ..s
                },
                ReplyView::AdminId(s.next_id),
            )
        } else {
            s.refuse(request)
        },
        RequestView::RoleIdByName { name } => (
            s,
            ReplyView::RoleId(
                match role_index(s.roles, name) {
                    Some(i) => Some(s.roles[i].id),
                    None => None,
                },
            ),
        ),
        RequestView::AssignRole { admin_id, role_id, .. } => if admin_index(s.admins, admin_id)
            is Some && role_name(s.roles, role_id) is Some {
            (
                StoreState { links: s.links.push(RoleLink { user_id: admin_id, role_id }), ..s },
                ReplyView::Done,
            )
        } else {
            s.refuse(request)
        },
        RequestView::ActiveExists { admin_id } => (
            s,
            ReplyView::Exists(
                match admin_index(s.admins, admin_id) {
                    Some(i) => s.admins[i].is_active,
                    None => false,
                },
            ),
        ),
        RequestView::Status { admin_id } => match admin_index(s.admins, admin_id) {
            Some(i) => (s, ReplyView::Status(Some(s.admins[i].is_active))),
            None => s.refuse(request),
        },
        RequestView::DeleteAssignments { admin_id } => (
            StoreState { links: links_without(s.links, admin_id), ..s },
            ReplyView::Done,
        ),
        RequestView::DeleteAdmin { admin_id } => if has_links(s.links, admin_id) {
            s.refuse(request)
        } else {
            (StoreState { admins: admins_without(s.admins, admin_id), ..s }, ReplyView::Done)
        },
        RequestView::Deactivate { admin_id } => (
            StoreState { admins: admins_frozen(s.admins, admin_id, s.now), ..s },
            ReplyView::Done,
        ),
        RequestView::ListActive => (s, ReplyView::Admins(active_rows(s.admins))),
        RequestView::Commit => if s.saved is Some {
            (StoreState { saved: None, ..s }, ReplyView::Done)
        } else {
            s.refuse(request)
        },
        RequestView::Rollback => match s.saved {
            Some(t) => (
                StoreState { admins: t.admins, links: t.links, saved: None, ..s },
                ReplyView::Done,
            ),
            None => s.refuse(request),
        },
    }
}

/// In a store that keeps its invariant, no two rows share a username, an
/// email or an id.
pub proof fn lemma_rows_differ(s: StoreState, i: int, j: int)
    requires
        s.wf(),
        0 <= i < s.admins.len(),
        0 <= j < s.admins.len(),
        i != j,
    ensures
        s.admins[i].username != s.admins[j].username,
        s.admins[i].email != s.admins[j].email,
        s.admins[i].id != s.admins[j].id,
{
    if i < j {
        assert(held(s.admins[i], Column::Username) != held(s.admins[j], Column::Username));
        assert(held(s.admins[i], Column::Email) != held(s.admins[j], Column::Email));
    } else {
        assert(held(s.admins[j], Column::Username) != held(s.admins[i], Column::Username));
        assert(held(s.admins[j], Column::Email) != held(s.admins[i], Column::Email));
    }
}

/// The store is the last authority on uniqueness: whatever a probe said
/// before, an insertion of a value that is held is refused and changes
/// nothing.
pub proof fn lemma_store_refuses_duplicates(
    s: StoreState,
    username: Seq<char>,
    email: Seq<char>,
    password_hash: Seq<char>,
    phone_number: Option<Seq<char>>,
)
    requires
        taken(s.admins, Column::Username, username) || taken(s.admins, Column::Email, email) || (
        phone_number is Some && taken(s.admins, Column::PhoneNumber, phone_number->0)),
    ensures
        respond(s, RequestView::InsertAdmin { username, email, password_hash, phone_number }) == (
            s,
            ReplyView::Failed(
                refusal(RequestView::InsertAdmin { username, email, password_hash, phone_number }),
            ),
        ),
{
}

/// A row that is there is still there after another is added or one is
/// frozen.
pub proof fn lemma_rows_stay(admins: Seq<AdminRecordView>, after: Seq<AdminRecordView>, id: i64)
    requires
        admin_index(admins, id) is Some,
        admins.len() <= after.len(),
        forall|i: int| 0 <= i < admins.len() ==> (#[trigger] after[i]).id == admins[i].id,
    ensures
        admin_index(after, id) is Some,
{
    let i = admin_index(admins, id)->0;
    assert(after[i].id == id);
}

/// Every assignment that was to a role is still to one after a role is
/// added.
pub proof fn lemma_roles_stay(links: Seq<RoleLink>, roles: Seq<RoleRecordView>, role: RoleRecordView)
    requires
        links_name_roles(links, roles),
    ensures
        links_name_roles(links, roles.push(role)),
{
    assert forall|i: int| 0 <= i < links.len() implies role_name(
        roles.push(role),
        (#[trigger] links[i]).role_id,
    ) is Some by {
        let at = choose|at: int| 0 <= at < roles.len() && (#[trigger] roles[at]).id == links[i].role_id;
        assert(roles.push(role)[at].id == links[i].role_id);
    }
}

/// Whatever the request, the store keeps its invariant.
pub proof fn lemma_respond_keeps_wf(s: StoreState, request: RequestView)
    requires
        s.wf(),
    ensures
        respond(s, request).0.wf(),
{
    let t = respond(s, request).0;
    match request {
        RequestView::InsertAdmin { username, email, password_hash, phone_number } => {
            if s.admits(username, email, phone_number) {
                let row = inserted_row(s, username, email, password_hash, phone_number);
                assert forall|i: int, j: int, column: Column|
                    0 <= i < j < t.admins.len() && held(t.admins[i], column) is Some implies #[trigger] held(
                    t.admins[i],
                    column,
                ) != #[trigger] held(t.admins[j], column) by {
                    if j == s.admins.len() {
                        assert(held(s.admins[i], column) != held(row, column));
                    }
                }
                assert forall|i: int| 0 <= i < t.links.len() implies admin_index(
                    t.admins,
                    (#[trigger] t.links[i]).user_id,
                ) is Some by {
                    lemma_rows_stay(s.admins, t.admins, s.links[i].user_id);
                }
            }
        },
        RequestView::AssignRole { admin_id, role_id, .. } => {},
        RequestView::DeleteAssignments { admin_id } => {
            lemma_links_come_from(s.links, admin_id);
            assert forall|i: int| 0 <= i < t.links.len() implies admin_index(
                t.admins,
                (#[trigger] t.links[i]).user_id,
            ) is Some && role_name(t.roles, t.links[i].role_id) is Some by {
                let j = choose|j: int| 0 <= j < s.links.len() && s.links[j] == t.links[i];
                assert(admin_index(s.admins, s.links[j].user_id) is Some);
                assert(role_name(s.roles, s.links[j].role_id) is Some);
            }
        },
        RequestView::DeleteAdmin { admin_id } => {
            lemma_without_keeps_unique(s.admins, admin_id, s.next_id);
            if !has_links(s.links, admin_id) {
                assert forall|i: int| 0 <= i < t.links.len() implies admin_index(
                    t.admins,
                    (#[trigger] t.links[i]).user_id,
                ) is Some by {
                    assert(s.links[i].user_id != admin_id);
                    lemma_others_stay(s.admins, admin_id, s.links[i].user_id);
                }
            }
        },
        RequestView::Deactivate { admin_id } => {
            match admin_index(s.admins, admin_id) {
                Some(k) => {
                    assert forall|i: int, column: Column| 0 <= i < t.admins.len() implies #[trigger] held(
                        t.admins[i],
                        column,
                    ) == held(s.admins[i], column) && t.admins[i].id == s.admins[i].id by {}
                    assert forall|i: int| 0 <= i < t.links.len() implies admin_index(
                        t.admins,
                        (#[trigger] t.links[i]).user_id,
                    ) is Some by {
                        lemma_rows_stay(s.admins, t.admins, s.links[i].user_id);
                    }
                },
                None => {},
            }
        },
        _ => {},
    }
}

/// Every assignment that is left after an administrator's are taken out
/// was there before.
pub proof fn lemma_links_come_from(links: Seq<RoleLink>, id: i64)
    ensures
        forall|i: int|
            0 <= i < links_without(links, id).len() ==> exists|j: int|
                0 <= j < links.len() && links[j] == #[trigger] links_without(links, id)[i],
    decreases links.len(),
{
    if links.len() > 0 {
        lemma_links_come_from(links.drop_last(), id);
        let rest = links_without(links, id);
        let shorter = links_without(links.drop_last(), id);
        assert forall|i: int| 0 <= i < rest.len() implies exists|j: int|
            0 <= j < links.len() && links[j] == #[trigger] rest[i] by {
            if i < shorter.len() {
                assert(rest[i] == shorter[i]);
                let j = choose|j: int|
                    0 <= j < links.drop_last().len() && links.drop_last()[j] == shorter[i];
                assert(links[j] == rest[i]);
            } else {
                assert(links[links.len() - 1] == rest[i]);
            }
        }
    }
}

/// The removal of one row leaves every other row there.
pub proof fn lemma_others_stay(admins: Seq<AdminRecordView>, id: i64, other: i64)
    requires
        other != id,
        admin_index(admins, other) is Some,
    ensures
        admin_index(admins_without(admins, id), other) is Some,
{
    let rest = admins_without(admins, id);
    let j = admin_index(admins, other)->0;
    match admin_index(admins, id) {
        Some(k) => {
            if j < k {
                assert(rest[j].id == other);
            } else {
                assert(rest[j - 1] == admins[j]);
                assert(rest[j - 1].id == other);
            }
        },
        None => {},
    }
}

/// Removing a row keeps the rest told apart.
pub proof fn lemma_without_keeps_unique(admins: Seq<AdminRecordView>, id: i64, next_id: i64)
    requires
        admins_unique(admins, next_id),
    ensures
        admins_unique(admins_without(admins, id), next_id),
        forall|i: int|
            0 <= i < admins_without(admins, id).len() ==> (#[trigger] admins_without(
                admins,
                id,
            )[i]).id != id,
{
    let rest = admins_without(admins, id);
    match admin_index(admins, id) {
        Some(k) => {
            assert forall|i: int| 0 <= i < rest.len() implies #[trigger] rest[i] == admins[if i
                < k {
                i
            } else {
                i + 1
            }] by {}
        },
        None => {},
    }
}

/// No assignment of the administrator is left after their removal, and
/// the assignments of the others stay.
pub proof fn lemma_links_without(links: Seq<RoleLink>, roles: Seq<RoleRecordView>, id: i64)
    ensures
        forall|i: int|
            0 <= i < links_without(links, id).len() ==> (#[trigger] links_without(
                links,
                id,
            )[i]).user_id != id,
        role_names_of(links_without(links, id), roles, id) == Seq::<Seq<char>>::empty(),
        forall|other: i64|
            other != id ==> #[trigger] role_names_of(links_without(links, id), roles, other)
                == role_names_of(links, roles, other),
    decreases links.len(),
{
    if links.len() > 0 {
        lemma_links_without(links.drop_last(), roles, id);
        let rest = links_without(links, id);
        if links.last().user_id != id {
            assert(rest.drop_last() == links_without(links.drop_last(), id));
            assert(rest.last() == links.last());
        }
        assert forall|other: i64| other != id implies #[trigger] role_names_of(rest, roles, other)
            == role_names_of(links, roles, other) by {
            assert(role_names_of(links_without(links.drop_last(), id), roles, other)
                == role_names_of(links.drop_last(), roles, other));
        }
    }
}

/// An administrator without assignments holds no role.
pub proof fn lemma_no_links_no_roles(links: Seq<RoleLink>, roles: Seq<RoleRecordView>, id: i64)
    requires
        !has_links(links, id),
    ensures
        role_names_of(links, roles, id) == Seq::<Seq<char>>::empty(),
    decreases links.len(),
{
    if links.len() > 0 {
        assert(links[links.len() - 1].user_id != id);
        assert forall|i: int| 0 <= i < links.drop_last().len() implies (
        #[trigger] links.drop_last()[i]).user_id != id by {
            assert(links[i].user_id != id);
        }
        lemma_no_links_no_roles(links.drop_last(), roles, id);
    }
}

/// No assignment waits for an administrator who is yet to come: an id
/// that no row has had so far has no assignment and no role.
pub proof fn lemma_no_links_wait(s: StoreState, id: i64)
    requires
        s.wf(),
        id >= s.next_id,
    ensures
        !has_links(s.links, id),
        role_names_of(s.links, s.roles, id) == Seq::<Seq<char>>::empty(),
{
    assert forall|i: int| 0 <= i < s.links.len() implies (#[trigger] s.links[i]).user_id != id by {
        let at = admin_index(s.admins, s.links[i].user_id)->0;
        assert(s.admins[at].id < s.next_id);
    }
    lemma_no_links_no_roles(s.links, s.roles, id);
}

/// The role names of a run of assignments are those of its first part
/// followed by those of its second.
pub proof fn lemma_role_names_join(
    first: Seq<RoleLink>,
    second: Seq<RoleLink>,
    roles: Seq<RoleRecordView>,
    id: i64,
)
    ensures
        role_names_of(first + second, roles, id) == role_names_of(first, roles, id) + role_names_of(
            second,
            roles,
            id,
        ),
    decreases second.len(),
{
    if second.len() == 0 {
        assert(first + second =~= first);
        assert(role_names_of(first, roles, id) + role_names_of(second, roles, id)
            =~= role_names_of(first, roles, id));
    } else {
        lemma_role_names_join(first, second.drop_last(), roles, id);
        assert((first + second).drop_last() =~= first + second.drop_last());
        assert((first + second).last() == second.last());
        let before = role_names_of(first, roles, id) + role_names_of(
            second.drop_last(),
            roles,
            id,
        );
        if second.last().user_id == id && role_name(roles, second.last().role_id) is Some {
            let name = role_name(roles, second.last().role_id)->0;
            assert(before.push(name) =~= role_names_of(first, roles, id) + role_names_of(
                second.drop_last(),
                roles,
                id,
            ).push(name));
        }
    }
}

/// Among roles told apart by id and name, the role found by a name has
/// that name under its id.
pub proof fn lemma_role_by_name_and_id(roles: Seq<RoleRecordView>, name: Seq<char>)
    requires
        roles_unique(roles),
        role_index(roles, name) is Some,
    ensures
        role_name(roles, roles[role_index(roles, name)->0].id) == Some(name),
{
    let i = role_index(roles, name)->0;
    let id = roles[i].id;
    assert(roles[i].id == id);
    let j = choose|j: int| 0 <= j < roles.len() && (#[trigger] roles[j]).id == id;
    assert(j == i) by {
        if j < i {
            assert(roles[j].id != roles[i].id);
        } else if j > i {
            assert(roles[i].id != roles[j].id);
        }
    }
}

} // verus!
