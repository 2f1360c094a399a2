//! An account store that lives in memory and answers requests as the
//! model says.

use vstd::prelude::*;
use vstd::string::StringExecFns;
use crate::model::{
    active_index, active_rows, admin_index, has_links, held, inserted_row, lemma_roles_stay,
    links_without, listed, refusal, respond, role_index, role_name, role_names_of, taken,
    AdminRecordView, RoleLink, RoleRecordView, StoreState, Tables,
};
use crate::protocol::{AdminRow, Column, Credentials, Reply, ReplyView, Request};

verus! {

/// An administrator row.
#[derive(Debug, PartialEq, Eq)]
pub struct AdminRecord {
    pub id: i64,
    pub username: String,
    pub email: String,
    pub phone_number: Option<String>,
    pub password_hash: String,
    pub is_active: bool,
    pub created_at: i64,
    pub updated_at: i64,
}

impl View for AdminRecord {
    type V = AdminRecordView;

    open spec fn view(&self) -> AdminRecordView {
        AdminRecordView {
            id: self.id,
            username: self.username@,
            email: self.email@,
            phone_number: self.phone_number.deep_view(),
            password_hash: self.password_hash@,
            is_active: self.is_active,
            created_at: self.created_at,
            updated_at: self.updated_at,
        }
    }
}

impl DeepView for AdminRecord {
    type V = AdminRecordView;

    open spec fn deep_view(&self) -> AdminRecordView {
        self@
    }
}

/// A role row.
#[derive(Debug, PartialEq, Eq)]
pub struct RoleRecord {
    pub id: i32,
    pub name: String,
}

impl View for RoleRecord {
    type V = RoleRecordView;

    open spec fn view(&self) -> RoleRecordView {
        RoleRecordView { id: self.id, name: self.name@ }
    }
}

impl DeepView for RoleRecord {
    type V = RoleRecordView;

    open spec fn deep_view(&self) -> RoleRecordView {
        self@
    }
}

#[derive(Debug)]
struct SavedTables {
    admins: Vec<AdminRecord>,
    links: Vec<RoleLink>,
}

/// The account store in memory.
#[derive(Debug)]
pub struct MemoryStore {
    admins: Vec<AdminRecord>,
    roles: Vec<RoleRecord>,
    links: Vec<RoleLink>,
    next_id: i64,
    now: i64,
    saved: Option<SavedTables>,
}

impl View for MemoryStore {
    type V = StoreState;

    closed spec fn view(&self) -> StoreState {
        StoreState {
            admins: self.admins.deep_view(),
            roles: self.roles.deep_view(),
            links: self.links@,
            next_id: self.next_id,
            now: self.now,
            saved: match self.saved {
                Some(t) => Some(Tables { admins: t.admins.deep_view(), links: t.links@ }),
                None => None,
            },
        }
    }
}

fn copy_text(text: &Option<String>) -> (r: Option<String>)
    ensures
        r.deep_view() == text.deep_view(),
{
    match text {
        Some(t) => Some(t.clone()),
        None => None,
    }
}

/// A copy of the row.
pub fn copy_record(row: &AdminRecord) -> (r: AdminRecord)
    ensures
        r@ == row@,
{
    AdminRecord {
        id: row.id,
        username: row.username.clone(),
        email: row.email.clone(),
        phone_number: copy_text(&row.phone_number),
        password_hash: row.password_hash.clone(),
        is_active: row.is_active,
        created_at: row.created_at,
        updated_at: row.updated_at,
    }
}

fn copy_records(rows: &Vec<AdminRecord>) -> (r: Vec<AdminRecord>)
    ensures
        r.deep_view() == rows.deep_view(),
{
    let mut out: Vec<AdminRecord> = Vec::new();
    let mut i: usize = 0;
    while i < rows.len()
        invariant
            i <= rows.len(),
            out.len() == i,
            forall|j: int| 0 <= j < i ==> out@[j]@ == rows@[j]@,
        decreases rows.len() - i,
    {
        out.push(copy_record(&rows[i]));
        i = i + 1;
    }
    proof {
        assert(out.deep_view() =~= rows.deep_view());
    }
    out
}

fn copy_links(links: &Vec<RoleLink>) -> (r: Vec<RoleLink>)
    ensures
        r@ == links@,
{
    let mut out: Vec<RoleLink> = Vec::new();
    let mut i: usize = 0;
    while i < links.len()
        invariant
            i <= links.len(),
            out@ == links@.take(i as int),
        decreases links.len() - i,
    {
        out.push(links[i]);
        proof {
            assert(links@.take(i + 1) == links@.take(i as int).push(links@[i as int]));
        }
        i = i + 1;
    }
    proof {
        assert(links@.take(links.len() as int) == links@);
    }
    out
}

fn holds_value(row: &AdminRecord, column: Column, value: &String) -> (r: bool)
    ensures
        r == (held(row@, column) == Some(value@)),
{
    match column {
        Column::Username => row.username == *value,
        Column::Email => row.email == *value,
        Column::PhoneNumber => match &row.phone_number {
            Some(p) => *p == *value,
            None => false,
        },
    }
}

fn refuse(request: &Request) -> (r: Reply)
    ensures
        r@ == ReplyView::Failed(refusal(request@)),
{
    match request {
        Request::HashPassword { .. } => Reply::Failed(String::from_str("not a request to the store")),
        Request::Begin => Reply::Failed(String::from_str("a transaction is already open")),
        Request::Commit => Reply::Failed(String::from_str("no transaction is open")),
        Request::Rollback => Reply::Failed(String::from_str("no transaction is open")),
        Request::InsertAdmin { .. } => Reply::Failed(
            String::from_str("duplicate key value violates unique constraint"),
        ),
        Request::AssignRole { .. } => Reply::Failed(
            String::from_str("insert or update on table violates foreign key constraint"),
        ),
        Request::DeleteAdmin { .. } => Reply::Failed(
            String::from_str("update or delete on table violates foreign key constraint"),
        ),
        Request::Status { .. } => Reply::Failed(
            String::from_str("no rows returned by a query that expected to return at least one row"),
        ),
        _ => Reply::Failed(String::from_str("the request failed")),
    }
}

impl MemoryStore {
    /// An empty store whose clock reads `now`. The first administrator
    /// gets the id 1.
    pub fn new(now: i64) -> (r: MemoryStore)
        ensures
            r@ == (StoreState {
                admins: Seq::empty(),
                roles: Seq::empty(),
                links: Seq::empty(),
                next_id: 1,
                now,
                saved: None,
            }),
            r@.wf(),
    {
        let r = MemoryStore {
            admins: Vec::new(),
            roles: Vec::new(),
            links: Vec::new(),
            next_id: 1,
            now,
            saved: None,
        };
        proof {
            assert(r@.admins =~= Seq::empty());
            assert(r@.roles =~= Seq::empty());
        }
        r
    }

    /// Sets the store's clock.
    pub fn set_time(&mut self, now: i64)
        ensures
            final(self)@ == (StoreState { now, ..old(self)@ }),
    {
        self.now = now;
    }

    /// The position of the row of that id.
    fn position_of(&self, id: i64) -> (r: Option<usize>)
        requires
            self@.wf(),
        ensures
            match r {
                Some(k) => admin_index(self@.admins, id) == Some(k as int) && k < self.admins.len(),
                None => admin_index(self@.admins, id) is None,
            },
    {
        let mut i: usize = 0;
        while i < self.admins.len()
            invariant
                i <= self.admins.len(),
                self@.wf(),
                forall|j: int| 0 <= j < i ==> (#[trigger] self@.admins[j]).id != id,
            decreases self.admins.len() - i,
        {
            if self.admins[i].id == id {
                proof {
                    let rows = self@.admins;
                    assert(rows[i as int].id == id);
                    let c = choose|c: int| 0 <= c < rows.len() && (#[trigger] rows[c]).id == id;
                    assert(c == i) by {
                        if c < i {
                            assert(rows[c].id != rows[i as int].id);
                        } else if c > i {
                            assert(rows[i as int].id != rows[c].id);
                        }
                    }
                }
                return Some(i);
            }
            i = i + 1;
        }
        None
    }

    /// The name of the role of that id.
    fn name_of_role(&self, id: i32) -> (r: Option<String>)
        requires
            self@.wf(),
        ensures
            r.deep_view() == role_name(self@.roles, id),
    {
        let mut i: usize = 0;
        while i < self.roles.len()
            invariant
                i <= self.roles.len(),
                self@.wf(),
                forall|j: int| 0 <= j < i ==> (#[trigger] self@.roles[j]).id != id,
            decreases self.roles.len() - i,
        {
            if self.roles[i].id == id {
                proof {
                    let roles = self@.roles;
                    assert(roles[i as int].id == id);
                    let c = choose|c: int| 0 <= c < roles.len() && (#[trigger] roles[c]).id == id;
                    assert(c == i) by {
                        if c < i {
                            assert(roles[c].id != roles[i as int].id);
                        } else if c > i {
                            assert(roles[i as int].id != roles[c].id);
                        }
                    }
                }
                return Some(self.roles[i].name.clone());
            }
            i = i + 1;
        }
        None
    }

    /// The id of the role of that name.
    fn id_of_role(&self, name: &String) -> (r: Option<i32>)
        requires
            self@.wf(),
        ensures
            r == match role_index(self@.roles, name@) {
                Some(i) => Some(self@.roles[i].id),
                None => None,
            },
    {
        let mut i: usize = 0;
        while i < self.roles.len()
            invariant
                i <= self.roles.len(),
                self@.wf(),
                forall|j: int| 0 <= j < i ==> (#[trigger] self@.roles[j]).name != name@,
            decreases self.roles.len() - i,
        {
            if self.roles[i].name == *name {
                proof {
                    let roles = self@.roles;
                    assert(roles[i as int].name == name@);
                    let c = choose|c: int|
                        0 <= c < roles.len() && (#[trigger] roles[c]).name == name@;
                    assert(c == i) by {
                        if c < i {
                            assert(roles[c].name != roles[i as int].name);
                        } else if c > i {
                            assert(roles[i as int].name != roles[c].name);
                        }
                    }
                }
                return Some(self.roles[i].id);
            }
            i = i + 1;
        }
        None
    }

    /// Adds a role, unless its id or its name is taken; tells whether it
    /// did.
    pub fn add_role(&mut self, id: i32, name: &str) -> (r: bool)
        requires
            old(self)@.wf(),
        ensures
            r == (role_name(old(self)@.roles, id) is None && role_index(old(self)@.roles, name@)
                is None),
            final(self)@ == if r {
                StoreState {
                    roles: old(self)@.roles.push(RoleRecordView { id, name: name@ }),
                    ..old(self)@
                }
            } else {
                old(self)@
            },
            final(self)@.wf(),
    {
        let text = String::from_str(name);
        let by_id = self.name_of_role(id);
        let by_name = self.id_of_role(&text);
        if by_id.is_none() && by_name.is_none() {
            let ghost before = self@.roles;
            self.roles.push(RoleRecord { id, name: text });
            proof {
                assert(self@.roles =~= before.push(RoleRecordView { id, name: name@ }));
                lemma_roles_stay(self@.links, before, RoleRecordView { id, name: name@ });
                if self@.saved is Some {
                    lemma_roles_stay(
                        self@.saved->0.links,
                        before,
                        RoleRecordView { id, name: name@ },
                    );
                }
                assert forall|i: int, j: int| 0 <= i < j < self@.roles.len() implies (
                #[trigger] self@.roles[i]).id != (#[trigger] self@.roles[j]).id
                    && self@.roles[i].name != self@.roles[j].name by {
                    if j == before.len() {
                        assert(before[i].id != id);
                        assert(before[i].name != name@);
                    } else {
                        assert(before[i].id != before[j].id);
                    }
                }
            }
            true
        } else {
            false
        }
    }

    /// The names of the roles assigned to the administrator.
    fn roles_of(&self, id: i64) -> (r: Vec<String>)
        requires
            self@.wf(),
        ensures
            r.deep_view() == role_names_of(self@.links, self@.roles, id),
    {
        let mut out: Vec<String> = Vec::new();
        let mut i: usize = 0;
        proof {
            assert(out.deep_view() =~= Seq::empty());
        }
        while i < self.links.len()
            invariant
                i <= self.links.len(),
                self@.wf(),
                out.deep_view() == role_names_of(self@.links.take(i as int), self@.roles, id),
            decreases self.links.len() - i,
        {
            let link = self.links[i];
            let ghost before = out.deep_view();
            proof {
                assert(self@.links.take(i + 1).drop_last() == self@.links.take(i as int));
                assert(self@.links.take(i + 1).last() == link);
            }
            if link.user_id == id {
                match self.name_of_role(link.role_id) {
                    Some(name) => {
                        out.push(name);
                        proof {
                            assert(out.deep_view() =~= before.push(name@));
                        }
                    },
                    None => {},
                }
            }
            i = i + 1;
        }
        proof {
            assert(self@.links.take(self.links.len() as int) == self@.links);
        }
        out
    }

    /// Whether some assignment is the administrator's.
    fn holds_links(&self, id: i64) -> (r: bool)
        ensures
            r == has_links(self@.links, id),
    {
        let mut i: usize = 0;
        while i < self.links.len()
            invariant
                i <= self.links.len(),
                forall|j: int| 0 <= j < i ==> (#[trigger] self@.links[j]).user_id != id,
            decreases self.links.len() - i,
        {
            if self.links[i].user_id == id {
                proof {
                    assert(self@.links[i as int].user_id == id);
                }
                return true;
            }
            i = i + 1;
        }
        false
    }

    /// Whether some row holds the value in the column.
    fn is_taken(&self, column: Column, value: &String) -> (r: bool)
        ensures
            r == taken(self@.admins, column, value@),
    {
        let mut i: usize = 0;
        while i < self.admins.len()
            invariant
                i <= self.admins.len(),
                forall|j: int|
                    0 <= j < i ==> held(#[trigger] self@.admins[j], column) != Some(value@),
            decreases self.admins.len() - i,
        {
            if holds_value(&self.admins[i], column, value) {
                proof {
                    assert(held(self@.admins[i as int], column) == Some(value@));
                }
                return true;
            }
            i = i + 1;
        }
        false
    }

    /// The active account of that username.
    fn find_active(&self, username: &String) -> (r: Option<Credentials>)
        requires
            self@.wf(),
        ensures
            r.deep_view() == match active_index(self@.admins, username@) {
                Some(i) => Some(
                    crate::protocol::CredentialsView {
                        id: self@.admins[i].id,
                        username: self@.admins[i].username,
                        password_hash: self@.admins[i].password_hash,
                    },
                ),
                None => None,
            },
    {
        let mut i: usize = 0;
        while i < self.admins.len()
            invariant
                i <= self.admins.len(),
                self@.wf(),
                forall|j: int|
                    0 <= j < i ==> !((#[trigger] self@.admins[j]).username == username@
                        && self@.admins[j].is_active),
            decreases self.admins.len() - i,
        {
            if self.admins[i].username == *username && self.admins[i].is_active {
                proof {
                    let rows = self@.admins;
                    assert(rows[i as int].username == username@ && rows[i as int].is_active);
                    let c = choose|c: int|
                        0 <= c < rows.len() && (#[trigger] rows[c]).username == username@
                            && rows[c].is_active;
                    assert(c == i) by {
                        assert(held(rows[c], Column::Username) == Some(username@));
                        assert(held(rows[i as int], Column::Username) == Some(username@));
                    }
                }
                return Some(
                    Credentials {
                        id: self.admins[i].id,
                        username: self.admins[i].username.clone(),
                        password_hash: self.admins[i].password_hash.clone(),
                    },
                );
            }
            i = i + 1;
        }
        None
    }

    /// The active rows, as the listing reads them.
    fn list_active(&self) -> (r: Vec<AdminRow>)
        ensures
            r.deep_view() == active_rows(self@.admins),
    {
        let mut out: Vec<AdminRow> = Vec::new();
        let mut i: usize = 0;
        proof {
            assert(out.deep_view() =~= Seq::empty());
        }
        while i < self.admins.len()
            invariant
                i <= self.admins.len(),
                out.deep_view() == active_rows(self@.admins.take(i as int)),
            decreases self.admins.len() - i,
        {
            let ghost before = out.deep_view();
            proof {
                assert(self@.admins.take(i + 1).drop_last() == self@.admins.take(i as int));
                assert(self@.admins.take(i + 1).last() == self@.admins[i as int]);
            }
            if self.admins[i].is_active {
                let row = &self.admins[i];
                out.push(
                    AdminRow {
                        id: row.id,
                        username: row.username.clone(),
                        email: row.email.clone(),
                        phone_number: copy_text(&row.phone_number),
                        is_active: Some(row.is_active),
                        created_at: Some(row.created_at),
                    },
                );
                proof {
                    assert(out.deep_view() =~= before.push(listed(self@.admins[i as int])));
                }
            }
            i = i + 1;
        }
        proof {
            assert(self@.admins.take(self.admins.len() as int) == self@.admins);
        }
        out
    }

    /// A copy of the row of that id, where there is one.
    pub fn find_admin(&self, id: i64) -> (r: Option<AdminRecord>)
        requires
            self@.wf(),
        ensures
            r.deep_view() == match admin_index(self@.admins, id) {
                Some(i) => Some(self@.admins[i]),
                None => None,
            },
    {
        match self.position_of(id) {
            Some(k) => Some(copy_record(&self.admins[k])),
            None => None,
        }
    }

    /// A copy of all role assignments, in order.
    pub fn assignments(&self) -> (r: Vec<RoleLink>)
        ensures
            r@ == self@.links,
    {
        copy_links(&self.links)
    }

    /// Carries out the request and gives the reply, as [`respond`] says.
    pub fn perform(&mut self, request: &Request) -> (r: Reply)
        requires
            old(self)@.wf(),
        ensures
            (final(self)@, r@) == respond(old(self)@, request@),
            final(self)@.wf(),
    {
        proof {
            crate::model::lemma_respond_keeps_wf(self@, request@);
        }
        match request {
            Request::HashPassword { .. } => refuse(request),
            Request::RolesOf { admin_id } => Reply::Roles(self.roles_of(*admin_id)),
            Request::FindActiveByUsername { username } => Reply::Found(self.find_active(username)),
            Request::Begin => {
                if self.saved.is_none() {
                    let saved = SavedTables {
                        admins: copy_records(&self.admins),
                        links: copy_links(&self.links),
                    };
                    self.saved = Some(saved);
                    Reply::Done
                } else {
                    refuse(request)
                }
            },
            Request::Exists { column, value } => Reply::Exists(self.is_taken(*column, value)),
            Request::InsertAdmin { username, email, password_hash, phone_number } => {
                let free = !self.is_taken(Column::Username, username) && !self.is_taken(
                    Column::Email,
                    email,
                ) && match phone_number {
                    Some(p) => !self.is_taken(Column::PhoneNumber, p),
                    None => true,
                };
                if free && self.next_id < i64::MAX {
                    let id = self.next_id;
                    let ghost before = self@.admins;
                    let ghost row = inserted_row(
                        self@,
                        username@,
                        email@,
                        password_hash@,
                        phone_number.deep_view(),
                    );
                    self.admins.push(
                        AdminRecord {
                            id,
                            username: username.clone(),
                            email: email.clone(),
                            phone_number: copy_text(phone_number),
                            password_hash: password_hash.clone(),
                            is_active: true,
                            created_at: self.now,
                            updated_at: self.now,
                        },
                    );
                    self.next_id = id + 1;
                    proof {
                        assert(self@.admins =~= before.push(row));
                    }
                    Reply::AdminId(id)
                } else {
                    refuse(request)
                }
            },
            Request::RoleIdByName { name } => Reply::RoleId(self.id_of_role(name)),
            Request::AssignRole { admin_id, role_id, .. } => {
                let has_row = self.position_of(*admin_id).is_some();
                let has_role = self.name_of_role(*role_id).is_some();
                if has_row && has_role {
                    self.links.push(RoleLink { user_id: *admin_id, role_id: *role_id });
                    Reply::Done
                } else {
                    refuse(request)
                }
            },
            Request::ActiveExists { admin_id } => match self.position_of(*admin_id) {
                Some(k) => Reply::Exists(self.admins[k].is_active),
                None => Reply::Exists(false),
            },
            Request::Status { admin_id } => match self.position_of(*admin_id) {
                Some(k) => Reply::Status(Some(self.admins[k].is_active)),
                None => refuse(request),
            },
            Request::DeleteAssignments { admin_id } => {
                let mut kept: Vec<RoleLink> = Vec::new();
                let mut i: usize = 0;
                while i < self.links.len()
                    invariant
                        i <= self.links.len(),
                        kept@ == links_without(self@.links.take(i as int), *admin_id),
                    decreases self.links.len() - i,
                {
                    proof {
                        assert(self@.links.take(i + 1).drop_last() == self@.links.take(i as int));
                        assert(self@.links.take(i + 1).last() == self@.links[i as int]);
                    }
                    if self.links[i].user_id != *admin_id {
                        kept.push(self.links[i]);
                    }
                    i = i + 1;
                }
                proof {
                    assert(self@.links.take(self.links.len() as int) == self@.links);
                }
                self.links = kept;
                Reply::Done
            },
            Request::DeleteAdmin { admin_id } => {
                if self.holds_links(*admin_id) {
                    refuse(request)
                } else {
                    match self.position_of(*admin_id) {
                        Some(k) => {
                            let ghost before = self@.admins;
                            self.admins.remove(k);
                            proof {
                                assert(self@.admins =~= before.remove(k as int));
                            }
                        },
                        None => {},
                    }
                    Reply::Done
                }
            },
            Request::Deactivate { admin_id } => {
                match self.position_of(*admin_id) {
                    Some(k) => {
                        let ghost before = self@.admins;
                        let mut row = copy_record(&self.admins[k]);
                        row.is_active = false;
                        row.updated_at = self.now;
                        self.admins.set(k, row);
                        proof {
                            assert(self@.admins =~= before.update(
                                k as int,
                                AdminRecordView {
                                    is_active: false,
                                    updated_at: self.now,
                                    ..before[k as int]
                                },
                            ));
                        }
                    },
                    None => {},
                }
                Reply::Done
            },
            Request::ListActive => Reply::Admins(self.list_active()),
            Request::Commit => {
                if self.saved.is_some() {
                    self.saved = None;
                    Reply::Done
                } else {
                    refuse(request)
                }
            },
            Request::Rollback => {
                let saved = self.saved.take();
                match saved {
                    Some(t) => {
                        self.admins = t.admins;
                        self.links = t.links;
                        Reply::Done
                    },
                    None => refuse(request),
                }
            },
        }
    }
}

} // verus!
