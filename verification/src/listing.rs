//! Listing the active administrators with their roles: the privilege
//! check, the rows, then the roles of each row in turn.

use vstd::prelude::*;
use vstd::string::StringExecFns;
use crate::error::{AppError, AppErrorView, internal_error, unexpected, unexpected_reply};
use crate::guard::{has_super_admin, super_admin};
use crate::protocol::{AdminRow, AdminRowView, Reply, ReplyView, Request, RequestView, Step, StepView};

verus! {

/// An administrator as the listing gives it: never the password hash.
#[derive(Debug, PartialEq, Eq)]
pub struct AdminUsers {
    pub id: i64,
    pub username: String,
    pub email: String,
    pub phone_number: Option<String>,
    pub _is_active: bool,
    /// The moment of creation in seconds since the epoch, where recorded.
    pub _created_at: Option<i64>,
    pub _roles: Vec<String>,
}

/// The mathematical content of [`AdminUsers`].
pub ghost struct AdminUsersView {
    pub id: i64,
    pub username: Seq<char>,
    pub email: Seq<char>,
    pub phone_number: Option<Seq<char>>,
    pub is_active: bool,
    pub created_at: Option<i64>,
    pub roles: Seq<Seq<char>>,
}

impl View for AdminUsers {
    type V = AdminUsersView;

    open spec fn view(&self) -> AdminUsersView {
        AdminUsersView {
            id: self.id,
            username: self.username@,
            email: self.email@,
            phone_number: self.phone_number.deep_view(),
            is_active: self._is_active,
            created_at: self._created_at,
            roles: self._roles.deep_view(),
        }
    }
}

impl DeepView for AdminUsers {
    type V = AdminUsersView;

    open spec fn deep_view(&self) -> AdminUsersView {
        self@
    }
}

/// The listing's entry for a row and its roles. A row without a flag
/// counts as not active.
pub open spec fn entry_of(row: AdminRowView, roles: Seq<Seq<char>>) -> AdminUsersView {
    AdminUsersView {
        id: row.id,
        username: row.username,
        email: row.email,
        phone_number: row.phone_number,
        is_active: match row.is_active {
            Some(flag) => flag,
            None => false,
        },
        created_at: row.created_at,
        roles,
    }
}

/// Where a listing stands: the request whose reply it waits for.
#[derive(Debug, Clone, Copy, PartialEq, Eq, Structural)]
pub enum ListPhase {
    /// The acting administrator's roles.
    Privilege,
    /// The active rows.
    Rows,
    /// The roles of the row at this index.
    RolesFor(usize),
    /// Nothing: the listing is over.
    Done,
}

/// The mathematical content of a running listing.
pub ghost struct ListView {
    pub acting: i64,
    pub phase: ListPhase,
    pub rows: Seq<AdminRowView>,
    pub entries: Seq<AdminUsersView>,
}

/// The refusal of a caller without the super-administrator role.
pub open spec fn list_needs_privilege() -> AppErrorView {
    AppErrorView::Public("需要super_admin权限才能查看管理员列表"@)
}

impl ListView {
    /// The state a listing starts in.
    pub open spec fn initial(acting: i64) -> ListView {
        ListView { acting, phase: ListPhase::Privilege, rows: Seq::empty(), entries: Seq::empty() }
    }

    /// What every state that `initial` and `list_step` reach satisfies.
    pub open spec fn wf(self) -> bool {
        &&& self.rows.len() <= usize::MAX
        &&& self.phase matches ListPhase::RolesFor(i) ==> i < self.rows.len() && self.entries.len()
            == i
        &&& (self.phase is Privilege || self.phase is Rows) ==> self.entries.len() == 0
    }

    /// Goes on to `phase` with `request`.
    pub open spec fn ask(self, phase: ListPhase, request: RequestView) -> (
        ListView,
        StepView<Seq<AdminUsersView>>,
    ) {
        (ListView { phase, ..self }, StepView::Ask(request))
    }

    /// Ends with `result`, holding nothing further.
    pub open spec fn finish(self, result: Result<Seq<AdminUsersView>, AppErrorView>) -> (
        ListView,
        StepView<Seq<AdminUsersView>>,
    ) {
        (
            ListView { phase: ListPhase::Done, rows: Seq::empty(), entries: Seq::empty(), ..self },
            StepView::Finish(result),
        )
    }

    /// Asks for the roles of the row at index `i`.
    pub open spec fn roles_for(self, i: usize) -> (ListView, StepView<Seq<AdminUsersView>>) {
        self.ask(ListPhase::RolesFor(i), RequestView::RolesOf { admin_id: self.rows[i as int].id })
    }
}

/// The listing's next state and step on `reply`: the entries come in the
/// order of the rows, each with the roles that were read for it.
pub open spec fn list_step(s: ListView, reply: ReplyView) -> (ListView, StepView<Seq<AdminUsersView>>) {
    match s.phase {
        ListPhase::Privilege => match reply {
            ReplyView::Roles(roles) => if roles.contains(super_admin()) {
                s.ask(ListPhase::Rows, RequestView::ListActive)
            } else {
                s.finish(Err(list_needs_privilege()))
            },
            ReplyView::Failed(why) => s.finish(
                Err(AppErrorView::Internal("查询用户角色失败: "@ + why)),
            ),
            _ => s.finish(Err(unexpected_reply())),
        },
        ListPhase::Rows => match reply {
            ReplyView::Admins(rows) => if rows.len() > 0 {
                ListView { rows, ..s }.roles_for(0)
            } else {
                s.finish(Ok(Seq::empty()))
            },
            ReplyView::Failed(why) => s.finish(
                Err(AppErrorView::Internal("查询管理员用户列表失败: "@ + why)),
            ),
            _ => s.finish(Err(unexpected_reply())),
        },
        ListPhase::RolesFor(i) => match reply {
            ReplyView::Roles(roles) => {
                let t = ListView { entries: s.entries.push(entry_of(s.rows[i as int], roles)), ..s };
                if i + 1 < t.rows.len() {
                    t.roles_for((i + 1) as usize)
                } else {
                    t.finish(Ok(t.entries))
                }
            },
            ReplyView::Failed(why) => s.finish(
                Err(AppErrorView::Internal("查询用户角色失败: "@ + why)),
            ),
            _ => s.finish(Err(unexpected_reply())),
        },
        ListPhase::Done => s.finish(Err(unexpected_reply())),
    }
}

/// A running listing of the active administrators.
#[derive(Debug)]
pub struct ListAdmins {
    acting: i64,
    phase: ListPhase,
    rows: Vec<AdminRow>,
    entries: Vec<AdminUsers>,
}

impl View for ListAdmins {
    type V = ListView;

    closed spec fn view(&self) -> ListView {
        ListView {
            acting: self.acting,
            phase: self.phase,
            rows: self.rows.deep_view(),
            entries: self.entries.deep_view(),
        }
    }
}

/// The listing's entry for a row and its roles.
pub fn make_entry(row: &AdminRow, roles: Vec<String>) -> (r: AdminUsers)
    ensures
        r@ == entry_of(row@, roles.deep_view()),
{
    AdminUsers {
        id: row.id,
        username: row.username.clone(),
        email: row.email.clone(),
        phone_number: match &row.phone_number {
            Some(p) => Some(p.clone()),
            None => None,
        },
        _is_active: match row.is_active {
            Some(flag) => flag,
            None => false,
        },
        _created_at: row.created_at,
        _roles: roles,
    }
}

impl ListAdmins {
    #[verifier::type_invariant]
    spec fn inv(self) -> bool {
        self@.wf()
    }

    /// Starts a listing on behalf of `current_user_id`: the first request
    /// reads the caller's roles.
    pub fn start(current_user_id: i64) -> (r: (ListAdmins, Request))
        ensures
            r.0@ == ListView::initial(current_user_id),
            r.1@ == (RequestView::RolesOf { admin_id: current_user_id }),
            r.0@.wf(),
    {
        let m = ListAdmins {
            acting: current_user_id,
            phase: ListPhase::Privilege,
            rows: Vec::new(),
            entries: Vec::new(),
        };
        proof {
            assert(m@.rows =~= Seq::empty());
            assert(m@.entries =~= Seq::empty());
        }
        (m, Request::RolesOf { admin_id: current_user_id })
    }

    fn finish(self, result: Result<Vec<AdminUsers>, AppError>) -> (r: (
        ListAdmins,
        Step<Vec<AdminUsers>>,
    ))
        ensures
            (r.0@, r.1@) == self@.finish(
                match result {
                    Ok(v) => Ok(v.deep_view()),
                    Err(e) => Err(e@),
                },
            ),
    {
        let m = ListAdmins {
            acting: self.acting,
            phase: ListPhase::Done,
            rows: Vec::new(),
            entries: Vec::new(),
        };
        proof {
            assert(m@.rows =~= Seq::empty());
            assert(m@.entries =~= Seq::empty());
        }
        (m, Step::Finish(result))
    }

    /// Takes the reply to the last request and gives the next step.
    pub fn advance(self, reply: Reply) -> (r: (ListAdmins, Step<Vec<AdminUsers>>))
        ensures
            (r.0@, r.1@) == list_step(self@, reply@),
            self@.wf() && r.0@.wf(),
    {
        proof {
            use_type_invariant(&self);
        }
        match self.phase {
            ListPhase::Privilege => match reply {
                Reply::Roles(roles) => if has_super_admin(&roles) {
                    (ListAdmins { phase: ListPhase::Rows, ..self }, Step::Ask(Request::ListActive))
                } else {
                    self.finish(
                        Err(
                            AppError::Public(
                                String::from_str("需要super_admin权限才能查看管理员列表"),
                            ),
                        ),
                    )
                },
                Reply::Failed(why) => self.finish(
                    Err(internal_error("查询用户角色失败: ", why.as_str())),
                ),
                _ => self.finish(Err(unexpected())),
            },
            ListPhase::Rows => match reply {
                Reply::Admins(rows) => if rows.len() > 0 {
                    let first = rows[0].id;
                    let ListAdmins { acting, phase: _, rows: _, entries } = self;
                    (
                        ListAdmins { acting, phase: ListPhase::RolesFor(0), rows, entries },
                        Step::Ask(Request::RolesOf { admin_id: first }),
                    )
                } else {
                    proof {
                        assert(rows.deep_view().len() == 0);
                    }
                    let none: Vec<AdminUsers> = Vec::new();
                    proof {
                        assert(none.deep_view() =~= Seq::empty());
                    }
                    self.finish(Ok(none))
                },
                Reply::Failed(why) => self.finish(
                    Err(internal_error("查询管理员用户列表失败: ", why.as_str())),
                ),
                _ => self.finish(Err(unexpected())),
            },
            ListPhase::RolesFor(i) => match reply {
                Reply::Roles(roles) => {
                    let ListAdmins { acting, phase: _, rows, entries } = self;
                    let mut entries = entries;
                    let ghost before = entries.deep_view();
                    let entry = make_entry(&rows[i], roles);
                    entries.push(entry);
                    proof {
                        assert(entries.deep_view() =~= before.push(
                            entry_of(rows.deep_view()[i as int], roles.deep_view()),
                        ));
                    }
                    if i + 1 < rows.len() {
                        let next = rows[i + 1].id;
                        (
                            ListAdmins { acting, phase: ListPhase::RolesFor(i + 1), rows, entries },
                            Step::Ask(Request::RolesOf { admin_id: next }),
                        )
                    } else {
                        let m = ListAdmins {
                            acting,
                            phase: ListPhase::Done,
                            rows: Vec::new(),
                            entries: Vec::new(),
                        };
                        proof {
                            assert(m@.rows =~= Seq::empty());
                            assert(m@.entries =~= Seq::empty());
                        }
                        (m, Step::Finish(Ok(entries)))
                    }
                },
                Reply::Failed(why) => self.finish(
                    Err(internal_error("查询用户角色失败: ", why.as_str())),
                ),
                _ => self.finish(Err(unexpected())),
            },
            ListPhase::Done => self.finish(Err(unexpected())),
        }
    }
}

} // verus!
