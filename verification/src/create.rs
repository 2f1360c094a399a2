//! Creating an administrator: the privilege check, the hash, then one
//! transaction that probes the unique columns, inserts the row, resolves
//! every role name and inserts every assignment, all or nothing.

use vstd::prelude::*;
use vstd::string::StringExecFns;
use crate::error::{AppError, AppErrorView, internal_error, public_error, unexpected, unexpected_reply};
use crate::guard::{has_super_admin, super_admin};
use crate::protocol::{Column, Reply, ReplyView, Request, RequestView, Step, StepView};

verus! {

/// Where a creation stands: the request whose reply it waits for.
#[derive(Debug, Clone, Copy, PartialEq, Eq, Structural)]
pub enum CreatePhase {
    /// The acting administrator's roles.
    Privilege,
    /// The hash of the new password.
    Hash,
    /// The opening of the transaction.
    Begin,
    /// The probe of one unique column.
    Unique(Column),
    /// The insertion of the row.
    Insert,
    /// The id of the role name at this index.
    Resolve(usize),
    /// The assignment of the role at this index.
    Assign(usize),
    /// The commit.
    Commit,
    /// The rollback after a failure inside the transaction.
    Abort,
    /// Nothing: the creation is over.
    Done,
}

/// The mathematical content of a running creation.
pub ghost struct CreateView {
    pub acting: i64,
    pub username: Seq<char>,
    pub password: Seq<char>,
    pub email: Seq<char>,
    pub phone_number: Option<Seq<char>>,
    pub role_names: Seq<Seq<char>>,
    pub phase: CreatePhase,
    pub password_hash: Seq<char>,
    pub user_id: i64,
    pub role_ids: Seq<i32>,
    pub failure: Option<AppErrorView>,
}

/// The refusal of a caller without the super-administrator role.
pub open spec fn create_needs_privilege() -> AppErrorView {
    AppErrorView::Public("需要super_admin权限才能创建管理员用户"@)
}

/// The name of a unique column, as messages spell it.
pub open spec fn column_name(column: Column) -> Seq<char> {
    match column {
        Column::Username => "username"@,
        Column::Email => "email"@,
        Column::PhoneNumber => "phone_number"@,
    }
}

/// The conflict that names the column and the value already held.
pub open spec fn conflict(column: Column, value: Seq<char>) -> AppErrorView {
    AppErrorView::Public(
        match column {
            Column::Username => "用户名已存在: "@,
            Column::Email => "邮箱已存在: "@,
            Column::PhoneNumber => "手机号已存在: "@,
        } + value,
    )
}

/// The failure of the probe of a unique column.
pub open spec fn probe_failed(column: Column, why: Seq<char>) -> AppErrorView {
    AppErrorView::Internal("查询"@ + column_name(column) + "是否存在失败: "@ + why)
}

/// The failure of the assignment of the named role.
pub open spec fn assign_failed(role_name: Seq<char>, why: Seq<char>) -> AppErrorView {
    AppErrorView::Internal("分配角色 "@ + role_name + " 失败: "@ + why)
}

impl CreateView {
    /// The state a creation starts in.
    pub open spec fn initial(
        acting: i64,
        username: Seq<char>,
        password: Seq<char>,
        email: Seq<char>,
        phone_number: Option<Seq<char>>,
        role_names: Seq<Seq<char>>,
    ) -> CreateView {
        CreateView {
            acting,
            username,
            password,
            email,
            phone_number,
            role_names,
            phase: CreatePhase::Privilege,
            password_hash: Seq::empty(),
            user_id: 0,
            role_ids: Seq::empty(),
            failure: None,
        }
    }

    /// What every state that `initial` and `create_step` reach satisfies.
    pub open spec fn wf(self) -> bool {
        &&& self.role_names.len() <= usize::MAX
        &&& self.phase matches CreatePhase::Unique(Column::PhoneNumber)
            ==> self.phone_number is Some
        &&& self.phase matches CreatePhase::Resolve(i) ==> i < self.role_names.len()
            && self.role_ids.len() == i
        &&& self.phase matches CreatePhase::Assign(i) ==> i < self.role_names.len()
            && self.role_ids.len() == self.role_names.len()
        &&& self.phase is Abort ==> self.failure is Some
        &&& (self.phase is Privilege || self.phase is Hash || self.phase is Begin
            || self.phase is Unique || self.phase is Insert) ==> self.role_ids.len() == 0
    }

    /// Goes on to `phase` with `request`.
    pub open spec fn ask(self, phase: CreatePhase, request: RequestView) -> (CreateView, StepView<i64>) {
        (CreateView { phase, ..self }, StepView::Ask(request))
    }

    /// Ends with `result`.
    pub open spec fn finish(self, result: Result<i64, AppErrorView>) -> (CreateView, StepView<i64>) {
        (CreateView { phase: CreatePhase::Done, ..self }, StepView::Finish(result))
    }

    /// Asks for the rollback and keeps `e` for the end.
    pub open spec fn abort(self, e: AppErrorView) -> (CreateView, StepView<i64>) {
        (
            CreateView { phase: CreatePhase::Abort, failure: Some(e), ..self },
            StepView::Ask(RequestView::Rollback),
        )
    }

    /// The value that the new administrator would hold in the column.
    pub open spec fn value_in(self, column: Column) -> Seq<char> {
        match column {
            Column::Username => self.username,
            Column::Email => self.email,
            Column::PhoneNumber => self.phone_number->0,
        }
    }

    /// Probes the column.
    pub open spec fn probe(self, column: Column) -> (CreateView, StepView<i64>) {
        self.ask(
            CreatePhase::Unique(column),
            RequestView::Exists { column, value: self.value_in(column) },
        )
    }

    /// Inserts the row.
    pub open spec fn insert(self) -> (CreateView, StepView<i64>) {
        self.ask(
            CreatePhase::Insert,
            RequestView::InsertAdmin {
                username: self.username,
                email: self.email,
                password_hash: self.password_hash,
                phone_number: self.phone_number,
            },
        )
    }

    /// What follows a column found free: the username, then the email, then
    /// the phone number if there is one, then the insertion.
    pub open spec fn after_free(self, column: Column) -> (CreateView, StepView<i64>) {
        match column {
            Column::Username => self.probe(Column::Email),
            Column::Email => if self.phone_number is Some {
                self.probe(Column::PhoneNumber)
            } else {
                self.insert()
            },
            Column::PhoneNumber => self.insert(),
        }
    }

    /// Resolves the role name at index `i`.
    pub open spec fn resolve(self, i: usize) -> (CreateView, StepView<i64>) {
        self.ask(CreatePhase::Resolve(i), RequestView::RoleIdByName { name: self.role_names[i as int] })
    }

    /// Assigns the role at index `i`.
    pub open spec fn assign(self, i: usize) -> (CreateView, StepView<i64>) {
        self.ask(
            CreatePhase::Assign(i),
            RequestView::AssignRole {
                admin_id: self.user_id,
                role_id: self.role_ids[i as int],
                username: self.username,
                role_name: self.role_names[i as int],
            },
        )
    }

    /// Commits.
    pub open spec fn commit(self) -> (CreateView, StepView<i64>) {
        self.ask(CreatePhase::Commit, RequestView::Commit)
    }
}

/// The creation's next state and step on `reply`.
///
/// Outside the transaction a failure ends the creation at once; inside it,
/// every failure asks for the rollback first and ends on its reply. Role
/// names are all resolved, in order, before the first assignment.
pub open spec fn create_step(s: CreateView, reply: ReplyView) -> (CreateView, StepView<i64>) {
    match s.phase {
        CreatePhase::Privilege => match reply {
            ReplyView::Roles(roles) => if roles.contains(super_admin()) {
                s.ask(CreatePhase::Hash, RequestView::HashPassword { password: s.password })
            } else {
                s.finish(Err(create_needs_privilege()))
            },
            ReplyView::Failed(why) => s.finish(
                Err(AppErrorView::Internal("查询用户角色失败: "@ + why)),
            ),
            _ => s.finish(Err(unexpected_reply())),
        },
        CreatePhase::Hash => match reply {
            ReplyView::Hashed(h) => CreateView { password_hash: h, ..s }.ask(
                CreatePhase::Begin,
                RequestView::Begin,
            ),
            ReplyView::Failed(why) => s.finish(Err(AppErrorView::Internal("密码哈希失败: "@ + why))),
            _ => s.finish(Err(unexpected_reply())),
        },
        CreatePhase::Begin => match reply {
            ReplyView::Done => s.probe(Column::Username),
            ReplyView::Failed(why) => s.finish(
                Err(AppErrorView::Internal("开启数据库事务失败: "@ + why)),
            ),
            _ => s.finish(Err(unexpected_reply())),
        },
        CreatePhase::Unique(column) => match reply {
            ReplyView::Exists(true) => s.abort(conflict(column, s.value_in(column))),
            ReplyView::Exists(false) => s.after_free(column),
            ReplyView::Failed(why) => s.abort(probe_failed(column, why)),
            _ => s.abort(unexpected_reply()),
        },
        CreatePhase::Insert => match reply {
            ReplyView::AdminId(id) => {
                let t = CreateView { user_id: id, ..s };
                if t.role_names.len() > 0 {
                    t.resolve(0)
                } else {
                    t.commit()
                }
            },
            ReplyView::Failed(why) => s.abort(AppErrorView::Internal("创建用户失败: "@ + why)),
            _ => s.abort(unexpected_reply()),
        },
        CreatePhase::Resolve(i) => match reply {
            ReplyView::RoleId(Some(id)) => {
                let t = CreateView { role_ids: s.role_ids.push(id), ..s };
                if i + 1 < t.role_names.len() {
                    t.resolve((i + 1) as usize)
                } else {
                    t.assign(0)
                }
            },
            ReplyView::RoleId(None) => s.abort(
                AppErrorView::Public("角色不存在: "@ + s.role_names[i as int]),
            ),
            ReplyView::Failed(why) => s.abort(AppErrorView::Internal("查询角色失败: "@ + why)),
            _ => s.abort(unexpected_reply()),
        },
        CreatePhase::Assign(i) => match reply {
            ReplyView::Done => if i + 1 < s.role_names.len() {
                s.assign((i + 1) as usize)
            } else {
                s.commit()
            },
            ReplyView::Failed(why) => s.abort(assign_failed(s.role_names[i as int], why)),
            _ => s.abort(unexpected_reply()),
        },
        CreatePhase::Commit => match reply {
            ReplyView::Done => s.finish(Ok(s.user_id)),
            ReplyView::Failed(why) => s.finish(Err(AppErrorView::Internal("提交事务失败: "@ + why))),
            _ => s.finish(Err(unexpected_reply())),
        },
        CreatePhase::Abort => CreateView { failure: None, ..s }.finish(Err(s.failure->0)),
        CreatePhase::Done => s.finish(Err(unexpected_reply())),
    }
}

/// A running creation of an administrator.
#[derive(Debug)]
pub struct CreateAdmin {
    acting: i64,
    username: String,
    password: String,
    email: String,
    phone_number: Option<String>,
    role_names: Vec<String>,
    phase: CreatePhase,
    password_hash: String,
    user_id: i64,
    role_ids: Vec<i32>,
    failure: Option<AppError>,
}

impl View for CreateAdmin {
    type V = CreateView;

    closed spec fn view(&self) -> CreateView {
        CreateView {
            acting: self.acting,
            username: self.username@,
            password: self.password@,
            email: self.email@,
            phone_number: self.phone_number.deep_view(),
            role_names: self.role_names.deep_view(),
            phase: self.phase,
            password_hash: self.password_hash@,
            user_id: self.user_id,
            role_ids: self.role_ids@,
            failure: self.failure.deep_view(),
        }
    }
}

fn column_text(column: Column) -> (r: &'static str)
    ensures
        r@ == column_name(column),
{
    match column {
        Column::Username => "username",
        Column::Email => "email",
        Column::PhoneNumber => "phone_number",
    }
}

impl CreateAdmin {
    #[verifier::type_invariant]
    spec fn inv(self) -> bool {
        self@.wf()
    }

    /// Starts a creation on behalf of `current_user_id`: the first request
    /// reads the caller's roles.
    pub fn start(
        current_user_id: i64,
        username: String,
        password: String,
        email: String,
        phone_number: Option<String>,
        role_names: Vec<String>,
    ) -> (r: (CreateAdmin, Request))
        ensures
            r.0@ == CreateView::initial(
                current_user_id,
                username@,
                password@,
                email@,
                phone_number.deep_view(),
                role_names.deep_view(),
            ),
            r.1@ == (RequestView::RolesOf { admin_id: current_user_id }),
            r.0@.wf(),
    {
        let count = role_names.len();
        proof {
            assert(role_names.deep_view().len() == count);
        }
        let m = CreateAdmin {
            acting: current_user_id,
            username,
            password,
            email,
            phone_number,
            role_names,
            phase: CreatePhase::Privilege,
            password_hash: String::new(),
            user_id: 0,
            role_ids: Vec::new(),
            failure: None,
        };
        (m, Request::RolesOf { admin_id: current_user_id })
    }

    /// Whether the creation is over.
    pub fn is_done(&self) -> (r: bool)
        ensures
            r == (self@.phase is Done),
    {
        match self.phase {
            CreatePhase::Done => true,
            _ => false,
        }
    }

    fn ask(self, phase: CreatePhase, request: Request) -> (r: (CreateAdmin, Step<i64>))
        requires
            (CreateView { phase, ..self@ }).wf(),
        ensures
            (r.0@, r.1@) == self@.ask(phase, request@),
    {
        (CreateAdmin { phase, ..self }, Step::Ask(request))
    }

    fn finish(self, result: Result<i64, AppError>) -> (r: (CreateAdmin, Step<i64>))
        ensures
            (r.0@, r.1@) == self@.finish(
                match result {
                    Ok(id) => Ok(id),
                    Err(e) => Err(e@),
                },
            ),
    {
        proof {
            use_type_invariant(&self);
        }
        (CreateAdmin { phase: CreatePhase::Done, ..self }, Step::Finish(result))
    }

    fn abort(self, e: AppError) -> (r: (CreateAdmin, Step<i64>))
        ensures
            (r.0@, r.1@) == self@.abort(e@),
    {
        proof {
            use_type_invariant(&self);
        }
        (
            CreateAdmin { phase: CreatePhase::Abort, failure: Some(e), ..self },
            Step::Ask(Request::Rollback),
        )
    }

    fn probe(self, column: Column) -> (r: (CreateAdmin, Step<i64>))
        requires
            column == Column::PhoneNumber ==> self@.phone_number is Some,
            self@.role_ids.len() == 0,
        ensures
            (r.0@, r.1@) == self@.probe(column),
    {
        proof {
            use_type_invariant(&self);
        }
        let value = match column {
            Column::Username => self.username.clone(),
            Column::Email => self.email.clone(),
            Column::PhoneNumber => match &self.phone_number {
                Some(p) => p.clone(),
                None => String::new(),
            },
        };
        self.ask(CreatePhase::Unique(column), Request::Exists { column, value })
    }

    fn insert(self) -> (r: (CreateAdmin, Step<i64>))
        requires
            self@.role_ids.len() == 0,
        ensures
            (r.0@, r.1@) == self@.insert(),
    {
        proof {
            use_type_invariant(&self);
        }
        let phone_number = match &self.phone_number {
            Some(p) => Some(p.clone()),
            None => None,
        };
        let request = Request::InsertAdmin {
            username: self.username.clone(),
            email: self.email.clone(),
            password_hash: self.password_hash.clone(),
            phone_number,
        };
        self.ask(CreatePhase::Insert, request)
    }

    fn resolve(self, i: usize) -> (r: (CreateAdmin, Step<i64>))
        requires
            i < self@.role_names.len(),
            self@.role_ids.len() == i,
        ensures
            (r.0@, r.1@) == self@.resolve(i),
    {
        proof {
            use_type_invariant(&self);
        }
        let name = self.role_names[i].clone();
        self.ask(CreatePhase::Resolve(i), Request::RoleIdByName { name })
    }

    fn assign(self, i: usize) -> (r: (CreateAdmin, Step<i64>))
        requires
            i < self@.role_names.len(),
            self@.role_ids.len() == self@.role_names.len(),
        ensures
            (r.0@, r.1@) == self@.assign(i),
    {
        proof {
            use_type_invariant(&self);
        }
        let request = Request::AssignRole {
            admin_id: self.user_id,
            role_id: self.role_ids[i],
            username: self.username.clone(),
            role_name: self.role_names[i].clone(),
        };
        self.ask(CreatePhase::Assign(i), request)
    }

    fn commit(self) -> (r: (CreateAdmin, Step<i64>))
        ensures
            (r.0@, r.1@) == self@.commit(),
    {
        proof {
            use_type_invariant(&self);
        }
        self.ask(CreatePhase::Commit, Request::Commit)
    }

    /// Takes the reply to the last request and gives the next step.
    pub fn advance(self, reply: Reply) -> (r: (CreateAdmin, Step<i64>))
        ensures
            (r.0@, r.1@) == create_step(self@, reply@),
            self@.wf() && r.0@.wf(),
    {
        proof {
            use_type_invariant(&self);
        }
        match self.phase {
            CreatePhase::Privilege => match reply {
                Reply::Roles(roles) => if has_super_admin(&roles) {
                    let password = self.password.clone();
                    self.ask(CreatePhase::Hash, Request::HashPassword { password })
                } else {
                    self.finish(
                        Err(
                            AppError::Public(
                                String::from_str("需要super_admin权限才能创建管理员用户"),
                            ),
                        ),
                    )
                },
                Reply::Failed(why) => self.finish(
                    Err(internal_error("查询用户角色失败: ", why.as_str())),
                ),
                _ => self.finish(Err(unexpected())),
            },
            CreatePhase::Hash => match reply {
                Reply::Hashed(h) => {
                    let m = CreateAdmin { password_hash: h, ..self };
                    m.ask(CreatePhase::Begin, Request::Begin)
                },
                Reply::Failed(why) => self.finish(
                    Err(internal_error("密码哈希失败: ", why.as_str())),
                ),
                _ => self.finish(Err(unexpected())),
            },
            CreatePhase::Begin => match reply {
                Reply::Done => self.probe(Column::Username),
                Reply::Failed(why) => self.finish(
                    Err(internal_error("开启数据库事务失败: ", why.as_str())),
                ),
                _ => self.finish(Err(unexpected())),
            },
            CreatePhase::Unique(column) => match reply {
                Reply::Exists(true) => {
                    let e = match column {
                        Column::Username => public_error("用户名已存在: ", self.username.as_str()),
                        Column::Email => public_error("邮箱已存在: ", self.email.as_str()),
                        Column::PhoneNumber => match &self.phone_number {
                            Some(p) => public_error("手机号已存在: ", p.as_str()),
                            None => public_error("手机号已存在: ", ""),
                        },
                    };
                    self.abort(e)
                },
                Reply::Exists(false) => match column {
                    Column::Username => self.probe(Column::Email),
                    Column::Email => if self.phone_number.is_some() {
                        self.probe(Column::PhoneNumber)
                    } else {
                        self.insert()
                    },
                    Column::PhoneNumber => self.insert(),
                },
                Reply::Failed(why) => {
                    let mut text = String::from_str("查询");
                    text.append(column_text(column));
                    text.append("是否存在失败: ");
                    text.append(why.as_str());
                    self.abort(AppError::Internal(text))
                },
                _ => self.abort(unexpected()),
            },
            CreatePhase::Insert => match reply {
                Reply::AdminId(id) => {
                    let m = CreateAdmin { user_id: id, ..self };
                    if m.role_names.len() > 0 {
                        m.resolve(0)
                    } else {
                        m.commit()
                    }
                },
                Reply::Failed(why) => self.abort(internal_error("创建用户失败: ", why.as_str())),
                _ => self.abort(unexpected()),
            },
            CreatePhase::Resolve(i) => match reply {
                Reply::RoleId(Some(id)) => {
                    let CreateAdmin {
                        acting,
                        username,
                        password,
                        email,
                        phone_number,
                        role_names,
                        phase: _,
                        password_hash,
                        user_id,
                        role_ids,
                        failure,
                    } = self;
                    let mut role_ids = role_ids;
                    role_ids.push(id);
                    if i + 1 < role_names.len() {
                        let name = role_names[i + 1].clone();
                        let m = CreateAdmin {
                            acting,
                            username,
                            password,
                            email,
                            phone_number,
                            role_names,
                            phase: CreatePhase::Resolve(i + 1),
                            password_hash,
                            user_id,
                            role_ids,
                            failure,
                        };
                        (m, Step::Ask(Request::RoleIdByName { name }))
                    } else {
                        let request = Request::AssignRole {
                            admin_id: user_id,
                            role_id: role_ids[0],
                            username: username.clone(),
                            role_name: role_names[0].clone(),
                        };
                        let m = CreateAdmin {
                            acting,
                            username,
                            password,
                            email,
                            phone_number,
                            role_names,
                            phase: CreatePhase::Assign(0),
                            password_hash,
                            user_id,
                            role_ids,
                            failure,
                        };
                        (m, Step::Ask(request))
                    }
                },
                Reply::RoleId(None) => {
                    let e = public_error("角色不存在: ", self.role_names[i].as_str());
                    self.abort(e)
                },
                Reply::Failed(why) => self.abort(internal_error("查询角色失败: ", why.as_str())),
                _ => self.abort(unexpected()),
            },
            CreatePhase::Assign(i) => match reply {
                Reply::Done => if i + 1 < self.role_names.len() {
                    self.assign(i + 1)
                } else {
                    self.commit()
                },
                Reply::Failed(why) => {
                    let mut text = String::from_str("分配角色 ");
                    text.append(self.role_names[i].as_str());
                    text.append(" 失败: ");
                    text.append(why.as_str());
                    self.abort(AppError::Internal(text))
                },
                _ => self.abort(unexpected()),
            },
            CreatePhase::Commit => match reply {
                Reply::Done => {
                    let id = self.user_id;
                    self.finish(Ok(id))
                },
                Reply::Failed(why) => self.finish(
                    Err(internal_error("提交事务失败: ", why.as_str())),
                ),
                _ => self.finish(Err(unexpected())),
            },
            CreatePhase::Abort => {
                let CreateAdmin {
                    acting,
                    username,
                    password,
                    email,
                    phone_number,
                    role_names,
                    phase: _,
                    password_hash,
                    user_id,
                    role_ids,
                    failure,
                } = self;
                let e = match failure {
                    Some(e) => e,
                    None => unexpected(),
                };
                let m = CreateAdmin {
                    acting,
                    username,
                    password,
                    email,
                    phone_number,
                    role_names,
                    phase: CreatePhase::Done,
                    password_hash,
                    user_id,
                    role_ids,
                    failure: None,
                };
                (m, Step::Finish(Err(e)))
            },
            CreatePhase::Done => self.finish(Err(unexpected())),
        }
    }
}

} // verus!
