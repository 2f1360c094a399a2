//! What the lifecycle operations ask of the account store and of the
//! hasher, and what comes back. The operations decide; whoever runs them
//! performs each request and hands back the reply.

use vstd::prelude::*;
use crate::error::{AppError, AppErrorView};

verus! {

/// A column of the administrator relation that holds each value once.
#[derive(Debug, Clone, Copy, PartialEq, Eq, Structural)]
pub enum Column {
    Username,
    Email,
    PhoneNumber,
}

/// What identifies an active administrator at login.
#[derive(Debug, Clone, PartialEq, Eq)]
pub struct Credentials {
    pub id: i64,
    pub username: String,
    pub password_hash: String,
}

/// The mathematical content of [`Credentials`].
pub ghost struct CredentialsView {
    pub id: i64,
    pub username: Seq<char>,
    pub password_hash: Seq<char>,
}

impl View for Credentials {
    type V = CredentialsView;

    open spec fn view(&self) -> CredentialsView {
        CredentialsView {
            id: self.id,
            username: self.username@,
            password_hash: self.password_hash@,
        }
    }
}

impl DeepView for Credentials {
    type V = CredentialsView;

    open spec fn deep_view(&self) -> CredentialsView {
        self@
    }
}

/// An administrator as the listing reads it: everything but the password
/// hash.
#[derive(Debug, Clone, PartialEq, Eq)]
pub struct AdminRow {
    pub id: i64,
    pub username: String,
    pub email: String,
    pub phone_number: Option<String>,
    /// The active flag; the store may hold none.
    pub is_active: Option<bool>,
    /// The moment of creation in seconds since the epoch, where recorded.
    pub created_at: Option<i64>,
}

/// The mathematical content of [`AdminRow`].
pub ghost struct AdminRowView {
    pub id: i64,
    pub username: Seq<char>,
    pub email: Seq<char>,
    pub phone_number: Option<Seq<char>>,
    pub is_active: Option<bool>,
    pub created_at: Option<i64>,
}

impl View for AdminRow {
    type V = AdminRowView;

    open spec fn view(&self) -> AdminRowView {
        AdminRowView {
            id: self.id,
            username: self.username@,
            email: self.email@,
            phone_number: self.phone_number.deep_view(),
            is_active: self.is_active,
            created_at: self.created_at,
        }
    }
}

impl DeepView for AdminRow {
    type V = AdminRowView;

    open spec fn deep_view(&self) -> AdminRowView {
        self@
    }
}

/// One thing to be done for a lifecycle operation.
#[derive(Debug, Clone, PartialEq, Eq)]
pub enum Request {
    /// Hash the password under a fresh salt.
    HashPassword { password: String },
    /// Read the role names of an administrator.
    RolesOf { admin_id: i64 },
    /// Find the active administrator of that exact username.
    FindActiveByUsername { username: String },
    /// Open a transaction.
    Begin,
    /// Tell whether any administrator holds the value in the column.
    Exists { column: Column, value: String },
    /// Insert an active administrator and give its new id.
    InsertAdmin { username: String, email: String, password_hash: String, phone_number: Option<String> },
    /// Find the id of the role of that name.
    RoleIdByName { name: String },
    /// Insert one role assignment.
    AssignRole { admin_id: i64, role_id: i32, username: String, role_name: String },
    /// Tell whether an active administrator of that id exists.
    ActiveExists { admin_id: i64 },
    /// Read the active flag of the administrator of that id.
    Status { admin_id: i64 },
    /// Remove every role assignment of the administrator.
    DeleteAssignments { admin_id: i64 },
    /// Remove the administrator's row.
    DeleteAdmin { admin_id: i64 },
    /// Set the active flag to false and renew the update time.
    Deactivate { admin_id: i64 },
    /// Read all active administrators.
    ListActive,
    /// Commit the open transaction.
    Commit,
    /// Roll the open transaction back.
    Rollback,
}

/// The mathematical content of [`Request`].
pub ghost enum RequestView {
    HashPassword { password: Seq<char> },
    RolesOf { admin_id: i64 },
    FindActiveByUsername { username: Seq<char> },
    Begin,
    Exists { column: Column, value: Seq<char> },
    InsertAdmin {
        username: Seq<char>,
        email: Seq<char>,
        password_hash: Seq<char>,
        phone_number: Option<Seq<char>>,
    },
    RoleIdByName { name: Seq<char> },
    AssignRole { admin_id: i64, role_id: i32, username: Seq<char>, role_name: Seq<char> },
    ActiveExists { admin_id: i64 },
    Status { admin_id: i64 },
    DeleteAssignments { admin_id: i64 },
    DeleteAdmin { admin_id: i64 },
    Deactivate { admin_id: i64 },
    ListActive,
    Commit,
    Rollback,
}

impl RequestView {
    /// Whether performing the request can change what the store holds.
    pub open spec fn writes(self) -> bool {
        self is InsertAdmin || self is AssignRole || self is DeleteAssignments
            || self is DeleteAdmin || self is Deactivate
    }
}

impl View for Request {
    type V = RequestView;

    open spec fn view(&self) -> RequestView {
        match self {
            Request::HashPassword { password } => RequestView::HashPassword { password: password@ },
            Request::RolesOf { admin_id } => RequestView::RolesOf { admin_id: *admin_id },
            Request::FindActiveByUsername { username } => RequestView::FindActiveByUsername {
                username: username@,
            },
            Request::Begin => RequestView::Begin,
            Request::Exists { column, value } => RequestView::Exists {
                column: *column,
                value: value@,
            },
            Request::InsertAdmin {
                username,
                email,
                password_hash,
                phone_number,
            } => RequestView::InsertAdmin {
                username: username@,
                email: email@,
                password_hash: password_hash@,
                phone_number: phone_number.deep_view(),
            },
            Request::RoleIdByName { name } => RequestView::RoleIdByName { name: name@ },
            Request::AssignRole {
                admin_id,
                role_id,
                username,
                role_name,
            } => RequestView::AssignRole {
                admin_id: *admin_id,
                role_id: *role_id,
                username: username@,
                role_name: role_name@,
            },
            Request::ActiveExists { admin_id } => RequestView::ActiveExists {
                admin_id: *admin_id,
            },
            Request::Status { admin_id } => RequestView::Status { admin_id: *admin_id },
            Request::DeleteAssignments { admin_id } => RequestView::DeleteAssignments {
                admin_id: *admin_id,
            },
            Request::DeleteAdmin { admin_id } => RequestView::DeleteAdmin {
                admin_id: *admin_id,
            },
            Request::Deactivate { admin_id } => RequestView::Deactivate {
                admin_id: *admin_id,
            },
            Request::ListActive => RequestView::ListActive,
            Request::Commit => RequestView::Commit,
            Request::Rollback => RequestView::Rollback,
        }
    }
}

/// What came back from a request.
#[derive(Debug, Clone, PartialEq, Eq)]
pub enum Reply {
    /// The request was carried out and has nothing to tell.
    Done,
    /// The hash of the password.
    Hashed(String),
    /// The role names of an administrator.
    Roles(Vec<String>),
    /// The active administrator of the username, if there is one.
    Found(Option<Credentials>),
    /// Whether a row holds the value.
    Exists(bool),
    /// The id of the row just inserted.
    AdminId(i64),
    /// The id of the role, if the name is known.
    RoleId(Option<i32>),
    /// The active flag of the row.
    Status(Option<bool>),
    /// The active administrators.
    Admins(Vec<AdminRow>),
    /// The request failed; the string says how, for the log.
    Failed(String),
}

/// The mathematical content of [`Reply`].
pub ghost enum ReplyView {
    Done,
    Hashed(Seq<char>),
    Roles(Seq<Seq<char>>),
    Found(Option<CredentialsView>),
    Exists(bool),
    AdminId(i64),
    RoleId(Option<i32>),
    Status(Option<bool>),
    Admins(Seq<AdminRowView>),
    Failed(Seq<char>),
}

impl View for Reply {
    type V = ReplyView;

    open spec fn view(&self) -> ReplyView {
        match self {
            Reply::Done => ReplyView::Done,
            Reply::Hashed(h) => ReplyView::Hashed(h@),
            Reply::Roles(r) => ReplyView::Roles(r.deep_view()),
            Reply::Found(c) => ReplyView::Found(c.deep_view()),
            Reply::Exists(b) => ReplyView::Exists(*b),
            Reply::AdminId(id) => ReplyView::AdminId(*id),
            Reply::RoleId(id) => ReplyView::RoleId(*id),
            Reply::Status(s) => ReplyView::Status(*s),
            Reply::Admins(rows) => ReplyView::Admins(rows.deep_view()),
            Reply::Failed(why) => ReplyView::Failed(why@),
        }
    }
}

/// One step of a running operation: the next request, or the end.
#[derive(Debug, PartialEq, Eq)]
pub enum Step<T> {
    /// Perform the request and come back with its reply.
    Ask(Request),
    /// The operation is over, with its result.
    Finish(Result<T, AppError>),
}

/// The mathematical content of [`Step`].
pub ghost enum StepView<V> {
    Ask(RequestView),
    Finish(Result<V, AppErrorView>),
}

impl<T: DeepView> View for Step<T> {
    type V = StepView<T::V>;

    open spec fn view(&self) -> StepView<T::V> {
        match self {
            Step::Ask(request) => StepView::Ask(request@),
            Step::Finish(Ok(value)) => StepView::Finish(Ok(value.deep_view())),
            Step::Finish(Err(e)) => StepView::Finish(Err(e@)),
        }
    }
}

} // verus!
