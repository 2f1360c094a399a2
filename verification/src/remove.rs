//! Deleting an administrator: the privilege check, then one transaction
//! that finds the active target, removes its role assignments and then its
//! row.

use vstd::prelude::*;
use vstd::string::StringExecFns;
use crate::error::{AppError, AppErrorView, internal_error, unexpected, unexpected_reply};
use crate::guard::{has_super_admin, super_admin};
use crate::protocol::{Reply, ReplyView, Request, RequestView, Step, StepView};

verus! {

/// Where a deletion stands: the request whose reply it waits for.
#[derive(Debug, Clone, Copy, PartialEq, Eq, Structural)]
pub enum DeletePhase {
    /// The acting administrator's roles.
    Privilege,
    /// The opening of the transaction.
    Begin,
    /// Whether the target exists and is active.
    Target,
    /// The removal of the target's role assignments.
    Assignments,
    /// The removal of the target's row.
    Row,
    /// The commit.
    Commit,
    /// The rollback after a failure inside the transaction.
    Abort,
    /// Nothing: the deletion is over.
    Done,
}

/// The mathematical content of a running deletion.
pub ghost struct DeleteView {
    pub acting: i64,
    pub target: i64,
    pub phase: DeletePhase,
    pub failure: Option<AppErrorView>,
}

/// The refusal of a caller without the super-administrator role.
pub open spec fn delete_needs_privilege() -> AppErrorView {
    AppErrorView::Public("需要super_admin权限才能删除管理员用户"@)
}

/// The refusal of a target that is absent or not active.
pub open spec fn target_missing() -> AppErrorView {
    AppErrorView::Public("目标用户不存在或已被删除"@)
}

impl DeleteView {
    /// The state a deletion starts in.
    pub open spec fn initial(acting: i64, target: i64) -> DeleteView {
        DeleteView { acting, target, phase: DeletePhase::Privilege, failure: None }
    }

    /// What every state that `initial` and `delete_step` reach satisfies.
    pub open spec fn wf(self) -> bool {
        self.phase is Abort ==> self.failure is Some
    }

    /// Goes on to `phase` with `request`.
    pub open spec fn ask(self, phase: DeletePhase, request: RequestView) -> (DeleteView, StepView<()>) {
        (DeleteView { phase, ..self }, StepView::Ask(request))
    }

    /// Ends with `result`.
    pub open spec fn finish(self, result: Result<(), AppErrorView>) -> (DeleteView, StepView<()>) {
        (DeleteView { phase: DeletePhase::Done, failure: None, ..self }, StepView::Finish(result))
    }

    /// Asks for the rollback and keeps `e` for the end.
    pub open spec fn abort(self, e: AppErrorView) -> (DeleteView, StepView<()>) {
        (
            DeleteView { phase: DeletePhase::Abort, failure: Some(e), ..self },
            StepView::Ask(RequestView::Rollback),
        )
    }
}

/// The deletion's next state and step on `reply`.
///
/// The assignments go before the row. Outside the transaction a failure
/// ends the deletion at once; inside it, every failure asks for the
/// rollback first and ends on its reply.
pub open spec fn delete_step(s: DeleteView, reply: ReplyView) -> (DeleteView, StepView<()>) {
    match s.phase {
        DeletePhase::Privilege => match reply {
            ReplyView::Roles(roles) => if roles.contains(super_admin()) {
                s.ask(DeletePhase::Begin, RequestView::Begin)
            } else {
                s.finish(Err(delete_needs_privilege()))
            },
            ReplyView::Failed(why) => s.finish(
                Err(AppErrorView::Internal("查询用户角色失败: "@ + why)),
            ),
            _ => s.finish(Err(unexpected_reply())),
        },
        DeletePhase::Begin => match reply {
            ReplyView::Done => s.ask(
                DeletePhase::Target,
                RequestView::ActiveExists { admin_id: s.target },
            ),
            ReplyView::Failed(why) => s.finish(
                Err(AppErrorView::Internal("开启数据库事务失败: "@ + why)),
            ),
            _ => s.finish(Err(unexpected_reply())),
        },
        DeletePhase::Target => match reply {
            ReplyView::Exists(true) => s.ask(
                DeletePhase::Assignments,
                RequestView::DeleteAssignments { admin_id: s.target },
            ),
            ReplyView::Exists(false) => s.abort(target_missing()),
            ReplyView::Failed(why) => s.abort(
                AppErrorView::Internal("查询目标用户是否存在失败: "@ + why),
            ),
            _ => s.abort(unexpected_reply()),
        },
        DeletePhase::Assignments => match reply {
            ReplyView::Done => s.ask(DeletePhase::Row, RequestView::DeleteAdmin { admin_id: s.target }),
            ReplyView::Failed(why) => s.abort(
                AppErrorView::Internal("删除用户角色关联失败: "@ + why),
            ),
            _ => s.abort(unexpected_reply()),
        },
        DeletePhase::Row => match reply {
            ReplyView::Done => s.ask(DeletePhase::Commit, RequestView::Commit),
            ReplyView::Failed(why) => s.abort(AppErrorView::Internal("删除用户失败: "@ + why)),
            _ => s.abort(unexpected_reply()),
        },
        DeletePhase::Commit => match reply {
            ReplyView::Done => s.finish(Ok(())),
            ReplyView::Failed(why) => s.finish(Err(AppErrorView::Internal("提交事务失败: "@ + why))),
            _ => s.finish(Err(unexpected_reply())),
        },
        DeletePhase::Abort => s.finish(Err(s.failure->0)),
        DeletePhase::Done => s.finish(Err(unexpected_reply())),
    }
}

/// A running deletion of an administrator.
#[derive(Debug)]
pub struct DeleteAdmin {
    acting: i64,
    target: i64,
    phase: DeletePhase,
    failure: Option<AppError>,
}

impl View for DeleteAdmin {
    type V = DeleteView;

    closed spec fn view(&self) -> DeleteView {
        DeleteView {
            acting: self.acting,
            target: self.target,
            phase: self.phase,
            failure: self.failure.deep_view(),
        }
    }
}

impl DeleteAdmin {
    #[verifier::type_invariant]
    spec fn inv(self) -> bool {
        self@.wf()
    }

    /// Starts the deletion of `target_user_id` on behalf of
    /// `current_user_id`: the first request reads the caller's roles.
    pub fn start(current_user_id: i64, target_user_id: i64) -> (r: (DeleteAdmin, Request))
        ensures
            r.0@ == DeleteView::initial(current_user_id, target_user_id),
            r.1@ == (RequestView::RolesOf { admin_id: current_user_id }),
            r.0@.wf(),
    {
        (
            DeleteAdmin {
                acting: current_user_id,
                target: target_user_id,
                phase: DeletePhase::Privilege,
                failure: None,
            },
            Request::RolesOf { admin_id: current_user_id },
        )
    }

    fn ask(self, phase: DeletePhase, request: Request) -> (r: (DeleteAdmin, Step<()>))
        requires
            !(phase is Abort),
        ensures
            (r.0@, r.1@) == self@.ask(phase, request@),
    {
        (DeleteAdmin { phase, ..self }, Step::Ask(request))
    }

    fn finish(self, result: Result<(), AppError>) -> (r: (DeleteAdmin, Step<()>))
        ensures
            (r.0@, r.1@) == self@.finish(
                match result {
                    Ok(u) => Ok(u),
                    Err(e) => Err(e@),
                },
            ),
    {
        (
            DeleteAdmin { phase: DeletePhase::Done, failure: None, ..self },
            Step::Finish(result),
        )
    }

    fn abort(self, e: AppError) -> (r: (DeleteAdmin, Step<()>))
        ensures
            (r.0@, r.1@) == self@.abort(e@),
    {
        (
            DeleteAdmin { phase: DeletePhase::Abort, failure: Some(e), ..self },
            Step::Ask(Request::Rollback),
        )
    }

    /// Takes the reply to the last request and gives the next step.
    pub fn advance(self, reply: Reply) -> (r: (DeleteAdmin, Step<()>))
        ensures
            (r.0@, r.1@) == delete_step(self@, reply@),
            self@.wf() && r.0@.wf(),
    {
        proof {
            use_type_invariant(&self);
        }
        let target = self.target;
        match self.phase {
            DeletePhase::Privilege => match reply {
                Reply::Roles(roles) => if has_super_admin(&roles) {
                    self.ask(DeletePhase::Begin, Request::Begin)
                } else {
                    self.finish(
                        Err(
                            AppError::Public(
                                String::from_str("需要super_admin权限才能删除管理员用户"),
                            ),
                        ),
                    )
                },
                Reply::Failed(why) => self.finish(
                    Err(internal_error("查询用户角色失败: ", why.as_str())),
                ),
                _ => self.finish(Err(unexpected())),
            },
            DeletePhase::Begin => match reply {
                Reply::Done => self.ask(
                    DeletePhase::Target,
                    Request::ActiveExists { admin_id: target },
                ),
                Reply::Failed(why) => self.finish(
                    Err(internal_error("开启数据库事务失败: ", why.as_str())),
                ),
                _ => self.finish(Err(unexpected())),
            },
            DeletePhase::Target => match reply {
                Reply::Exists(true) => self.ask(
                    DeletePhase::Assignments,
                    Request::DeleteAssignments { admin_id: target },
                ),
                Reply::Exists(false) => self.abort(
                    AppError::Public(String::from_str("目标用户不存在或已被删除")),
                ),
                Reply::Failed(why) => self.abort(
                    internal_error("查询目标用户是否存在失败: ", why.as_str()),
                ),
                _ => self.abort(unexpected()),
            },
            DeletePhase::Assignments => match reply {
                Reply::Done => self.ask(DeletePhase::Row, Request::DeleteAdmin { admin_id: target }),
                Reply::Failed(why) => self.abort(
                    internal_error("删除用户角色关联失败: ", why.as_str()),
                ),
                _ => self.abort(unexpected()),
            },
            DeletePhase::Row => match reply {
                Reply::Done => self.ask(DeletePhase::Commit, Request::Commit),
                Reply::Failed(why) => self.abort(internal_error("删除用户失败: ", why.as_str())),
                _ => self.abort(unexpected()),
            },
            DeletePhase::Commit => match reply {
                Reply::Done => self.finish(Ok(())),
                Reply::Failed(why) => self.finish(
                    Err(internal_error("提交事务失败: ", why.as_str())),
                ),
                _ => self.finish(Err(unexpected())),
            },
            DeletePhase::Abort => {
                let DeleteAdmin { acting, target, phase: _, failure } = self;
                let e = match failure {
                    Some(e) => e,
                    None => unexpected(),
                };
                (
                    DeleteAdmin { acting, target, phase: DeletePhase::Done, failure: None },
                    Step::Finish(Err(e)),
                )
            },
            DeletePhase::Done => self.finish(Err(unexpected())),
        }
    }
}

} // verus!
