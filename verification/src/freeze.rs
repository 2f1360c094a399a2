//! Freezing an administrator: the privilege check, then one transaction
//! that reads the target's active flag and, where it is set, clears it.

use vstd::prelude::*;
use vstd::string::StringExecFns;
use crate::error::{AppError, AppErrorView, internal_error, unexpected, unexpected_reply};
use crate::guard::{has_super_admin, super_admin};
use crate::protocol::{Reply, ReplyView, Request, RequestView, Step, StepView};

verus! {

/// Where a freeze stands: the request whose reply it waits for.
#[derive(Debug, Clone, Copy, PartialEq, Eq, Structural)]
pub enum FreezePhase {
    /// The acting administrator's roles.
    Privilege,
    /// The opening of the transaction.
    Begin,
    /// The target's active flag.
    Status,
    /// The clearing of the flag.
    Update,
    /// The commit.
    Commit,
    /// The rollback after a failure inside the transaction.
    Abort,
    /// Nothing: the freeze is over.
    Done,
}

/// The mathematical content of a running freeze.
pub ghost struct FreezeView {
    pub acting: i64,
    pub target: i64,
    pub phase: FreezePhase,
    pub failure: Option<AppErrorView>,
}

/// The refusal of a caller without the super-administrator role.
pub open spec fn freeze_needs_privilege() -> AppErrorView {
    AppErrorView::Public("需要super_admin权限才能冻结管理员用户"@)
}

/// The conflict of a target that is not active: frozen already, or
/// without a flag.
pub open spec fn already_frozen() -> AppErrorView {
    AppErrorView::Public("目标用户已处于冻结状态"@)
}

impl FreezeView {
    /// The state a freeze starts in.
    pub open spec fn initial(acting: i64, target: i64) -> FreezeView {
        FreezeView { acting, target, phase: FreezePhase::Privilege, failure: None }
    }

    /// What every state that `initial` and `freeze_step` reach satisfies.
    pub open spec fn wf(self) -> bool {
        self.phase is Abort ==> self.failure is Some
    }

    /// Goes on to `phase` with `request`.
    pub open spec fn ask(self, phase: FreezePhase, request: RequestView) -> (FreezeView, StepView<()>) {
        (FreezeView { phase, ..self }, StepView::Ask(request))
    }

    /// Ends with `result`.
    pub open spec fn finish(self, result: Result<(), AppErrorView>) -> (FreezeView, StepView<()>) {
        (FreezeView { phase: FreezePhase::Done, failure: None, ..self }, StepView::Finish(result))
    }

    /// Asks for the rollback and keeps `e` for the end.
    pub open spec fn abort(self, e: AppErrorView) -> (FreezeView, StepView<()>) {
        (
            FreezeView { phase: FreezePhase::Abort, failure: Some(e), ..self },
            StepView::Ask(RequestView::Rollback),
        )
    }
}

/// The freeze's next state and step on `reply`.
///
/// Only a flag that is set is cleared: on any other the freeze writes
/// nothing. A target without a row is a failure of the status request.
/// Outside the transaction a failure ends the freeze at once; inside it,
/// every failure asks for the rollback first and ends on its reply.
pub open spec fn freeze_step(s: FreezeView, reply: ReplyView) -> (FreezeView, StepView<()>) {
    match s.phase {
        FreezePhase::Privilege => match reply {
            ReplyView::Roles(roles) => if roles.contains(super_admin()) {
                s.ask(FreezePhase::Begin, RequestView::Begin)
            } else {
                s.finish(Err(freeze_needs_privilege()))
            },
            ReplyView::Failed(why) => s.finish(
                Err(AppErrorView::Internal("查询用户角色失败: "@ + why)),
            ),
            _ => s.finish(Err(unexpected_reply())),
        },
        FreezePhase::Begin => match reply {
            ReplyView::Done => s.ask(FreezePhase::Status, RequestView::Status { admin_id: s.target }),
            ReplyView::Failed(why) => s.finish(
                Err(AppErrorView::Internal("开启数据库事务失败: "@ + why)),
            ),
            _ => s.finish(Err(unexpected_reply())),
        },
        FreezePhase::Status => match reply {
            ReplyView::Status(Some(true)) => s.ask(
                FreezePhase::Update,
                RequestView::Deactivate { admin_id: s.target },
            ),
            ReplyView::Status(_) => s.abort(already_frozen()),
            ReplyView::Failed(why) => s.abort(
                AppErrorView::Internal("查询目标用户状态失败: "@ + why),
            ),
            _ => s.abort(unexpected_reply()),
        },
        FreezePhase::Update => match reply {
            ReplyView::Done => s.ask(FreezePhase::Commit, RequestView::Commit),
            ReplyView::Failed(why) => s.abort(AppErrorView::Internal("冻结用户失败: "@ + why)),
            _ => s.abort(unexpected_reply()),
        },
        FreezePhase::Commit => match reply {
            ReplyView::Done => s.finish(Ok(())),
            ReplyView::Failed(why) => s.finish(Err(AppErrorView::Internal("提交事务失败: "@ + why))),
            _ => s.finish(Err(unexpected_reply())),
        },
        FreezePhase::Abort => s.finish(Err(s.failure->0)),
        FreezePhase::Done => s.finish(Err(unexpected_reply())),
    }
}

/// A running freeze of an administrator.
#[derive(Debug)]
pub struct FreezeAdmin {
    acting: i64,
    target: i64,
    phase: FreezePhase,
    failure: Option<AppError>,
}

impl View for FreezeAdmin {
    type V = FreezeView;

    closed spec fn view(&self) -> FreezeView {
        FreezeView {
            acting: self.acting,
            target: self.target,
            phase: self.phase,
            failure: self.failure.deep_view(),
        }
    }
}

impl FreezeAdmin {
    #[verifier::type_invariant]
    spec fn inv(self) -> bool {
        self@.wf()
    }

    /// Starts the freeze of `target_user_id` on behalf of
    /// `current_user_id`: the first request reads the caller's roles.
    pub fn start(current_user_id: i64, target_user_id: i64) -> (r: (FreezeAdmin, Request))
        ensures
            r.0@ == FreezeView::initial(current_user_id, target_user_id),
            r.1@ == (RequestView::RolesOf { admin_id: current_user_id }),
            r.0@.wf(),
    {
        (
            FreezeAdmin {
                acting: current_user_id,
                target: target_user_id,
                phase: FreezePhase::Privilege,
                failure: None,
            },
            Request::RolesOf { admin_id: current_user_id },
        )
    }

    fn ask(self, phase: FreezePhase, request: Request) -> (r: (FreezeAdmin, Step<()>))
        requires
            !(phase is Abort),
        ensures
            (r.0@, r.1@) == self@.ask(phase, request@),
    {
        (FreezeAdmin { phase, ..self }, Step::Ask(request))
    }

    fn finish(self, result: Result<(), AppError>) -> (r: (FreezeAdmin, Step<()>))
        ensures
            (r.0@, r.1@) == self@.finish(
                match result {
                    Ok(u) => Ok(u),
                    Err(e) => Err(e@),
                },
            ),
    {
        (
            FreezeAdmin { phase: FreezePhase::Done, failure: None, ..self },
            Step::Finish(result),
        )
    }

    fn abort(self, e: AppError) -> (r: (FreezeAdmin, Step<()>))
        ensures
            (r.0@, r.1@) == self@.abort(e@),
    {
        (
            FreezeAdmin { phase: FreezePhase::Abort, failure: Some(e), ..self },
            Step::Ask(Request::Rollback),
        )
    }

    /// Takes the reply to the last request and gives the next step.
    pub fn advance(self, reply: Reply) -> (r: (FreezeAdmin, Step<()>))
        ensures
            (r.0@, r.1@) == freeze_step(self@, reply@),
            self@.wf() && r.0@.wf(),
    {
        proof {
            use_type_invariant(&self);
        }
        let target = self.target;
        match self.phase {
            FreezePhase::Privilege => match reply {
                Reply::Roles(roles) => if has_super_admin(&roles) {
                    self.ask(FreezePhase::Begin, Request::Begin)
                } else {
                    self.finish(
                        Err(
                            AppError::Public(
                                String::from_str("需要super_admin权限才能冻结管理员用户"),
                            ),
                        ),
                    )
                },
                Reply::Failed(why) => self.finish(
                    Err(internal_error("查询用户角色失败: ", why.as_str())),
                ),
                _ => self.finish(Err(unexpected())),
            },
            FreezePhase::Begin => match reply {
                Reply::Done => self.ask(FreezePhase::Status, Request::Status { admin_id: target }),
                Reply::Failed(why) => self.finish(
                    Err(internal_error("开启数据库事务失败: ", why.as_str())),
                ),
                _ => self.finish(Err(unexpected())),
            },
            FreezePhase::Status => match reply {
                Reply::Status(Some(true)) => self.ask(
                    FreezePhase::Update,
                    Request::Deactivate { admin_id: target },
                ),
                Reply::Status(_) => self.abort(
                    AppError::Public(String::from_str("目标用户已处于冻结状态")),
                ),
                Reply::Failed(why) => self.abort(
                    internal_error("查询目标用户状态失败: ", why.as_str()),
                ),
                _ => self.abort(unexpected()),
            },
            FreezePhase::Update => match reply {
                Reply::Done => self.ask(FreezePhase::Commit, Request::Commit),
                Reply::Failed(why) => self.abort(internal_error("冻结用户失败: ", why.as_str())),
                _ => self.abort(unexpected()),
            },
            FreezePhase::Commit => match reply {
                Reply::Done => self.finish(Ok(())),
                Reply::Failed(why) => self.finish(
                    Err(internal_error("提交事务失败: ", why.as_str())),
                ),
                _ => self.finish(Err(unexpected())),
            },
            FreezePhase::Abort => {
                let FreezeAdmin { acting, target, phase: _, failure } = self;
                let e = match failure {
                    Some(e) => e,
                    None => unexpected(),
                };
                (
                    FreezeAdmin { acting, target, phase: FreezePhase::Done, failure: None },
                    Step::Finish(Err(e)),
                )
            },
            FreezePhase::Done => self.finish(Err(unexpected())),
        }
    }
}

} // verus!
