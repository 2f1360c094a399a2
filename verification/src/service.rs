//! The lifecycle operations carried out against the store in memory, and
//! what each of them leaves behind.

use vstd::prelude::*;
use vstd::string::StringExecFns;
use crate::config::JwtConfig;
use crate::create::{
    conflict, create_needs_privilege, create_step, CreateAdmin, CreatePhase, CreateView,
};
use crate::error::{public_error, AppError, AppErrorView};
use crate::freeze::{
    already_frozen, freeze_needs_privilege, freeze_step, FreezeAdmin, FreezePhase, FreezeView,
};
use crate::guard::has_super_admin;
use crate::listing::{
    entry_of, list_needs_privilege, list_step, AdminUsers, AdminUsersView, ListAdmins, ListPhase,
    ListView,
};
use crate::login::{
    bad_credentials, login_step, token_stands, Login, LoginPhase, LoginResponse,
    LoginResponseView, LoginView,
};
use crate::memory::MemoryStore;
use crate::model::{
    active_index, active_rows, admin_index, admins_frozen, admins_without, has_links, inserted_row,
    lemma_links_without, lemma_no_links_wait, lemma_respond_keeps_wf, lemma_role_by_name_and_id,
    lemma_role_names_join, lemma_without_keeps_unique, links_without, listed, refusal, respond,
    role_index, role_name, role_names_of, taken, AdminRecordView, RoleLink, StoreState,
};
use crate::password::{hash_password, readable, verified};
use crate::protocol::{Column, Reply, ReplyView, Request, RequestView, Step, StepView};
use crate::remove::{
    delete_needs_privilege, delete_step, target_missing, DeleteAdmin, DeletePhase, DeleteView,
};
use crate::token::{issued, joined, token_error_text};

verus! {

/// The view of a result without a value.
pub open spec fn unit_view(r: Result<(), AppError>) -> Result<(), AppErrorView> {
    match r {
        Ok(u) => Ok(u),
        Err(e) => Err(e@),
    }
}

/// Whether an active administrator of that id exists.
pub open spec fn active_exists(s: StoreState, id: i64) -> bool {
    match admin_index(s.admins, id) {
        Some(i) => s.admins[i].is_active,
        None => false,
    }
}

/// What a deletion leaves and returns: without the privilege, or without
/// an active target, the store stays as it is; else the target's
/// assignments and its row are gone and everything else stays.
pub open spec fn deleted(s: StoreState, acting: i64, target: i64) -> (
    StoreState,
    Result<(), AppErrorView>,
) {
    if !s.is_super_admin(acting) {
        (s, Err(delete_needs_privilege()))
    } else if !active_exists(s, target) {
        (s, Err(target_missing()))
    } else {
        (
            StoreState {
                admins: admins_without(s.admins, target),
                links: links_without(s.links, target),
                ..s
            },
            Ok(()),
        )
    }
}

/// How many steps a deletion in that phase has left at most.
pub open spec fn delete_rank(phase: DeletePhase) -> nat {
    match phase {
        DeletePhase::Privilege => 7,
        DeletePhase::Begin => 6,
        DeletePhase::Target => 5,
        DeletePhase::Assignments => 4,
        DeletePhase::Row => 3,
        DeletePhase::Commit => 2,
        DeletePhase::Abort => 1,
        DeletePhase::Done => 0,
    }
}

/// What holds while a deletion that began on `s0` waits for the reply to
/// `request` from the store `s`.
pub open spec fn delete_holds(
    m: DeleteView,
    request: RequestView,
    s: StoreState,
    s0: StoreState,
    acting: i64,
    target: i64,
) -> bool {
    let open = StoreState { saved: Some(s0.tables()), ..s0 };
    &&& m.acting == acting
    &&& m.target == target
    &&& m.wf()
    &&& match m.phase {
        DeletePhase::Privilege => request == (RequestView::RolesOf { admin_id: acting }) && s == s0,
        DeletePhase::Begin => request == RequestView::Begin && s == s0 && s0.is_super_admin(acting),
        DeletePhase::Target => request == (RequestView::ActiveExists { admin_id: target }) && s
            == open && s0.is_super_admin(acting),
        DeletePhase::Assignments => request == (RequestView::DeleteAssignments {
            admin_id: target,
        }) && s == open && s0.is_super_admin(acting) && active_exists(s0, target),
        DeletePhase::Row => request == (RequestView::DeleteAdmin { admin_id: target }) && s == (
        StoreState { links: links_without(s0.links, target), ..open }) && s0.is_super_admin(acting)
            && active_exists(s0, target),
        DeletePhase::Commit => request == RequestView::Commit && s == (StoreState {
            links: links_without(s0.links, target),
            admins: admins_without(s0.admins, target),
            ..open
        }) && s0.is_super_admin(acting) && active_exists(s0, target),
        DeletePhase::Abort => request == RequestView::Rollback && s.saved == Some(s0.tables())
            && s.roles == s0.roles && s.next_id == s0.next_id && s.now == s0.now
            && s0.is_super_admin(acting) && !active_exists(s0, target) && m.failure == Some(
            target_missing(),
        ),
        DeletePhase::Done => false,
    }
}

/// One request and its reply take a deletion to its next request, with
/// fewer steps left, or to the end that [`deleted`] gives.
pub proof fn lemma_delete_advances(
    m: DeleteView,
    request: RequestView,
    s: StoreState,
    s0: StoreState,
    acting: i64,
    target: i64,
)
    requires
        s0.wf(),
        s0.saved is None,
        delete_holds(m, request, s, s0, acting, target),
    ensures
        match delete_step(m, respond(s, request).1).1 {
            StepView::Ask(next) => delete_holds(
                delete_step(m, respond(s, request).1).0,
                next,
                respond(s, request).0,
                s0,
                acting,
                target,
            ) && delete_rank(delete_step(m, respond(s, request).1).0.phase) < delete_rank(m.phase),
            StepView::Finish(result) => (respond(s, request).0, result) == deleted(
                s0,
                acting,
                target,
            ),
        },
{
    match m.phase {
        DeletePhase::Privilege => {},
        DeletePhase::Begin => {},
        DeletePhase::Target => {},
        DeletePhase::Assignments => {},
        DeletePhase::Row => {
            lemma_links_without(s0.links, s0.roles, target);
            assert(!has_links(links_without(s0.links, target), target));
        },
        DeletePhase::Commit => {},
        DeletePhase::Abort => {},
        DeletePhase::Done => {},
    }
}

/// Deletes the administrator `target_user_id` on behalf of
/// `current_user_id`, in one transaction.
pub fn delete_admin_user(store: &mut MemoryStore, current_user_id: i64, target_user_id: i64) -> (r:
    Result<(), AppError>)
    requires
        old(store)@.wf(),
        old(store)@.saved is None,
    ensures
        (final(store)@, unit_view(r)) == deleted(old(store)@, current_user_id, target_user_id),
        final(store)@.wf(),
        final(store)@.saved is None,
{
    let ghost s0 = store@;
    let (machine, first) = DeleteAdmin::start(current_user_id, target_user_id);
    let mut machine = machine;
    let mut request = first;
    loop
        invariant
            s0 == old(store)@,
            s0.wf(),
            s0.saved is None,
            store@.wf(),
            delete_holds(machine@, request@, store@, s0, current_user_id, target_user_id),
        decreases delete_rank(machine@.phase),
    {
        proof {
            lemma_delete_advances(
                machine@,
                request@,
                store@,
                s0,
                current_user_id,
                target_user_id,
            );
        }
        let reply = store.perform(&request);
        let (next, step) = machine.advance(reply);
        machine = next;
        match step {
            Step::Ask(asked) => {
                request = asked;
            },
            Step::Finish(result) => {
                proof {
                    lemma_without_keeps_unique(s0.admins, target_user_id, s0.next_id);
                }
                return result;
            },
        }
    }
}

/// What a freeze leaves and returns: without the privilege the store
/// stays as it is; so it does where the target has no row, which is a
/// failure of the status request, and where the target is not active,
/// which is the conflict; else the target's flag is cleared and its update
/// time renewed, and everything else stays.
pub open spec fn frozen(s: StoreState, acting: i64, target: i64) -> (
    StoreState,
    Result<(), AppErrorView>,
) {
    if !s.is_super_admin(acting) {
        (s, Err(freeze_needs_privilege()))
    } else {
        match admin_index(s.admins, target) {
            None => (
                s,
                Err(
                    AppErrorView::Internal(
                        "查询目标用户状态失败: "@ + refusal(RequestView::Status { admin_id: target }),
                    ),
                ),
            ),
            Some(i) => if !s.admins[i].is_active {
                (s, Err(already_frozen()))
            } else {
                (StoreState { admins: admins_frozen(s.admins, target, s.now), ..s }, Ok(()))
            },
        }
    }
}

/// How many steps a freeze in that phase has left at most.
pub open spec fn freeze_rank(phase: FreezePhase) -> nat {
    match phase {
        FreezePhase::Privilege => 6,
        FreezePhase::Begin => 5,
        FreezePhase::Status => 4,
        FreezePhase::Update => 3,
        FreezePhase::Commit => 2,
        FreezePhase::Abort => 1,
        FreezePhase::Done => 0,
    }
}

/// What holds while a freeze that began on `s0` waits for the reply to
/// `request` from the store `s`.
pub open spec fn freeze_holds(
    m: FreezeView,
    request: RequestView,
    s: StoreState,
    s0: StoreState,
    acting: i64,
    target: i64,
) -> bool {
    let open = StoreState { saved: Some(s0.tables()), ..s0 };
    &&& m.acting == acting
    &&& m.target == target
    &&& m.wf()
    &&& match m.phase {
        FreezePhase::Privilege => request == (RequestView::RolesOf { admin_id: acting }) && s == s0,
        FreezePhase::Begin => request == RequestView::Begin && s == s0 && s0.is_super_admin(acting),
        FreezePhase::Status => request == (RequestView::Status { admin_id: target }) && s == open
            && s0.is_super_admin(acting),
        FreezePhase::Update => request == (RequestView::Deactivate { admin_id: target }) && s
            == open && s0.is_super_admin(acting) && active_exists(s0, target),
        FreezePhase::Commit => request == RequestView::Commit && s == (StoreState {
            admins: admins_frozen(s0.admins, target, s0.now),
            ..open
        }) && s0.is_super_admin(acting) && active_exists(s0, target),
        FreezePhase::Abort => request == RequestView::Rollback && s == open && s0.is_super_admin(
            acting,
        ) && !active_exists(s0, target) && m.failure == Some(frozen(s0, acting, target).1->Err_0),
        FreezePhase::Done => false,
    }
}

/// One request and its reply take a freeze to its next request, with
/// fewer steps left, or to the end that [`frozen`] gives.
pub proof fn lemma_freeze_advances(
    m: FreezeView,
    request: RequestView,
    s: StoreState,
    s0: StoreState,
    acting: i64,
    target: i64,
)
    requires
        s0.wf(),
        s0.saved is None,
        freeze_holds(m, request, s, s0, acting, target),
    ensures
        match freeze_step(m, respond(s, request).1).1 {
            StepView::Ask(next) => freeze_holds(
                freeze_step(m, respond(s, request).1).0,
                next,
                respond(s, request).0,
                s0,
                acting,
                target,
            ) && freeze_rank(freeze_step(m, respond(s, request).1).0.phase) < freeze_rank(m.phase),
            StepView::Finish(result) => (respond(s, request).0, result) == frozen(
                s0,
                acting,
                target,
            ),
        },
{
    match m.phase {
        FreezePhase::Privilege => {},
        FreezePhase::Begin => {},
        FreezePhase::Status => {},
        FreezePhase::Update => {},
        FreezePhase::Commit => {},
        FreezePhase::Abort => {},
        FreezePhase::Done => {},
    }
}

/// Freezes the administrator `target_user_id` on behalf of
/// `current_user_id`, in one transaction.
pub fn freeze_admin_user(store: &mut MemoryStore, current_user_id: i64, target_user_id: i64) -> (r:
    Result<(), AppError>)
    requires
        old(store)@.wf(),
        old(store)@.saved is None,
    ensures
        (final(store)@, unit_view(r)) == frozen(old(store)@, current_user_id, target_user_id),
        final(store)@.wf(),
        final(store)@.saved is None,
{
    let ghost s0 = store@;
    let (machine, first) = FreezeAdmin::start(current_user_id, target_user_id);
    let mut machine = machine;
    let mut request = first;
    loop
        invariant
            s0 == old(store)@,
            s0.wf(),
            s0.saved is None,
            store@.wf(),
            freeze_holds(machine@, request@, store@, s0, current_user_id, target_user_id),
        decreases freeze_rank(machine@.phase),
    {
        proof {
            lemma_freeze_advances(
                machine@,
                request@,
                store@,
                s0,
                current_user_id,
                target_user_id,
            );
        }
        let reply = store.perform(&request);
        let (next, step) = machine.advance(reply);
        machine = next;
        match step {
            Step::Ask(asked) => {
                request = asked;
            },
            Step::Finish(result) => {
                return result;
            },
        }
    }
}

/// The listing of a store: its active administrators in order, each with
/// the names of its roles.
pub open spec fn entries(s: StoreState) -> Seq<AdminUsersView> {
    Seq::new(
        active_rows(s.admins).len(),
        |k: int|
            entry_of(
                active_rows(s.admins)[k],
                role_names_of(s.links, s.roles, active_rows(s.admins)[k].id),
            ),
    )
}

/// What a listing returns: without the privilege the refusal, else the
/// [`entries`].
pub open spec fn listed_all(s: StoreState, acting: i64) -> Result<Seq<AdminUsersView>, AppErrorView> {
    if !s.is_super_admin(acting) {
        Err(list_needs_privilege())
    } else {
        Ok(entries(s))
    }
}

/// How many steps a listing of the store `s0` has left at most.
pub open spec fn list_rank(m: ListView, s0: StoreState) -> int {
    match m.phase {
        ListPhase::Privilege => active_rows(s0.admins).len() as int + 2,
        ListPhase::Rows => active_rows(s0.admins).len() as int + 1,
        ListPhase::RolesFor(i) => active_rows(s0.admins).len() - i,
        ListPhase::Done => 0,
    }
}

/// What holds while a listing of the store `s` waits for the reply to
/// `request`.
pub open spec fn list_holds(m: ListView, request: RequestView, s: StoreState, acting: i64) -> bool {
    &&& m.acting == acting
    &&& m.wf()
    &&& match m.phase {
        ListPhase::Privilege => request == (RequestView::RolesOf { admin_id: acting }),
        ListPhase::Rows => request == RequestView::ListActive && s.is_super_admin(acting),
        ListPhase::RolesFor(i) => s.is_super_admin(acting) && m.rows == active_rows(s.admins)
            && m.entries == entries(s).take(i as int) && request == (RequestView::RolesOf {
            admin_id: m.rows[i as int].id,
        }),
        ListPhase::Done => false,
    }
}

/// One request and its reply take a listing to its next request, with
/// fewer steps left, or to the end that [`listed_all`] gives; the store
/// stays as it is.
pub proof fn lemma_list_advances(m: ListView, request: RequestView, s: StoreState, acting: i64)
    requires
        s.wf(),
        list_holds(m, request, s, acting),
        m.phase is Rows ==> active_rows(s.admins).len() <= usize::MAX,
    ensures
        respond(s, request).0 == s,
        match list_step(m, respond(s, request).1).1 {
            StepView::Ask(next) => list_holds(list_step(m, respond(s, request).1).0, next, s, acting)
                && 0 <= list_rank(list_step(m, respond(s, request).1).0, s) < list_rank(m, s),
            StepView::Finish(result) => result == listed_all(s, acting),
        },
{
    match m.phase {
        ListPhase::Privilege => {},
        ListPhase::Rows => {
            if active_rows(s.admins).len() == 0 {
                assert(entries(s) =~= Seq::empty());
            } else {
                assert(entries(s).take(0) =~= m.entries);
            }
        },
        ListPhase::RolesFor(i) => {
            let roles = role_names_of(s.links, s.roles, m.rows[i as int].id);
            assert(m.entries.push(entry_of(m.rows[i as int], roles)) =~= entries(s).take(i + 1));
            if i + 1 >= m.rows.len() {
                assert(entries(s).take(i + 1) =~= entries(s));
            }
        },
        ListPhase::Done => {},
    }
}

/// The view of a listing result.
pub open spec fn listing_view(r: Result<Vec<AdminUsers>, AppError>) -> Result<
    Seq<AdminUsersView>,
    AppErrorView,
> {
    match r {
        Ok(v) => Ok(v.deep_view()),
        Err(e) => Err(e@),
    }
}

/// Lists the active administrators with their roles on behalf of
/// `current_user_id`. The store stays as it is.
pub fn get_all_admin_users(store: &mut MemoryStore, current_user_id: i64) -> (r: Result<
    Vec<AdminUsers>,
    AppError,
>)
    requires
        old(store)@.wf(),
    ensures
        listing_view(r) == listed_all(old(store)@, current_user_id),
        final(store)@ == old(store)@,
{
    let (machine, first) = ListAdmins::start(current_user_id);
    let mut machine = machine;
    let mut request = first;
    loop
        invariant
            store@ == old(store)@,
            store@.wf(),
            list_holds(machine@, request@, store@, current_user_id),
        decreases list_rank(machine@, store@),
    {
        let ghost before = machine@;
        let reply = store.perform(&request);
        match &reply {
            Reply::Admins(rows) => {
                let count = rows.len();
                assert(rows.deep_view().len() == count);
            },
            _ => {},
        }
        proof {
            lemma_list_advances(before, request@, store@, current_user_id);
        }
        let (next, step) = machine.advance(reply);
        machine = next;
        match step {
            Step::Ask(asked) => {
                request = asked;
            },
            Step::Finish(result) => {
                return result;
            },
        }
    }
}

/// What a login returns: the one refusal where no active account has the
/// username or the password does not match its hash; an internal error
/// where the stored hash cannot be read; else the response with a token
/// issued at `now` for the account and its roles.
pub open spec fn logged_in(
    s: StoreState,
    secret: Seq<char>,
    ttl: u64,
    username: Seq<char>,
    password: Seq<char>,
    now: u64,
) -> Result<LoginResponseView, AppErrorView> {
    match active_index(s.admins, username) {
        None => Err(bad_credentials()),
        Some(i) => match verified(password, s.admins[i].password_hash) {
            Err(why) => Err(AppErrorView::Internal("密码验证失败: "@ + why)),
            Ok(false) => Err(bad_credentials()),
            Ok(true) => match issued(
                secret,
                ttl,
                s.admins[i].id,
                s.admins[i].username,
                role_names_of(s.links, s.roles, s.admins[i].id),
                now,
            ) {
                Ok(token) => Ok(
                    LoginResponseView {
                        user_id: s.admins[i].id,
                        username: s.admins[i].username,
                        token,
                        exp: (now + ttl) as nat,
                    },
                ),
                Err(e) => Err(AppErrorView::Internal("生成令牌失败: "@ + token_error_text(e))),
            },
        },
    }
}

/// How many steps a login in that phase has left at most.
pub open spec fn login_rank(phase: LoginPhase) -> nat {
    match phase {
        LoginPhase::Lookup => 2,
        LoginPhase::Roles => 1,
        LoginPhase::Done => 0,
    }
}

/// What holds while a login on the store `s` waits for the reply to
/// `request`.
pub open spec fn login_holds(m: LoginView, request: RequestView, s: StoreState, start: LoginView) -> bool {
    &&& m.secret == start.secret
    &&& m.ttl == start.ttl
    &&& m.username == start.username
    &&& m.password == start.password
    &&& m.now == start.now
    &&& m.wf()
    &&& match m.phase {
        LoginPhase::Lookup => request == (RequestView::FindActiveByUsername {
            username: m.username,
        }),
        LoginPhase::Roles => active_index(s.admins, m.username) matches Some(i) && m.account
            == Some(
            crate::protocol::CredentialsView {
                id: s.admins[i].id,
                username: s.admins[i].username,
                password_hash: s.admins[i].password_hash,
            },
        ) && verified(m.password, s.admins[i].password_hash) == Ok::<bool, Seq<char>>(true)
            && request == (RequestView::RolesOf { admin_id: s.admins[i].id }),
        LoginPhase::Done => false,
    }
}

/// One request and its reply take a login to its next request, with fewer
/// steps left, or to the end that [`logged_in`] gives; the store stays as
/// it is.
pub proof fn lemma_login_advances(m: LoginView, request: RequestView, s: StoreState, start: LoginView)
    requires
        s.wf(),
        login_holds(m, request, s, start),
    ensures
        respond(s, request).0 == s,
        match login_step(m, respond(s, request).1).1 {
            StepView::Ask(next) => login_holds(
                login_step(m, respond(s, request).1).0,
                next,
                s,
                start,
            ) && login_rank(login_step(m, respond(s, request).1).0.phase) < login_rank(m.phase),
            StepView::Finish(result) => result == logged_in(
                s,
                start.secret,
                start.ttl,
                start.username,
                start.password,
                start.now,
            ),
        },
{
    match m.phase {
        LoginPhase::Lookup => {},
        LoginPhase::Roles => {},
        LoginPhase::Done => {},
    }
}

/// The view of a login result.
pub open spec fn login_view(r: Result<LoginResponse, AppError>) -> Result<
    LoginResponseView,
    AppErrorView,
> {
    match r {
        Ok(v) => Ok(v@),
        Err(e) => Err(e@),
    }
}

/// Logs in at the moment `now`. The store stays as it is. The token of a
/// response stands for it: before `now + expires_in` it validates to the
/// account's id and name, the joined names of the roles that the account
/// holds in the store, and that expiry; from then on it is expired.
pub fn login_at(
    store: &mut MemoryStore,
    config: &JwtConfig,
    username: &str,
    password: &str,
    now: u64,
) -> (r: Result<LoginResponse, AppError>)
    requires
        old(store)@.wf(),
    ensures
        login_view(r) == logged_in(
            old(store)@,
            config.secret@,
            config.expires_in,
            username@,
            password@,
            now,
        ),
        final(store)@ == old(store)@,
        r matches Ok(response) ==> response.exp == now + config.expires_in && token_stands(
            config.secret@,
            config.expires_in,
            response@,
            joined(role_names_of(old(store)@.links, old(store)@.roles, response.user_id)),
        ),
{
    let own = JwtConfig { secret: config.secret.clone(), expires_in: config.expires_in };
    let (machine, first) = Login::start(
        own,
        String::from_str(username),
        String::from_str(password),
        now,
    );
    let ghost start = machine@;
    let mut machine = machine;
    let mut request = first;
    loop
        invariant
            store@ == old(store)@,
            store@.wf(),
            start == LoginView::initial(
                config.secret@,
                config.expires_in,
                username@,
                password@,
                now,
            ),
            login_holds(machine@, request@, store@, start),
        decreases login_rank(machine@.phase),
    {
        proof {
            lemma_login_advances(machine@, request@, store@, start);
        }
        let reply = store.perform(&request);
        let (next, step) = machine.advance(reply);
        machine = next;
        match step {
            Step::Ask(asked) => {
                request = asked;
            },
            Step::Finish(result) => {
                return result;
            },
        }
    }
}

/// What a creation is asked for.
pub ghost struct NewAdmin {
    pub acting: i64,
    pub username: Seq<char>,
    pub password: Seq<char>,
    pub email: Seq<char>,
    pub phone_number: Option<Seq<char>>,
    pub role_names: Seq<Seq<char>>,
}

/// Whether each of the first `n` names is the name of a role.
pub open spec fn known_roles(s: StoreState, names: Seq<Seq<char>>, n: int) -> bool {
    forall|k: int| 0 <= k < n ==> role_index(s.roles, #[trigger] names[k]) is Some
}

/// The id of the role of that name.
pub open spec fn role_id_of(s: StoreState, name: Seq<char>) -> i32 {
    s.roles[role_index(s.roles, name)->0].id
}

/// The assignments of the first `n` names to the administrator `id`, in
/// the order of the names.
pub open spec fn new_links(s: StoreState, names: Seq<Seq<char>>, id: i64, n: int) -> Seq<RoleLink> {
    Seq::new(n as nat, |k: int| RoleLink { user_id: id, role_id: role_id_of(s, names[k]) })
}

/// The index of the first name that is no role's.
pub open spec fn first_unknown(s: StoreState, names: Seq<Seq<char>>) -> int {
    choose|k: int|
        0 <= k < names.len() && role_index(s.roles, names[k]) is None && known_roles(s, names, k)
}

/// The insertion that a creation asks for.
pub open spec fn insertion(input: NewAdmin, hash: Seq<char>) -> RequestView {
    RequestView::InsertAdmin {
        username: input.username,
        email: input.email,
        password_hash: hash,
        phone_number: input.phone_number,
    }
}

/// What a creation leaves and returns, where hashing the password gave
/// `hash`.
///
/// Without the privilege, with a failed hash, with a value already held
/// in a unique column (the username is looked at first, then the email,
/// then the phone number) or with no id left, the store stays as it is.
/// With a role name that no role has, the relations stay as they are and
/// only the id is used up. Else the new row is there, active and with that
/// hash, the roles are assigned in the order of the names, and the new id
/// is the result.
pub open spec fn created(s: StoreState, input: NewAdmin, hash: Result<Seq<char>, Seq<char>>) -> (
    StoreState,
    Result<i64, AppErrorView>,
) {
    if !s.is_super_admin(input.acting) {
        (s, Err(create_needs_privilege()))
    } else {
        match hash {
            Err(why) => (s, Err(AppErrorView::Internal("密码哈希失败: "@ + why))),
            Ok(h) => if taken(s.admins, Column::Username, input.username) {
                (s, Err(conflict(Column::Username, input.username)))
            } else if taken(s.admins, Column::Email, input.email) {
                (s, Err(conflict(Column::Email, input.email)))
            } else if input.phone_number is Some && taken(
                s.admins,
                Column::PhoneNumber,
                input.phone_number->0,
            ) {
                (s, Err(conflict(Column::PhoneNumber, input.phone_number->0)))
            } else if s.next_id == i64::MAX {
                (
                    s,
                    Err(AppErrorView::Internal("创建用户失败: "@ + refusal(insertion(input, h)))),
                )
            } else {
                let used = StoreState { next_id: (s.next_id + 1) as i64, ..s };
                if known_roles(s, input.role_names, input.role_names.len() as int) {
                    (
                        StoreState {
                            admins: s.admins.push(
                                inserted_row(
                                    s,
                                    input.username,
                                    input.email,
                                    h,
                                    input.phone_number,
                                ),
                            ),
                            links: s.links + new_links(
                                s,
                                input.role_names,
                                s.next_id,
                                input.role_names.len() as int,
                            ),
                            ..used
                        },
                        Ok(s.next_id),
                    )
                } else {
                    (
                        used,
                        Err(
                            AppErrorView::Public(
                                "角色不存在: "@ + input.role_names[first_unknown(
                                    s,
                                    input.role_names,
                                )],
                            ),
                        ),
                    )
                }
            },
        }
    }
}

/// How many steps a creation in that state has left at most.
pub open spec fn create_rank(m: CreateView) -> int {
    let n = m.role_names.len() as int;
    match m.phase {
        CreatePhase::Privilege => 2 * n + 9,
        CreatePhase::Hash => 2 * n + 8,
        CreatePhase::Begin => 2 * n + 7,
        CreatePhase::Unique(Column::Username) => 2 * n + 6,
        CreatePhase::Unique(Column::Email) => 2 * n + 5,
        CreatePhase::Unique(Column::PhoneNumber) => 2 * n + 4,
        CreatePhase::Insert => 2 * n + 3,
        CreatePhase::Resolve(i) => 2 * n + 2 - i,
        CreatePhase::Assign(i) => n + 2 - i,
        CreatePhase::Commit => 2,
        CreatePhase::Abort => 1,
        CreatePhase::Done => 0,
    }
}

/// Whether the three unique columns are free for the new administrator.
pub open spec fn all_free(s: StoreState, input: NewAdmin) -> bool {
    &&& !taken(s.admins, Column::Username, input.username)
    &&& !taken(s.admins, Column::Email, input.email)
    &&& input.phone_number matches Some(p) ==> !taken(s.admins, Column::PhoneNumber, p)
}

/// What holds while a creation that began on `s0` waits for the reply to
/// `request` from the store `s`.
pub open spec fn create_holds(
    m: CreateView,
    request: RequestView,
    s: StoreState,
    s0: StoreState,
    input: NewAdmin,
    hash: Result<Seq<char>, Seq<char>>,
) -> bool {
    let open = StoreState { saved: Some(s0.tables()), ..s0 };
    let row = inserted_row(s0, input.username, input.email, m.password_hash, input.phone_number);
    let grown = StoreState {
        admins: s0.admins.push(row),
        next_id: (s0.next_id + 1) as i64,
        ..open
    };
    let n = input.role_names.len() as int;
    &&& m.acting == input.acting
    &&& m.username == input.username
    &&& m.password == input.password
    &&& m.email == input.email
    &&& m.phone_number == input.phone_number
    &&& m.role_names == input.role_names
    &&& m.wf()
    &&& match m.phase {
        CreatePhase::Privilege => request == (RequestView::RolesOf { admin_id: input.acting }) && s
            == s0,
        CreatePhase::Hash => request == (RequestView::HashPassword { password: input.password })
            && s == s0 && s0.is_super_admin(input.acting),
        CreatePhase::Begin => request == RequestView::Begin && s == s0 && s0.is_super_admin(
            input.acting,
        ) && hash == Ok::<Seq<char>, Seq<char>>(m.password_hash),
        CreatePhase::Unique(column) => request == (RequestView::Exists {
            column,
            value: m.value_in(column),
        }) && s == open && s0.is_super_admin(input.acting) && hash == Ok::<Seq<char>, Seq<char>>(
            m.password_hash,
        ) && (column != Column::Username ==> !taken(s0.admins, Column::Username, input.username))
            && (column == Column::PhoneNumber ==> !taken(s0.admins, Column::Email, input.email)),
        CreatePhase::Insert => request == insertion(input, m.password_hash) && s == open
            && s0.is_super_admin(input.acting) && hash == Ok::<Seq<char>, Seq<char>>(
            m.password_hash,
        ) && all_free(s0, input),
        CreatePhase::Resolve(i) => request == (RequestView::RoleIdByName {
            name: input.role_names[i as int],
        }) && s == grown && s0.is_super_admin(input.acting) && hash == Ok::<Seq<char>, Seq<char>>(
            m.password_hash,
        ) && all_free(s0, input) && s0.next_id < i64::MAX && m.user_id == s0.next_id
            && known_roles(s0, input.role_names, i as int) && forall|k: int|
            0 <= k < i ==> #[trigger] m.role_ids[k] == role_id_of(s0, input.role_names[k]),
        CreatePhase::Assign(i) => request == (RequestView::AssignRole {
            admin_id: m.user_id,
            role_id: m.role_ids[i as int],
            username: input.username,
            role_name: input.role_names[i as int],
        }) && s == (StoreState {
            links: s0.links + new_links(s0, input.role_names, s0.next_id, i as int),
            ..grown
        }) && s0.is_super_admin(input.acting) && hash == Ok::<Seq<char>, Seq<char>>(
            m.password_hash,
        ) && all_free(s0, input) && s0.next_id < i64::MAX && m.user_id == s0.next_id
            && known_roles(s0, input.role_names, n) && forall|k: int|
            0 <= k < n ==> #[trigger] m.role_ids[k] == role_id_of(s0, input.role_names[k]),
        CreatePhase::Commit => request == RequestView::Commit && s == (StoreState {
            links: s0.links + new_links(s0, input.role_names, s0.next_id, n),
            ..grown
        }) && s0.is_super_admin(input.acting) && hash == Ok::<Seq<char>, Seq<char>>(
            m.password_hash,
        ) && all_free(s0, input) && s0.next_id < i64::MAX && m.user_id == s0.next_id
            && known_roles(s0, input.role_names, n),
        CreatePhase::Abort => request == RequestView::Rollback && s.saved == Some(s0.tables())
            && (StoreState { admins: s0.admins, links: s0.links, saved: None, ..s }) == created(
            s0,
            input,
            hash,
        ).0 && Err::<i64, AppErrorView>(m.failure->0) == created(s0, input, hash).1,
        CreatePhase::Done => false,
    }
}

/// Whether `reply` and the store `after` are what `request` gets: the
/// hash where it asks for one, else what the store `s` does.
pub open spec fn answered(
    request: RequestView,
    s: StoreState,
    hash: Result<Seq<char>, Seq<char>>,
    reply: ReplyView,
    after: StoreState,
) -> bool {
    if request is HashPassword {
        after == s && reply == match hash {
            Ok(h) => ReplyView::Hashed(h),
            Err(why) => ReplyView::Failed(why),
        }
    } else {
        (after, reply) == respond(s, request)
    }
}

/// One request and its reply take a creation to its next request, with
/// fewer steps left, or to the end that [`created`] gives.
#[verifier::rlimit(60)]
pub proof fn lemma_create_advances(
    m: CreateView,
    request: RequestView,
    s: StoreState,
    s0: StoreState,
    input: NewAdmin,
    hash: Result<Seq<char>, Seq<char>>,
    reply: ReplyView,
    after: StoreState,
)
    requires
        s0.wf(),
        s0.saved is None,
        create_holds(m, request, s, s0, input, hash),
        answered(request, s, hash, reply, after),
    ensures
        match create_step(m, reply).1 {
            StepView::Ask(next) => create_holds(create_step(m, reply).0, next, after, s0, input, hash)
                && 0 <= create_rank(create_step(m, reply).0) < create_rank(m),
            StepView::Finish(result) => (after, result) == created(s0, input, hash),
        },
{
    let n = input.role_names.len() as int;
    let names = input.role_names;
    match m.phase {
        CreatePhase::Privilege => {},
        CreatePhase::Hash => {},
        CreatePhase::Begin => {},
        CreatePhase::Unique(column) => {},
        CreatePhase::Insert => {
            if n == 0 {
                assert(new_links(s0, names, s0.next_id, 0) =~= Seq::empty());
                assert(s0.links + new_links(s0, names, s0.next_id, 0) =~= s0.links);
            }
        },
        CreatePhase::Resolve(i) => {
            match role_index(s0.roles, names[i as int]) {
                Some(at) => {
                    let t = create_step(m, reply).0;
                    assert(t.role_ids == m.role_ids.push(s0.roles[at].id));
                    assert forall|k: int| 0 <= k < i + 1 implies #[trigger] t.role_ids[k]
                        == role_id_of(s0, names[k]) by {
                        if k < i {
                            assert(m.role_ids[k] == role_id_of(s0, names[k]));
                        }
                    }
                    if i + 1 >= n {
                        assert(new_links(s0, names, s0.next_id, 0) =~= Seq::empty());
                        assert(s0.links + new_links(s0, names, s0.next_id, 0) =~= s0.links);
                    }
                },
                None => {
                    let c = first_unknown(s0, names);
                    assert(role_index(s0.roles, names[i as int]) is None && known_roles(
                        s0,
                        names,
                        i as int,
                    ));
                    assert(!known_roles(s0, names, n));
                    assert(c == i) by {
                        if c < i {
                            assert(role_index(s0.roles, names[c]) is Some);
                        } else if c > i {
                            assert(role_index(s0.roles, names[i as int]) is Some);
                        }
                    }
                },
            }
        },
        CreatePhase::Assign(i) => {
            let link = RoleLink { user_id: s0.next_id, role_id: m.role_ids[i as int] };
            assert(m.role_ids[i as int] == role_id_of(s0, names[i as int]));
            assert((s0.links + new_links(s0, names, s0.next_id, i as int)).push(link) =~= s0.links
                + new_links(s0, names, s0.next_id, i + 1));
        },
        CreatePhase::Commit => {},
        CreatePhase::Abort => {},
        CreatePhase::Done => {},
    }
}

/// The view of a creation result.
pub open spec fn id_view(r: Result<i64, AppError>) -> Result<i64, AppErrorView> {
    match r {
        Ok(id) => Ok(id),
        Err(e) => Err(e@),
    }
}

/// Creates an administrator with the given roles on behalf of
/// `current_user_id`, in one transaction. Whatever hashing gives, the
/// outcome is that of [`created`] for it, and a hash that is stored
/// verifies against the password and can be read whatever password it is
/// held against.
pub fn create_admin_user(
    store: &mut MemoryStore,
    current_user_id: i64,
    username: &str,
    password: &str,
    email: &str,
    phone_number: Option<&str>,
    role_names: &Vec<String>,
) -> (r: Result<i64, AppError>)
    requires
        old(store)@.wf(),
        old(store)@.saved is None,
    ensures
        exists|hash: Result<Seq<char>, Seq<char>>|
            (final(store)@, id_view(r)) == #[trigger] created(
                old(store)@,
                NewAdmin {
                    acting: current_user_id,
                    username: username@,
                    password: password@,
                    email: email@,
                    phone_number: phone_number.deep_view(),
                    role_names: role_names.deep_view(),
                },
                hash,
            ) && (hash matches Ok(h) ==> verified(password@, h) == Ok::<bool, Seq<char>>(true)
                && readable(h)),
        final(store)@.wf(),
        final(store)@.saved is None,
{
    let ghost s0 = store@;
    let ghost input = NewAdmin {
        acting: current_user_id,
        username: username@,
        password: password@,
        email: email@,
        phone_number: phone_number.deep_view(),
        role_names: role_names.deep_view(),
    };
    let mut names: Vec<String> = Vec::new();
    let mut i: usize = 0;
    while i < role_names.len()
        invariant
            i <= role_names.len(),
            names.len() == i,
            forall|k: int| 0 <= k < i ==> names@[k]@ == role_names@[k]@,
        decreases role_names.len() - i,
    {
        names.push(role_names[i].clone());
        i = i + 1;
    }
    proof {
        assert(names.deep_view() =~= role_names.deep_view());
    }
    let phone = match phone_number {
        Some(p) => Some(String::from_str(p)),
        None => None,
    };
    let (machine, first) = CreateAdmin::start(
        current_user_id,
        String::from_str(username),
        String::from_str(password),
        String::from_str(email),
        phone,
        names,
    );
    let mut machine = machine;
    let mut request = first;
    let ghost mut hash: Result<Seq<char>, Seq<char>> = Err(Seq::empty());
    loop
        invariant
            s0 == old(store)@,
            s0.wf(),
            s0.saved is None,
            store@.wf(),
            input == (NewAdmin {
                acting: current_user_id,
                username: username@,
                password: password@,
                email: email@,
                phone_number: phone_number.deep_view(),
                role_names: role_names.deep_view(),
            }),
            create_holds(machine@, request@, store@, s0, input, hash),
            hash matches Ok(h) ==> verified(password@, h) == Ok::<bool, Seq<char>>(true)
                && readable(h),
        decreases create_rank(machine@),
    {
        let ghost before = store@;
        let ghost state = machine@;
        let reply = match &request {
            Request::HashPassword { password: asked } => match hash_password(asked.as_str()) {
                Ok(h) => {
                    proof {
                        hash = Ok(h@);
                    }
                    Reply::Hashed(h)
                },
                Err(e) => {
                    proof {
                        hash = Err(e.message@);
                    }
                    Reply::Failed(e.message)
                },
            },
            _ => store.perform(&request),
        };
        proof {
            lemma_create_advances(state, request@, before, s0, input, hash, reply@, store@);
        }
        let (next, step) = machine.advance(reply);
        machine = next;
        match step {
            Step::Ask(asked) => {
                request = asked;
            },
            Step::Finish(result) => {
                proof {
                    assert((store@, id_view(result)) == created(s0, input, hash));
                    lemma_respond_keeps_wf(before, request@);
                }
                return result;
            },
        }
    }
}

/// The active account of that exact username: its id, its username and
/// its password hash. The store stays as it is.
pub fn get_user_by_username(store: &mut MemoryStore, username: &str) -> (r: Result<
    Option<(i64, String, String)>,
    AppError,
>)
    requires
        old(store)@.wf(),
    ensures
        final(store)@ == old(store)@,
        match r {
            Ok(Some(found)) => active_index(old(store)@.admins, username@) matches Some(i) && ({
                let row = old(store)@.admins[i];
                found.0 == row.id && found.1@ == row.username && found.2@ == row.password_hash
            }),
            Ok(None) => active_index(old(store)@.admins, username@) is None,
            Err(_) => false,
        },
{
    let request = Request::FindActiveByUsername { username: String::from_str(username) };
    match store.perform(&request) {
        Reply::Found(Some(c)) => Ok(Some((c.id, c.username, c.password_hash))),
        Reply::Found(None) => Ok(None),
        _ => Err(AppError::Internal(String::from_str("查询用户失败"))),
    }
}

/// The names of the roles of the administrator. The store stays as it
/// is.
pub fn get_user_roles(store: &mut MemoryStore, user_id: i64) -> (r: Result<Vec<String>, AppError>)
    requires
        old(store)@.wf(),
    ensures
        final(store)@ == old(store)@,
        r matches Ok(names) && names.deep_view() == role_names_of(
            old(store)@.links,
            old(store)@.roles,
            user_id,
        ),
{
    match store.perform(&Request::RolesOf { admin_id: user_id }) {
        Reply::Roles(names) => Ok(names),
        _ => Err(AppError::Internal(String::from_str("查询用户角色失败"))),
    }
}

/// Whether the administrator holds the super-administrator role now, by
/// the store and not by any token. The store stays as it is.
pub fn is_super_admin(store: &mut MemoryStore, current_user_id: i64) -> (r: Result<bool, AppError>)
    requires
        old(store)@.wf(),
    ensures
        final(store)@ == old(store)@,
        r matches Ok(b) && b == old(store)@.is_super_admin(current_user_id),
{
    match get_user_roles(store, current_user_id) {
        Ok(names) => Ok(has_super_admin(&names)),
        Err(e) => Err(e),
    }
}

/// The id of the role of that name; a name that no role has is a public
/// error that names it. The store stays as it is.
pub fn get_role_id_by_name(store: &mut MemoryStore, role_name: &str) -> (r: Result<i32, AppError>)
    requires
        old(store)@.wf(),
    ensures
        final(store)@ == old(store)@,
        match role_index(old(store)@.roles, role_name@) {
            Some(i) => r matches Ok(id) && id == old(store)@.roles[i].id,
            None => r matches Err(e) && e@ == AppErrorView::Public("角色不存在: "@ + role_name@),
        },
{
    let request = Request::RoleIdByName { name: String::from_str(role_name) };
    match store.perform(&request) {
        Reply::RoleId(Some(id)) => Ok(id),
        Reply::RoleId(None) => Err(public_error("角色不存在: ", role_name)),
        _ => Err(AppError::Internal(String::from_str("查询角色失败"))),
    }
}

/// Without the super-administrator role, each of the four operations is
/// refused and leaves the store as it is.
pub proof fn lemma_privilege_is_required(
    s: StoreState,
    acting: i64,
    input: NewAdmin,
    hash: Result<Seq<char>, Seq<char>>,
    target: i64,
)
    requires
        !s.is_super_admin(acting),
        input.acting == acting,
    ensures
        created(s, input, hash) == (s, Err::<i64, AppErrorView>(create_needs_privilege())),
        deleted(s, acting, target) == (s, Err::<(), AppErrorView>(delete_needs_privilege())),
        frozen(s, acting, target) == (s, Err::<(), AppErrorView>(freeze_needs_privilege())),
        listed_all(s, acting) == Err::<Seq<AdminUsersView>, AppErrorView>(list_needs_privilege()),
{
}

/// Of two creations with one username, one after the other, the second
/// is refused and leaves the store as the first left it: with the hash in
/// hand, the refusal is the conflict on the username.
pub proof fn lemma_username_is_taken_once(
    s: StoreState,
    first: NewAdmin,
    first_hash: Result<Seq<char>, Seq<char>>,
    second: NewAdmin,
    second_hash: Result<Seq<char>, Seq<char>>,
)
    requires
        s.wf(),
        created(s, first, first_hash).1 is Ok,
        second.username == first.username,
    ensures
        created(created(s, first, first_hash).0, second, second_hash).1 is Err,
        created(created(s, first, first_hash).0, second, second_hash).0 == created(
            s,
            first,
            first_hash,
        ).0,
        created(s, first, first_hash).0.is_super_admin(second.acting) && second_hash is Ok
            ==> created(created(s, first, first_hash).0, second, second_hash).1 == Err::<
            i64,
            AppErrorView,
        >(conflict(Column::Username, second.username)),
{
    let s1 = created(s, first, first_hash).0;
    let last = s1.admins.len() - 1;
    assert(crate::model::held(s1.admins[last], Column::Username) == Some(first.username));
    assert(taken(s1.admins, Column::Username, second.username));
}

/// Every row of the listing is an active row of the store.
pub proof fn lemma_active_rows(admins: Seq<AdminRecordView>)
    ensures
        forall|k: int|
            0 <= k < active_rows(admins).len() ==> exists|j: int|
                0 <= j < admins.len() && admins[j].is_active && #[trigger] active_rows(admins)[k]
                    == listed(admins[j]),
    decreases admins.len(),
{
    if admins.len() > 0 {
        lemma_active_rows(admins.drop_last());
        let shorter = admins.drop_last();
        assert forall|k: int| 0 <= k < active_rows(admins).len() implies exists|j: int|
            0 <= j < admins.len() && admins[j].is_active && #[trigger] active_rows(admins)[k]
                == listed(admins[j]) by {
            if k < active_rows(shorter).len() {
                let j = choose|j: int|
                    0 <= j < shorter.len() && shorter[j].is_active && active_rows(shorter)[k]
                        == listed(shorter[j]);
                assert(admins[j] == shorter[j]);
            } else {
                assert(active_rows(admins)[k] == listed(admins[admins.len() - 1]));
            }
        }
    }
}

/// After a deletion that succeeded, no role assignment refers to the
/// target, no row has its id, and no listing shows it.
pub proof fn lemma_deleted_is_gone(s: StoreState, acting: i64, target: i64)
    requires
        s.wf(),
        deleted(s, acting, target).1 is Ok,
    ensures
        forall|i: int|
            0 <= i < deleted(s, acting, target).0.links.len() ==> (#[trigger] deleted(
                s,
                acting,
                target,
            ).0.links[i]).user_id != target,
        forall|i: int|
            0 <= i < deleted(s, acting, target).0.admins.len() ==> (#[trigger] deleted(
                s,
                acting,
                target,
            ).0.admins[i]).id != target,
        forall|k: int|
            0 <= k < entries(deleted(s, acting, target).0).len() ==> (#[trigger] entries(
                deleted(s, acting, target).0,
            )[k]).id != target,
{
    let after = deleted(s, acting, target).0;
    lemma_links_without(s.links, s.roles, target);
    lemma_without_keeps_unique(s.admins, target, s.next_id);
    lemma_active_rows(after.admins);
    assert forall|k: int| 0 <= k < entries(after).len() implies (#[trigger] entries(after)[k]).id
        != target by {
        let row = active_rows(after.admins)[k];
        let j = choose|j: int|
            0 <= j < after.admins.len() && after.admins[j].is_active && row == listed(
                after.admins[j],
            );
        assert(after.admins[j].id != target);
    }
}

/// A target that is not active is not frozen again: the freeze is the
/// conflict and the store, update time included, stays as it is. So it is
/// for the second of two freezes of one target.
pub proof fn lemma_frozen_stays_frozen(s: StoreState, acting: i64, target: i64)
    requires
        s.wf(),
        s.is_super_admin(acting),
    ensures
        admin_index(s.admins, target) matches Some(i) && !s.admins[i].is_active ==> frozen(
            s,
            acting,
            target,
        ) == (s, Err::<(), AppErrorView>(already_frozen())),
        frozen(s, acting, target).1 is Ok ==> frozen(frozen(s, acting, target).0, acting, target)
            == (frozen(s, acting, target).0, Err::<(), AppErrorView>(already_frozen())),
{
    if frozen(s, acting, target).1 is Ok {
        let after = frozen(s, acting, target).0;
        let i = admin_index(s.admins, target)->0;
        assert(after.admins[i].id == target);
        let c = admin_index(after.admins, target)->0;
        assert(c == i) by {
            assert(s.admins[c].id == after.admins[c].id);
            if c < i {
                assert(s.admins[c].id != s.admins[i].id);
            } else if c > i {
                assert(s.admins[i].id != s.admins[c].id);
            }
        }
    }
}

/// A username without an active account cannot log in, whatever the
/// password: a frozen administrator is refused like an unknown one.
pub proof fn lemma_frozen_cannot_log_in(
    s: StoreState,
    secret: Seq<char>,
    ttl: u64,
    username: Seq<char>,
    password: Seq<char>,
    now: u64,
)
    requires
        forall|i: int|
            0 <= i < s.admins.len() && (#[trigger] s.admins[i]).username == username
                ==> !s.admins[i].is_active,
    ensures
        logged_in(s, secret, ttl, username, password, now) == Err::<
            LoginResponseView,
            AppErrorView,
        >(bad_credentials()),
{
}

/// The new assignments of a creation carry exactly the names asked for,
/// in order.
pub proof fn lemma_new_links_carry_the_names(s: StoreState, names: Seq<Seq<char>>, id: i64, n: int)
    requires
        s.wf(),
        0 <= n <= names.len(),
        known_roles(s, names, n),
    ensures
        role_names_of(new_links(s, names, id, n), s.roles, id) == names.take(n),
    decreases n,
{
    let links = new_links(s, names, id, n);
    if n == 0 {
        assert(names.take(0) =~= Seq::empty());
    } else {
        lemma_new_links_carry_the_names(s, names, id, n - 1);
        assert(links.drop_last() =~= new_links(s, names, id, n - 1));
        assert(links.last() == RoleLink { user_id: id, role_id: role_id_of(s, names[n - 1]) });
        assert(role_index(s.roles, names[n - 1]) is Some);
        lemma_role_by_name_and_id(s.roles, names[n - 1]);
        assert(names.take(n - 1).push(names[n - 1]) =~= names.take(n));
    }
}

/// The assignments that a creation adds are the new administrator's
/// alone.
pub proof fn lemma_new_links_are_the_new_admins(
    s: StoreState,
    names: Seq<Seq<char>>,
    id: i64,
    n: int,
    other: i64,
)
    requires
        0 <= n,
        other != id,
    ensures
        role_names_of(new_links(s, names, id, n), s.roles, other) == Seq::<Seq<char>>::empty(),
    decreases n,
{
    if n > 0 {
        lemma_new_links_are_the_new_admins(s, names, id, n - 1, other);
        assert(new_links(s, names, id, n).drop_last() =~= new_links(s, names, id, n - 1));
    }
}

/// Roles go only with the administrator: whatever a creation, a freeze or
/// a deletion did, every administrator but the one created or deleted
/// holds the roles it held.
pub proof fn lemma_roles_outlive_operations(
    s: StoreState,
    input: NewAdmin,
    hash: Result<Seq<char>, Seq<char>>,
    acting: i64,
    target: i64,
    other: i64,
)
    requires
        s.wf(),
    ensures
        created(s, input, hash).1 != Ok::<i64, AppErrorView>(other) ==> role_names_of(
            created(s, input, hash).0.links,
            s.roles,
            other,
        ) == role_names_of(s.links, s.roles, other),
        role_names_of(frozen(s, acting, target).0.links, s.roles, other) == role_names_of(
            s.links,
            s.roles,
            other,
        ),
        other != target ==> role_names_of(deleted(s, acting, target).0.links, s.roles, other)
            == role_names_of(s.links, s.roles, other),
{
    lemma_links_without(s.links, s.roles, target);
    if created(s, input, hash).1 is Ok && other != s.next_id {
        let n = input.role_names.len() as int;
        let fresh = new_links(s, input.role_names, s.next_id, n);
        lemma_role_names_join(s.links, fresh, s.roles, other);
        lemma_new_links_are_the_new_admins(s, input.role_names, s.next_id, n, other);
        assert(role_names_of(s.links, s.roles, other) + Seq::<Seq<char>>::empty() =~= role_names_of(
            s.links,
            s.roles,
            other,
        ));
    }
}

/// A creation that succeeded adds one assignment for each role name asked
/// for, all of them the new administrator's, and nothing else: no
/// assignment was waiting for the new id, so the new administrator holds
/// exactly the roles asked for, in order.
pub proof fn lemma_created_holds_exactly_its_roles(
    s: StoreState,
    input: NewAdmin,
    hash: Result<Seq<char>, Seq<char>>,
)
    requires
        s.wf(),
        created(s, input, hash).1 is Ok,
    ensures
        created(s, input, hash).1 == Ok::<i64, AppErrorView>(s.next_id),
        !has_links(s.links, s.next_id),
        created(s, input, hash).0.links == s.links + new_links(
            s,
            input.role_names,
            s.next_id,
            input.role_names.len() as int,
        ),
        forall|k: int|
            0 <= k < input.role_names.len() ==> #[trigger] new_links(
                s,
                input.role_names,
                s.next_id,
                input.role_names.len() as int,
            )[k] == (RoleLink {
                user_id: s.next_id,
                role_id: role_id_of(s, input.role_names[k]),
            }) && role_name(s.roles, role_id_of(s, input.role_names[k])) == Some(
                input.role_names[k],
            ),
        role_names_of(created(s, input, hash).0.links, s.roles, s.next_id) == input.role_names,
{
    let id = s.next_id;
    let n = input.role_names.len() as int;
    let fresh = new_links(s, input.role_names, id, n);
    lemma_no_links_wait(s, id);
    lemma_role_names_join(s.links, fresh, s.roles, id);
    lemma_new_links_carry_the_names(s, input.role_names, id, n);
    assert(input.role_names.take(n) =~= input.role_names);
    assert(Seq::<Seq<char>>::empty() + input.role_names =~= input.role_names);
    assert forall|k: int| 0 <= k < n implies role_name(
        s.roles,
        role_id_of(s, #[trigger] input.role_names[k]),
    ) == Some(input.role_names[k]) by {
        lemma_role_by_name_and_id(s.roles, input.role_names[k]);
    }
}

/// The listing's entry for the administrator that a creation makes.
pub open spec fn new_entry(s: StoreState, input: NewAdmin) -> AdminUsersView {
    AdminUsersView {
        id: s.next_id,
        username: input.username,
        email: input.email,
        phone_number: input.phone_number,
        is_active: true,
        created_at: Some(s.now),
        roles: input.role_names,
    }
}

/// After a creation that succeeded, the listing is what it was with one
/// entry more, at its end: the new administrator's, active, with the
/// values and exactly the roles asked for. No entry before it has the new
/// id.
pub proof fn lemma_created_is_listed_once(
    s: StoreState,
    input: NewAdmin,
    hash: Result<Seq<char>, Seq<char>>,
)
    requires
        s.wf(),
        created(s, input, hash).1 is Ok,
    ensures
        entries(created(s, input, hash).0) == entries(s).push(new_entry(s, input)),
        forall|k: int| 0 <= k < entries(s).len() ==> (#[trigger] entries(s)[k]).id != s.next_id,
{
    let after = created(s, input, hash).0;
    let id = s.next_id;
    let row = inserted_row(s, input.username, input.email, hash->Ok_0, input.phone_number);
    assert(after.admins.drop_last() =~= s.admins);
    assert(after.admins.last() == row);
    assert(active_rows(after.admins) == active_rows(s.admins).push(listed(row)));
    lemma_active_rows(s.admins);
    lemma_created_holds_exactly_its_roles(s, input, hash);
    assert forall|k: int| 0 <= k < entries(s).len() implies (#[trigger] entries(s)[k]).id != id
        && entries(after)[k] == entries(s)[k] by {
        let shown = active_rows(s.admins)[k];
        let j = choose|j: int|
            0 <= j < s.admins.len() && s.admins[j].is_active && shown == listed(s.admins[j]);
        assert(s.admins[j].id < s.next_id);
        lemma_roles_outlive_operations(s, input, hash, 0, 0, shown.id);
    }
    assert(entries(after) =~= entries(s).push(new_entry(s, input)));
}

} // verus!
