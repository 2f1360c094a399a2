use sleepplanet_backend::config::JwtConfig;
use sleepplanet_backend::create::CreateAdmin;
use sleepplanet_backend::error::AppError;
use sleepplanet_backend::freeze::FreezeAdmin;
use sleepplanet_backend::listing::{make_entry, ListAdmins};
use sleepplanet_backend::login::Login;
use sleepplanet_backend::protocol::{AdminRow, Column, Credentials, Reply, Request, Step};
use sleepplanet_backend::remove::DeleteAdmin;

fn names(list: &[&str]) -> Vec<String> {
    list.iter().map(|n| n.to_string()).collect()
}

fn failed(why: &str) -> Reply {
    Reply::Failed(why.to_string())
}

fn start_create(phone: Option<&str>, roles: &[&str]) -> (CreateAdmin, Request) {
    CreateAdmin::start(
        1,
        "bob".to_string(),
        "Passw0rd!".to_string(),
        "bob@x.com".to_string(),
        phone.map(|p| p.to_string()),
        names(roles),
    )
}

fn ask<T: std::fmt::Debug>(step: Step<T>) -> Request {
    match step {
        Step::Ask(request) => request,
        Step::Finish(result) => panic!("finished: {:?}", result),
    }
}

fn finish<T: std::fmt::Debug>(step: Step<T>) -> Result<T, AppError> {
    match step {
        Step::Finish(result) => result,
        Step::Ask(request) => panic!("asked: {:?}", request),
    }
}

#[test]
fn create_asks_in_the_documented_order() {
    let (m, first) = start_create(Some("13800000000"), &["editor", "viewer"]);
    assert_eq!(first, Request::RolesOf { admin_id: 1 });
    let (m, step) = m.advance(Reply::Roles(names(&["editor", "super_admin"])));
    assert_eq!(ask(step), Request::HashPassword { password: "Passw0rd!".to_string() });
    let (m, step) = m.advance(Reply::Hashed("HASH".to_string()));
    assert_eq!(ask(step), Request::Begin);
    let (m, step) = m.advance(Reply::Done);
    assert_eq!(ask(step), Request::Exists { column: Column::Username, value: "bob".to_string() });
    let (m, step) = m.advance(Reply::Exists(false));
    assert_eq!(ask(step), Request::Exists { column: Column::Email, value: "bob@x.com".to_string() });
    let (m, step) = m.advance(Reply::Exists(false));
    assert_eq!(
        ask(step),
        Request::Exists { column: Column::PhoneNumber, value: "13800000000".to_string() }
    );
    let (m, step) = m.advance(Reply::Exists(false));
    assert_eq!(
        ask(step),
        Request::InsertAdmin {
            username: "bob".to_string(),
            email: "bob@x.com".to_string(),
            password_hash: "HASH".to_string(),
            phone_number: Some("13800000000".to_string()),
        }
    );
    let (m, step) = m.advance(Reply::AdminId(42));
    assert_eq!(ask(step), Request::RoleIdByName { name: "editor".to_string() });
    let (m, step) = m.advance(Reply::RoleId(Some(2)));
    assert_eq!(ask(step), Request::RoleIdByName { name: "viewer".to_string() });
    let (m, step) = m.advance(Reply::RoleId(Some(3)));
    assert_eq!(
        ask(step),
        Request::AssignRole {
            admin_id: 42,
            role_id: 2,
            username: "bob".to_string(),
            role_name: "editor".to_string(),
        }
    );
    let (m, step) = m.advance(Reply::Done);
    assert_eq!(
        ask(step),
        Request::AssignRole {
            admin_id: 42,
            role_id: 3,
            username: "bob".to_string(),
            role_name: "viewer".to_string(),
        }
    );
    let (m, step) = m.advance(Reply::Done);
    assert_eq!(ask(step), Request::Commit);
    assert!(!m.is_done());
    let (m, step) = m.advance(Reply::Done);
    assert_eq!(finish(step), Ok(42));
    assert!(m.is_done());
}

#[test]
fn create_without_phone_skips_its_probe() {
    let (m, _) = start_create(None, &[]);
    let (m, _) = m.advance(Reply::Roles(names(&["super_admin"])));
    let (m, _) = m.advance(Reply::Hashed("HASH".to_string()));
    let (m, _) = m.advance(Reply::Done);
    let (m, _) = m.advance(Reply::Exists(false));
    let (m, step) = m.advance(Reply::Exists(false));
    assert_eq!(
        ask(step),
        Request::InsertAdmin {
            username: "bob".to_string(),
            email: "bob@x.com".to_string(),
            password_hash: "HASH".to_string(),
            phone_number: None,
        }
    );
    let (_, step) = m.advance(Reply::AdminId(5));
    assert_eq!(ask(step), Request::Commit);
}

#[test]
fn create_failures_outside_the_transaction_end_at_once() {
    let (m, _) = start_create(None, &[]);
    let (_, step) = m.advance(failed("down"));
    assert_eq!(finish(step), Err(AppError::Internal("查询用户角色失败: down".to_string())));

    let (m, _) = start_create(None, &[]);
    let (m, _) = m.advance(Reply::Roles(names(&["super_admin"])));
    let (_, step) = m.advance(failed("no entropy"));
    assert_eq!(finish(step), Err(AppError::Internal("密码哈希失败: no entropy".to_string())));

    let (m, _) = start_create(None, &[]);
    let (m, _) = m.advance(Reply::Roles(names(&["super_admin"])));
    let (m, _) = m.advance(Reply::Hashed("HASH".to_string()));
    let (_, step) = m.advance(failed("pool"));
    assert_eq!(finish(step), Err(AppError::Internal("开启数据库事务失败: pool".to_string())));
}

fn create_in_transaction() -> CreateAdmin {
    let (m, _) = start_create(None, &["editor"]);
    let (m, _) = m.advance(Reply::Roles(names(&["super_admin"])));
    let (m, _) = m.advance(Reply::Hashed("HASH".to_string()));
    let (m, _) = m.advance(Reply::Done);
    m
}

fn rolled_back(m: CreateAdmin, step: Step<i64>) -> Result<i64, AppError> {
    assert_eq!(ask(step), Request::Rollback);
    let (_, step) = m.advance(Reply::Done);
    finish(step)
}

#[test]
fn create_failures_inside_the_transaction_roll_back_first() {
    let (m, step) = create_in_transaction().advance(failed("timeout"));
    assert_eq!(
        rolled_back(m, step),
        Err(AppError::Internal("查询username是否存在失败: timeout".to_string()))
    );

    let (m, _) = create_in_transaction().advance(Reply::Exists(false));
    let (m, step) = m.advance(failed("timeout"));
    assert_eq!(
        rolled_back(m, step),
        Err(AppError::Internal("查询email是否存在失败: timeout".to_string()))
    );

    let (m, _) = create_in_transaction().advance(Reply::Exists(false));
    let (m, _) = m.advance(Reply::Exists(false));
    let (m, step) = m.advance(failed("unique violation"));
    assert_eq!(
        rolled_back(m, step),
        Err(AppError::Internal("创建用户失败: unique violation".to_string()))
    );

    let (m, _) = create_in_transaction().advance(Reply::Exists(false));
    let (m, _) = m.advance(Reply::Exists(false));
    let (m, _) = m.advance(Reply::AdminId(9));
    let (m, step) = m.advance(failed("gone"));
    assert_eq!(rolled_back(m, step), Err(AppError::Internal("查询角色失败: gone".to_string())));

    let (m, _) = create_in_transaction().advance(Reply::Exists(false));
    let (m, _) = m.advance(Reply::Exists(false));
    let (m, _) = m.advance(Reply::AdminId(9));
    let (m, _) = m.advance(Reply::RoleId(Some(2)));
    let (m, step) = m.advance(failed("fk"));
    assert_eq!(
        rolled_back(m, step),
        Err(AppError::Internal("分配角色 editor 失败: fk".to_string()))
    );
}

#[test]
fn create_rolls_back_even_if_the_rollback_fails() {
    let (m, step) = create_in_transaction().advance(Reply::Exists(true));
    assert_eq!(ask(step), Request::Rollback);
    let (_, step) = m.advance(failed("lost connection"));
    assert_eq!(finish(step), Err(AppError::Public("用户名已存在: bob".to_string())));
}

#[test]
fn create_commit_failure_is_internal() {
    let (m, _) = create_in_transaction().advance(Reply::Exists(false));
    let (m, _) = m.advance(Reply::Exists(false));
    let (m, _) = m.advance(Reply::AdminId(9));
    let (m, _) = m.advance(Reply::RoleId(Some(2)));
    let (m, step) = m.advance(Reply::Done);
    assert_eq!(ask(step), Request::Commit);
    let (_, step) = m.advance(failed("serialization"));
    assert_eq!(finish(step), Err(AppError::Internal("提交事务失败: serialization".to_string())));
}

#[test]
fn reply_that_does_not_answer_is_internal() {
    let (m, _) = start_create(None, &[]);
    let (m, step) = m.advance(Reply::Done);
    assert_eq!(finish(step), Err(AppError::Internal("存储应答与请求不符".to_string())));
    let (_, step) = m.advance(Reply::Done);
    assert_eq!(finish(step), Err(AppError::Internal("存储应答与请求不符".to_string())));
    let (m, step) = create_in_transaction().advance(Reply::AdminId(1));
    assert_eq!(rolled_back(m, step), Err(AppError::Internal("存储应答与请求不符".to_string())));
}

#[test]
fn delete_asks_assignments_before_the_row() {
    let (m, first) = DeleteAdmin::start(1, 2);
    assert_eq!(first, Request::RolesOf { admin_id: 1 });
    let (m, step) = m.advance(Reply::Roles(names(&["super_admin"])));
    assert_eq!(ask(step), Request::Begin);
    let (m, step) = m.advance(Reply::Done);
    assert_eq!(ask(step), Request::ActiveExists { admin_id: 2 });
    let (m, step) = m.advance(Reply::Exists(true));
    assert_eq!(ask(step), Request::DeleteAssignments { admin_id: 2 });
    let (m, step) = m.advance(Reply::Done);
    assert_eq!(ask(step), Request::DeleteAdmin { admin_id: 2 });
    let (m, step) = m.advance(Reply::Done);
    assert_eq!(ask(step), Request::Commit);
    let (_, step) = m.advance(Reply::Done);
    assert_eq!(finish(step), Ok(()));
}

#[test]
fn delete_failures_name_the_step() {
    let (m, _) = DeleteAdmin::start(1, 2);
    let (m, _) = m.advance(Reply::Roles(names(&["super_admin"])));
    let (m, _) = m.advance(Reply::Done);
    let (m, step) = m.advance(failed("x"));
    assert_eq!(ask(step), Request::Rollback);
    let (_, step) = m.advance(Reply::Done);
    assert_eq!(finish(step), Err(AppError::Internal("查询目标用户是否存在失败: x".to_string())));

    let (m, _) = DeleteAdmin::start(1, 2);
    let (m, _) = m.advance(Reply::Roles(names(&["super_admin"])));
    let (m, _) = m.advance(Reply::Done);
    let (m, _) = m.advance(Reply::Exists(true));
    let (m, step) = m.advance(failed("x"));
    assert_eq!(ask(step), Request::Rollback);
    let (_, step) = m.advance(Reply::Done);
    assert_eq!(finish(step), Err(AppError::Internal("删除用户角色关联失败: x".to_string())));

    let (m, _) = DeleteAdmin::start(1, 2);
    let (m, _) = m.advance(Reply::Roles(names(&["super_admin"])));
    let (m, _) = m.advance(Reply::Done);
    let (m, _) = m.advance(Reply::Exists(true));
    let (m, _) = m.advance(Reply::Done);
    let (m, step) = m.advance(failed("x"));
    assert_eq!(ask(step), Request::Rollback);
    let (_, step) = m.advance(Reply::Done);
    assert_eq!(finish(step), Err(AppError::Internal("删除用户失败: x".to_string())));
}

#[test]
fn freeze_writes_only_on_a_set_flag() {
    let (m, first) = FreezeAdmin::start(1, 2);
    assert_eq!(first, Request::RolesOf { admin_id: 1 });
    let (m, _) = m.advance(Reply::Roles(names(&["super_admin"])));
    let (m, step) = m.advance(Reply::Done);
    assert_eq!(ask(step), Request::Status { admin_id: 2 });
    let (m, step) = m.advance(Reply::Status(Some(true)));
    assert_eq!(ask(step), Request::Deactivate { admin_id: 2 });
    let (m, step) = m.advance(Reply::Done);
    assert_eq!(ask(step), Request::Commit);
    let (_, step) = m.advance(Reply::Done);
    assert_eq!(finish(step), Ok(()));

    for flag in [Some(false), None] {
        let (m, _) = FreezeAdmin::start(1, 2);
        let (m, _) = m.advance(Reply::Roles(names(&["super_admin"])));
        let (m, _) = m.advance(Reply::Done);
        let (m, step) = m.advance(Reply::Status(flag));
        assert_eq!(ask(step), Request::Rollback);
        let (_, step) = m.advance(Reply::Done);
        assert_eq!(finish(step), Err(AppError::Public("目标用户已处于冻结状态".to_string())));
    }

    let (m, _) = FreezeAdmin::start(1, 2);
    let (m, _) = m.advance(Reply::Roles(names(&["super_admin"])));
    let (m, _) = m.advance(Reply::Done);
    let (m, _) = m.advance(Reply::Status(Some(true)));
    let (m, step) = m.advance(failed("x"));
    assert_eq!(ask(step), Request::Rollback);
    let (_, step) = m.advance(Reply::Done);
    assert_eq!(finish(step), Err(AppError::Internal("冻结用户失败: x".to_string())));
}

fn row(id: i64, name: &str, flag: Option<bool>) -> AdminRow {
    AdminRow {
        id,
        username: name.to_string(),
        email: format!("{}@x.com", name),
        phone_number: None,
        is_active: flag,
        created_at: Some(7),
    }
}

#[test]
fn list_reads_roles_row_by_row() {
    let (m, first) = ListAdmins::start(1);
    assert_eq!(first, Request::RolesOf { admin_id: 1 });
    let (m, step) = m.advance(Reply::Roles(names(&["super_admin"])));
    assert_eq!(ask(step), Request::ListActive);
    let (m, step) = m.advance(Reply::Admins(vec![row(5, "a", Some(true)), row(9, "b", None)]));
    assert_eq!(ask(step), Request::RolesOf { admin_id: 5 });
    let (m, step) = m.advance(Reply::Roles(names(&["editor"])));
    assert_eq!(ask(step), Request::RolesOf { admin_id: 9 });
    let (_, step) = m.advance(Reply::Roles(names(&[])));
    let listed = finish(step).expect("listed");
    assert_eq!(listed.len(), 2);
    assert_eq!(listed[0], make_entry(&row(5, "a", Some(true)), names(&["editor"])));
    assert_eq!(listed[1].id, 9);
    assert!(!listed[1]._is_active);
    assert_eq!(listed[1]._created_at, Some(7));
    assert_eq!(listed[1]._roles, names(&[]));
}

#[test]
fn list_of_nothing_and_list_failures() {
    let (m, _) = ListAdmins::start(1);
    let (m, _) = m.advance(Reply::Roles(names(&["super_admin"])));
    let (_, step) = m.advance(Reply::Admins(vec![]));
    assert_eq!(finish(step), Ok(vec![]));

    let (m, _) = ListAdmins::start(1);
    let (m, _) = m.advance(Reply::Roles(names(&["super_admin"])));
    let (_, step) = m.advance(failed("x"));
    assert_eq!(finish(step), Err(AppError::Internal("查询管理员用户列表失败: x".to_string())));

    let (m, _) = ListAdmins::start(1);
    let (m, _) = m.advance(Reply::Roles(names(&["super_admin"])));
    let (m, _) = m.advance(Reply::Admins(vec![row(5, "a", Some(true))]));
    let (_, step) = m.advance(failed("x"));
    assert_eq!(finish(step), Err(AppError::Internal("查询用户角色失败: x".to_string())));
}

#[test]
fn login_failures_of_the_store_are_internal() {
    let config = JwtConfig { secret: "s".to_string(), expires_in: 60 };
    let (m, first) = Login::start(config.clone(), "alice".to_string(), "pw".to_string(), 10);
    assert_eq!(first, Request::FindActiveByUsername { username: "alice".to_string() });
    let (_, step) = m.advance(failed("x"));
    assert_eq!(finish(step), Err(AppError::Internal("查询用户失败: x".to_string())));

    let (m, _) = Login::start(config, "alice".to_string(), "pw".to_string(), 10);
    let account = Credentials {
        id: 1,
        username: "alice".to_string(),
        password_hash: "junk".to_string(),
    };
    let (_, step) = m.advance(Reply::Found(Some(account)));
    match finish(step) {
        Err(e) => {
            assert!(!e.is_public());
            assert!(e.log_message().starts_with("密码验证失败: "), "{:?}", e);
            assert_eq!(e.user_message(), "服务器内部错误");
        }
        other => panic!("{:?}", other),
    }
}
