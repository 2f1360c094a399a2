use sleepplanet_backend::config::JwtConfig;
use sleepplanet_backend::error::AppError;
use sleepplanet_backend::memory::MemoryStore;
use sleepplanet_backend::model::RoleLink;
use sleepplanet_backend::password::{hash_with_salt, verify_password};
use sleepplanet_backend::protocol::{Reply, Request};
use sleepplanet_backend::service::{
    create_admin_user, delete_admin_user, freeze_admin_user, get_all_admin_users,
    get_role_id_by_name, get_user_by_username, get_user_roles, is_super_admin, login_at,
};
use sleepplanet_backend::token::{validate_at, Claims, TokenError};

const SALT: &str = "c29tZXNhbHRzb21lc2FsdA";

fn config() -> JwtConfig {
    JwtConfig { secret: "top-secret".to_string(), expires_in: 3600 }
}

fn names(list: &[&str]) -> Vec<String> {
    list.iter().map(|n| n.to_string()).collect()
}

fn insert(store: &mut MemoryStore, username: &str, password: &str, email: &str) -> i64 {
    let request = Request::InsertAdmin {
        username: username.to_string(),
        email: email.to_string(),
        password_hash: hash_with_salt(password, SALT).expect("hashed"),
        phone_number: None,
    };
    match store.perform(&request) {
        Reply::AdminId(id) => id,
        other => panic!("no id: {:?}", other),
    }
}

fn assign(store: &mut MemoryStore, admin_id: i64, role_id: i32) {
    let request = Request::AssignRole {
        admin_id,
        role_id,
        username: String::new(),
        role_name: String::new(),
    };
    assert_eq!(store.perform(&request), Reply::Done);
}

/// alice (1) is a super administrator, carol (2) an editor.
fn seeded() -> MemoryStore {
    let mut store = MemoryStore::new(100);
    assert!(store.add_role(1, "super_admin"));
    assert!(store.add_role(2, "editor"));
    assert!(store.add_role(3, "viewer"));
    let alice = insert(&mut store, "alice", "Secret123", "alice@x.com");
    assert_eq!(alice, 1);
    assign(&mut store, alice, 1);
    let carol = insert(&mut store, "carol", "Passw0rd!", "carol@x.com");
    assert_eq!(carol, 2);
    assign(&mut store, carol, 2);
    store
}

fn usernames(store: &mut MemoryStore) -> Vec<String> {
    get_all_admin_users(store, 1).expect("listed").into_iter().map(|u| u.username).collect()
}

#[test]
fn login_of_a_seeded_super_admin() {
    let mut store = seeded();
    let response = login_at(&mut store, &config(), "alice", "Secret123", 1_000).expect("logged in");
    assert_eq!(response.user_id, 1);
    assert_eq!(response.username, "alice");
    assert_eq!(response.exp, 4_600);
    let cookie = response.cookie();
    assert_eq!(cookie.name, "jwt_token");
    assert_eq!(cookie.value, response.token);
    assert_eq!(cookie.path, "/");
    assert!(cookie.http_only);
    let claims = validate_at(&config(), &response.token, 1_001).expect("valid token");
    assert_eq!(
        claims,
        Claims { user_id: 1, username: "alice".to_string(), role: "super_admin".to_string(), exp: 4_600 }
    );
}

#[test]
fn login_with_a_wrong_password_or_an_unknown_name_gets_one_answer() {
    let mut store = seeded();
    let wrong = login_at(&mut store, &config(), "alice", "Secret124", 1_000);
    let unknown = login_at(&mut store, &config(), "nobody", "Secret123", 1_000);
    assert_eq!(wrong, Err(AppError::Public("用户名或密码错误".to_string())));
    assert_eq!(unknown, wrong);
}

#[test]
fn login_is_case_sensitive() {
    let mut store = seeded();
    assert_eq!(
        login_at(&mut store, &config(), "Alice", "Secret123", 1_000),
        Err(AppError::Public("用户名或密码错误".to_string()))
    );
}

#[test]
fn frozen_account_cannot_log_in_with_the_right_password() {
    let mut store = seeded();
    assert_eq!(freeze_admin_user(&mut store, 1, 2), Ok(()));
    assert_eq!(
        login_at(&mut store, &config(), "carol", "Passw0rd!", 1_000),
        Err(AppError::Public("用户名或密码错误".to_string()))
    );
}

#[test]
fn login_with_a_faulty_configuration_is_internal() {
    let mut store = seeded();
    let empty = JwtConfig { secret: String::new(), expires_in: 3600 };
    assert_eq!(
        login_at(&mut store, &empty, "alice", "Secret123", 1_000),
        Err(AppError::Internal("生成令牌失败: JWT secret is empty".to_string()))
    );
}

#[test]
fn login_against_a_stored_text_that_is_no_hash() {
    let mut store = seeded();
    let request = Request::InsertAdmin {
        username: "dave".to_string(),
        email: "dave@x.com".to_string(),
        password_hash: "plain".to_string(),
        phone_number: None,
    };
    assert_eq!(store.perform(&request), Reply::AdminId(3));
    match login_at(&mut store, &config(), "dave", "plain", 1_000) {
        Err(AppError::Internal(m)) => {
            assert!(m.starts_with("密码验证失败: 解析密码哈希失败: "), "{}", m);
            assert_eq!(AppError::Internal(m).user_message(), "服务器内部错误");
        }
        other => panic!("{:?}", other),
    }
}

#[test]
fn create_bob_as_editor() {
    let mut store = seeded();
    let id = create_admin_user(&mut store, 1, "bob", "Passw0rd!", "bob@x.com", None, &names(&["editor"]))
        .expect("created");
    assert_eq!(id, 3);
    let row = store.find_admin(3).expect("row");
    assert_eq!(row.username, "bob");
    assert_eq!(row.email, "bob@x.com");
    assert_eq!(row.phone_number, None);
    assert!(row.is_active);
    assert_eq!(row.created_at, 100);
    assert_ne!(row.password_hash, "Passw0rd!");
    assert_eq!(verify_password("Passw0rd!", &row.password_hash).map_err(|e| e.message), Ok(true));
    assert_eq!(
        store.assignments(),
        vec![
            RoleLink { user_id: 1, role_id: 1 },
            RoleLink { user_id: 2, role_id: 2 },
            RoleLink { user_id: 3, role_id: 2 },
        ]
    );
    assert_eq!(get_user_roles(&mut store, 3), Ok(names(&["editor"])));
    assert_eq!(usernames(&mut store), names(&["alice", "carol", "bob"]));
    let listed = get_all_admin_users(&mut store, 1).expect("listed");
    assert_eq!(listed.iter().filter(|u| u.id == 3).count(), 1);
    assert_eq!(listed.len(), 3);
    assert_eq!(get_user_roles(&mut store, 1), Ok(names(&["super_admin"])));
    assert_eq!(get_user_roles(&mut store, 2), Ok(names(&["editor"])));
    let bob = get_all_admin_users(&mut store, 1).expect("listed").pop().expect("last");
    assert_eq!(bob.id, 3);
    assert_eq!(bob.username, "bob");
    assert_eq!(bob.email, "bob@x.com");
    assert_eq!(bob.phone_number, None);
    assert_eq!(bob._roles, names(&["editor"]));
    assert!(bob._is_active);
    assert_eq!(bob._created_at, Some(100));
}

#[test]
fn create_with_several_roles_assigns_them_in_order() {
    let mut store = seeded();
    let id = create_admin_user(
        &mut store,
        1,
        "bob",
        "Passw0rd!",
        "bob@x.com",
        Some("13800000000"),
        &names(&["viewer", "editor", "super_admin"]),
    )
    .expect("created");
    let links: Vec<RoleLink> =
        store.assignments().into_iter().filter(|l| l.user_id == id).collect();
    assert_eq!(
        links,
        vec![
            RoleLink { user_id: 3, role_id: 3 },
            RoleLink { user_id: 3, role_id: 2 },
            RoleLink { user_id: 3, role_id: 1 },
        ]
    );
    assert_eq!(store.find_admin(3).expect("row").phone_number, Some("13800000000".to_string()));
    assert_eq!(is_super_admin(&mut store, 3), Ok(true));
}

#[test]
fn create_without_roles_creates_the_row_alone() {
    let mut store = seeded();
    let before = store.assignments().len();
    let id = create_admin_user(&mut store, 1, "bob", "Passw0rd!", "bob@x.com", None, &names(&[]))
        .expect("created");
    assert_eq!(id, 3);
    assert_eq!(store.assignments().len(), before);
}

#[test]
fn create_with_a_used_email_names_the_email_and_inserts_nothing() {
    let mut store = seeded();
    let result = create_admin_user(
        &mut store,
        1,
        "bob",
        "Passw0rd!",
        "carol@x.com",
        None,
        &names(&["editor"]),
    );
    assert_eq!(result, Err(AppError::Public("邮箱已存在: carol@x.com".to_string())));
    assert_eq!(store.find_admin(3), None);
    assert_eq!(usernames(&mut store), names(&["alice", "carol"]));
    assert_eq!(store.assignments().len(), 2);
}

#[test]
fn create_with_a_used_username_comes_before_the_email() {
    let mut store = seeded();
    let result = create_admin_user(
        &mut store,
        1,
        "carol",
        "Passw0rd!",
        "carol@x.com",
        None,
        &names(&["editor"]),
    );
    assert_eq!(result, Err(AppError::Public("用户名已存在: carol".to_string())));
}

#[test]
fn create_with_a_used_phone_number() {
    let mut store = seeded();
    create_admin_user(&mut store, 1, "bob", "Passw0rd!", "bob@x.com", Some("13800000000"), &names(&[]))
        .expect("created");
    let result = create_admin_user(
        &mut store,
        1,
        "eve",
        "Passw0rd!",
        "eve@x.com",
        Some("13800000000"),
        &names(&[]),
    );
    assert_eq!(result, Err(AppError::Public("手机号已存在: 13800000000".to_string())));
    assert_eq!(store.find_admin(4), None);
}

#[test]
fn second_create_of_one_username_is_the_conflict() {
    let mut store = seeded();
    let first =
        create_admin_user(&mut store, 1, "bob", "Passw0rd!", "bob@x.com", None, &names(&["editor"]));
    let second =
        create_admin_user(&mut store, 1, "bob", "Other0000", "bob2@x.com", None, &names(&["editor"]));
    assert_eq!(first, Ok(3));
    assert_eq!(second, Err(AppError::Public("用户名已存在: bob".to_string())));
    assert_eq!(usernames(&mut store), names(&["alice", "carol", "bob"]));
}

#[test]
fn create_with_an_unknown_role_rolls_everything_back() {
    let mut store = seeded();
    let result = create_admin_user(
        &mut store,
        1,
        "bob",
        "Passw0rd!",
        "bob@x.com",
        None,
        &names(&["editor", "ghost", "viewer"]),
    );
    assert_eq!(result, Err(AppError::Public("角色不存在: ghost".to_string())));
    assert_eq!(usernames(&mut store), names(&["alice", "carol"]));
    assert_eq!(store.assignments().len(), 2);
    assert_eq!(get_user_by_username(&mut store, "bob"), Ok(None));
    let next = create_admin_user(&mut store, 1, "bob", "Passw0rd!", "bob@x.com", None, &names(&[]));
    assert_eq!(next, Ok(4));
}

#[test]
fn the_store_itself_refuses_a_duplicate() {
    let mut store = seeded();
    let request = Request::InsertAdmin {
        username: "alice".to_string(),
        email: "new@x.com".to_string(),
        password_hash: "h".to_string(),
        phone_number: None,
    };
    assert_eq!(
        store.perform(&request),
        Reply::Failed("duplicate key value violates unique constraint".to_string())
    );
    assert_eq!(store.find_admin(3), None);
}

#[test]
fn non_super_admin_is_refused_everywhere_and_changes_nothing() {
    let mut store = seeded();
    let created =
        create_admin_user(&mut store, 2, "bob", "Passw0rd!", "bob@x.com", None, &names(&["editor"]));
    assert_eq!(
        created,
        Err(AppError::Public("需要super_admin权限才能创建管理员用户".to_string()))
    );
    assert_eq!(
        delete_admin_user(&mut store, 2, 1),
        Err(AppError::Public("需要super_admin权限才能删除管理员用户".to_string()))
    );
    assert_eq!(
        freeze_admin_user(&mut store, 2, 1),
        Err(AppError::Public("需要super_admin权限才能冻结管理员用户".to_string()))
    );
    assert_eq!(
        get_all_admin_users(&mut store, 2),
        Err(AppError::Public("需要super_admin权限才能查看管理员列表".to_string()))
    );
    assert_eq!(
        get_all_admin_users(&mut store, 99),
        Err(AppError::Public("需要super_admin权限才能查看管理员列表".to_string()))
    );
    assert_eq!(usernames(&mut store), names(&["alice", "carol"]));
    assert_eq!(store.assignments().len(), 2);
    let alice = store.find_admin(1).expect("row");
    assert!(alice.is_active);
    assert_eq!(alice.updated_at, 100);
    assert_eq!(store.find_admin(3), None);
}

#[test]
fn privilege_is_read_from_the_store_at_call_time() {
    let mut store = seeded();
    assign(&mut store, 2, 1);
    assert_eq!(is_super_admin(&mut store, 2), Ok(true));
    assert_eq!(freeze_admin_user(&mut store, 2, 1), Ok(()));
    assert_eq!(store.perform(&Request::DeleteAssignments { admin_id: 2 }), Reply::Done);
    assert_eq!(
        freeze_admin_user(&mut store, 2, 1),
        Err(AppError::Public("需要super_admin权限才能冻结管理员用户".to_string()))
    );
}

#[test]
fn delete_removes_the_row_and_its_assignments() {
    let mut store = seeded();
    assign(&mut store, 2, 3);
    assert_eq!(delete_admin_user(&mut store, 1, 2), Ok(()));
    assert_eq!(store.find_admin(2), None);
    assert_eq!(store.assignments(), vec![RoleLink { user_id: 1, role_id: 1 }]);
    assert_eq!(get_user_roles(&mut store, 2), Ok(names(&[])));
    assert_eq!(usernames(&mut store), names(&["alice"]));
    assert_eq!(get_user_by_username(&mut store, "carol"), Ok(None));
}

#[test]
fn delete_of_a_missing_or_frozen_target_is_refused() {
    let mut store = seeded();
    assert_eq!(
        delete_admin_user(&mut store, 1, 99),
        Err(AppError::Public("目标用户不存在或已被删除".to_string()))
    );
    assert_eq!(freeze_admin_user(&mut store, 1, 2), Ok(()));
    assert_eq!(
        delete_admin_user(&mut store, 1, 2),
        Err(AppError::Public("目标用户不存在或已被删除".to_string()))
    );
    assert!(store.find_admin(2).is_some());
    assert_eq!(store.assignments().len(), 2);
}

#[test]
fn deleted_username_can_be_created_again() {
    let mut store = seeded();
    assert_eq!(delete_admin_user(&mut store, 1, 2), Ok(()));
    let id =
        create_admin_user(&mut store, 1, "carol", "Passw0rd!", "carol@x.com", None, &names(&["editor"]));
    assert_eq!(id, Ok(3));
}

#[test]
fn freeze_clears_the_flag_and_renews_the_update_time() {
    let mut store = seeded();
    store.set_time(200);
    assert_eq!(freeze_admin_user(&mut store, 1, 2), Ok(()));
    let carol = store.find_admin(2).expect("row");
    assert!(!carol.is_active);
    assert_eq!(carol.updated_at, 200);
    assert_eq!(carol.created_at, 100);
    assert_eq!(usernames(&mut store), names(&["alice"]));
    assert_eq!(store.assignments().len(), 2);
}

#[test]
fn freeze_of_a_frozen_account_is_the_conflict_and_writes_nothing() {
    let mut store = seeded();
    store.set_time(200);
    assert_eq!(freeze_admin_user(&mut store, 1, 2), Ok(()));
    store.set_time(300);
    assert_eq!(
        freeze_admin_user(&mut store, 1, 2),
        Err(AppError::Public("目标用户已处于冻结状态".to_string()))
    );
    let carol = store.find_admin(2).expect("row");
    assert!(!carol.is_active);
    assert_eq!(carol.updated_at, 200);
}

#[test]
fn freeze_of_a_missing_target_is_internal() {
    let mut store = seeded();
    let result = freeze_admin_user(&mut store, 1, 99);
    assert_eq!(
        result,
        Err(AppError::Internal(
            "查询目标用户状态失败: no rows returned by a query that expected to return at least one row"
                .to_string()
        ))
    );
    assert_eq!(result.expect_err("refused").user_message(), "服务器内部错误");
}

#[test]
fn frozen_username_still_counts_as_taken() {
    let mut store = seeded();
    assert_eq!(freeze_admin_user(&mut store, 1, 2), Ok(()));
    let result =
        create_admin_user(&mut store, 1, "carol", "Passw0rd!", "new@x.com", None, &names(&[]));
    assert_eq!(result, Err(AppError::Public("用户名已存在: carol".to_string())));
}

#[test]
fn list_gives_active_administrators_with_roles() {
    let mut store = seeded();
    assign(&mut store, 2, 3);
    let listed = get_all_admin_users(&mut store, 1).expect("listed");
    assert_eq!(listed.len(), 2);
    assert_eq!(listed[0].id, 1);
    assert_eq!(listed[0].username, "alice");
    assert_eq!(listed[0].email, "alice@x.com");
    assert_eq!(listed[0]._roles, names(&["super_admin"]));
    assert_eq!(listed[1].id, 2);
    assert_eq!(listed[1]._roles, names(&["editor", "viewer"]));
}

#[test]
fn readers_of_the_store() {
    let mut store = seeded();
    let found = get_user_by_username(&mut store, "alice").expect("read").expect("found");
    assert_eq!(found.0, 1);
    assert_eq!(found.1, "alice");
    assert_eq!(verify_password("Secret123", &found.2).map_err(|e| e.message), Ok(true));
    assert_eq!(get_user_by_username(&mut store, "nobody"), Ok(None));
    assert_eq!(get_user_roles(&mut store, 1), Ok(names(&["super_admin"])));
    assert_eq!(get_user_roles(&mut store, 99), Ok(names(&[])));
    assert_eq!(is_super_admin(&mut store, 1), Ok(true));
    assert_eq!(is_super_admin(&mut store, 2), Ok(false));
    assert_eq!(get_role_id_by_name(&mut store, "editor"), Ok(2));
    assert_eq!(
        get_role_id_by_name(&mut store, "ghost"),
        Err(AppError::Public("角色不存在: ghost".to_string()))
    );
}

#[test]
fn roles_are_unique_by_id_and_name() {
    let mut store = MemoryStore::new(0);
    assert!(store.add_role(1, "super_admin"));
    assert!(!store.add_role(1, "other"));
    assert!(!store.add_role(2, "super_admin"));
    assert!(store.add_role(2, "editor"));
}

#[test]
fn transaction_of_the_store_rolls_back_and_commits() {
    let mut store = seeded();
    assert_eq!(store.perform(&Request::Commit), Reply::Failed("no transaction is open".to_string()));
    assert_eq!(store.perform(&Request::Begin), Reply::Done);
    assert_eq!(
        store.perform(&Request::Begin),
        Reply::Failed("a transaction is already open".to_string())
    );
    assert_eq!(
        store.perform(&Request::DeleteAdmin { admin_id: 2 }),
        Reply::Failed("update or delete on table violates foreign key constraint".to_string())
    );
    assert!(store.find_admin(2).is_some());
    assert_eq!(store.perform(&Request::DeleteAssignments { admin_id: 2 }), Reply::Done);
    assert_eq!(store.perform(&Request::DeleteAdmin { admin_id: 2 }), Reply::Done);
    assert_eq!(store.find_admin(2), None);
    assert_eq!(store.perform(&Request::Rollback), Reply::Done);
    assert!(store.find_admin(2).is_some());
    assert_eq!(store.assignments().len(), 2);
    assert_eq!(store.perform(&Request::Begin), Reply::Done);
    assert_eq!(store.perform(&Request::Deactivate { admin_id: 2 }), Reply::Done);
    assert_eq!(store.perform(&Request::Commit), Reply::Done);
    assert!(!store.find_admin(2).expect("row").is_active);
    assert_eq!(store.perform(&Request::Rollback), Reply::Failed("no transaction is open".to_string()));
}

#[test]
fn assignment_needs_a_row() {
    let mut store = seeded();
    let request = Request::AssignRole {
        admin_id: 3,
        role_id: 2,
        username: String::new(),
        role_name: String::new(),
    };
    assert_eq!(
        store.perform(&request),
        Reply::Failed("insert or update on table violates foreign key constraint".to_string())
    );
    assert_eq!(store.assignments().len(), 2);
    let request = Request::AssignRole {
        admin_id: 2,
        role_id: 9,
        username: String::new(),
        role_name: String::new(),
    };
    assert_eq!(
        store.perform(&request),
        Reply::Failed("insert or update on table violates foreign key constraint".to_string())
    );
    assert_eq!(store.assignments().len(), 2);
    let id = create_admin_user(&mut store, 1, "bob", "Passw0rd!", "bob@x.com", None, &names(&["viewer"]));
    assert_eq!(id, Ok(3));
    assert_eq!(get_user_roles(&mut store, 3), Ok(names(&["viewer"])));
}

#[test]
fn deleted_id_is_never_listed_again() {
    let mut store = seeded();
    assert_eq!(delete_admin_user(&mut store, 1, 2), Ok(()));
    let ids = |store: &mut MemoryStore| -> Vec<i64> {
        get_all_admin_users(store, 1).expect("listed").into_iter().map(|u| u.id).collect()
    };
    assert_eq!(ids(&mut store), vec![1]);
    let again =
        create_admin_user(&mut store, 1, "carol", "Passw0rd!", "carol@x.com", None, &names(&["editor"]));
    assert_eq!(again, Ok(3));
    assert_eq!(ids(&mut store), vec![1, 3]);
    assert_eq!(freeze_admin_user(&mut store, 1, 3), Ok(()));
    assert_eq!(ids(&mut store), vec![1]);
    let dave =
        create_admin_user(&mut store, 1, "dave", "Passw0rd!", "dave@x.com", None, &names(&["super_admin"]));
    assert_eq!(dave, Ok(4));
    assert_eq!(ids(&mut store), vec![1, 4]);
    assert_eq!(ids(&mut store).iter().filter(|id| **id == 2).count(), 0);
    assert_eq!(get_all_admin_users(&mut store, 4).expect("listed").len(), 2);
    assert_eq!(store.find_admin(2), None);
    assert_eq!(get_user_roles(&mut store, 2), Ok(names(&[])));
}

#[test]
fn token_of_a_login_stands_for_the_response() {
    let mut store = seeded();
    assign(&mut store, 1, 3);
    let response = login_at(&mut store, &config(), "alice", "Secret123", 5_000).expect("logged in");
    assert_eq!(response.exp, 8_600);
    for now in [0u64, 5_000, 8_599] {
        let claims = validate_at(&config(), &response.token, now).expect("valid token");
        assert_eq!(claims.user_id, response.user_id);
        assert_eq!(claims.username, response.username);
        assert_eq!(claims.role, "super_admin,viewer");
        assert_eq!(claims.roles(), names(&["super_admin", "viewer"]));
        assert_eq!(claims.exp, response.exp);
    }
    assert_eq!(validate_at(&config(), &response.token, 8_600), Err(TokenError::Expired));
    assert_eq!(validate_at(&config(), &response.token, 8_601), Err(TokenError::Expired));
    assert_eq!(store.assignments().len(), 3);
}

#[test]
fn created_administrator_stays_listed_while_others_come_and_go() {
    let mut store = seeded();
    let bob = create_admin_user(&mut store, 1, "bob", "Passw0rd!", "bob@x.com", None, &names(&["editor"]));
    assert_eq!(bob, Ok(3));
    assert_eq!(freeze_admin_user(&mut store, 1, 2), Ok(()));
    let dave =
        create_admin_user(&mut store, 1, "dave", "Passw0rd!", "dave@x.com", Some("13800000000"), &names(&["viewer"]));
    assert_eq!(dave, Ok(4));
    assert_eq!(delete_admin_user(&mut store, 1, 4), Ok(()));
    let listed = get_all_admin_users(&mut store, 1).expect("listed");
    let bobs: Vec<_> = listed.iter().filter(|u| u.id == 3).collect();
    assert_eq!(bobs.len(), 1);
    assert_eq!(bobs[0].username, "bob");
    assert_eq!(bobs[0].email, "bob@x.com");
    assert_eq!(bobs[0].phone_number, None);
    assert!(bobs[0]._is_active);
    assert_eq!(bobs[0]._created_at, Some(100));
    assert_eq!(bobs[0]._roles, names(&["editor"]));
    assert_eq!(listed.len(), 2);
}
