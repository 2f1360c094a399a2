use sleepplanet_backend::error::AppError;
use sleepplanet_backend::validation::{
    check_creation, check_creation_given, check_login, refuse_faults, Fault,
};

#[test]
fn login_lengths_count_characters() {
    assert_eq!(check_login("alice", "Secret123"), vec![]);
    assert_eq!(check_login("abcd", "12345678"), vec![]);
    assert_eq!(check_login("abc", "12345678"), vec![Fault::UsernameLength]);
    assert_eq!(check_login(&"a".repeat(20), &"1".repeat(32)), vec![]);
    assert_eq!(check_login(&"a".repeat(21), &"1".repeat(32)), vec![Fault::UsernameLength]);
    assert_eq!(check_login("abcd", "1234567"), vec![Fault::PasswordLength]);
    assert_eq!(check_login("abcd", &"1".repeat(33)), vec![Fault::PasswordLength]);
    assert_eq!(check_login("", ""), vec![Fault::UsernameLength, Fault::PasswordLength]);
    assert_eq!(check_login("管理员甲", "密码密码密码密码"), vec![]);
    assert_eq!(check_login("管理员", "密码密码密码密码"), vec![Fault::UsernameLength]);
}

#[test]
fn creation_rules() {
    assert_eq!(check_creation("bobby", "Passw0rd!", "bob@x.com", None, 1), vec![]);
    assert_eq!(check_creation("bobby", "Passw0rd!", "bob@x.com", Some("13800000000"), 2), vec![]);
    assert_eq!(
        check_creation("bobby", "Passw0rd!", "bob@x.com", Some("1380000000"), 1),
        vec![Fault::PhoneLength]
    );
    assert_eq!(check_creation("bobby", "Passw0rd!", "bob@x.com", None, 0), vec![Fault::NoRole]);
    assert_eq!(
        check_creation("bobby", "Passw0rd!", "", None, 1),
        vec![Fault::EmailEmpty, Fault::EmailFormat]
    );
    assert_eq!(
        check_creation("bob", "pw", "nobody", Some(""), 0),
        vec![
            Fault::UsernameLength,
            Fault::PasswordLength,
            Fault::EmailFormat,
            Fault::PhoneLength,
            Fault::NoRole,
        ]
    );
}

#[test]
fn email_verdict_comes_from_the_validator() {
    for good in ["bob@x.com", "a.b+c@example.org", "x@[127.0.0.1]"] {
        assert_eq!(check_creation("bobby", "Passw0rd!", good, None, 1), vec![], "{}", good);
    }
    for bad in ["bob", "bob@", "@x.com", "bob@x..com", "bob x@x.com", "bob@x.com\n"] {
        assert_eq!(
            check_creation("bobby", "Passw0rd!", bad, None, 1),
            vec![Fault::EmailFormat],
            "{}",
            bad
        );
    }
}

#[test]
fn given_verdict_is_taken_as_it_is() {
    assert_eq!(check_creation_given("bobby", "Passw0rd!", "x", None, 1, true), vec![]);
    assert_eq!(
        check_creation_given("bobby", "Passw0rd!", "bob@x.com", None, 1, false),
        vec![Fault::EmailFormat]
    );
}

#[test]
fn faults_are_told_line_by_line() {
    assert_eq!(refuse_faults("登录验证失败: ", &vec![]), Ok(()));
    assert_eq!(
        refuse_faults("登录验证失败: ", &vec![Fault::UsernameLength]),
        Err(AppError::Public("登录验证失败: username: 用户名长度需4-20位".to_string()))
    );
    assert_eq!(
        refuse_faults("用户创建验证失败: ", &check_creation("bob", "Passw0rd!", "", Some("1"), 0)),
        Err(AppError::Public(
            "用户创建验证失败: username: 用户名长度需4-20位\nemail: 邮箱不能为空, 邮箱格式不正确\nphone_number: 手机号必须为11位数字\nrole_names: 请至少指定一个角色"
                .to_string()
        ))
    );
}

#[test]
fn fields_and_messages() {
    assert_eq!(Fault::UsernameLength.field(), "username");
    assert_eq!(Fault::PasswordLength.field(), "password");
    assert_eq!(Fault::EmailEmpty.field(), "email");
    assert_eq!(Fault::EmailFormat.field(), "email");
    assert_eq!(Fault::PhoneLength.field(), "phone_number");
    assert_eq!(Fault::NoRole.field(), "role_names");
    assert_eq!(Fault::PasswordLength.message(), "密码长度需8-32位");
    assert_eq!(Fault::EmailFormat.message(), "邮箱格式不正确");
}

#[test]
fn faults_of_one_field_share_a_line() {
    assert!(Fault::EmailEmpty.shares_field(&Fault::EmailFormat));
    assert!(Fault::EmailFormat.shares_field(&Fault::EmailEmpty));
    assert!(Fault::NoRole.shares_field(&Fault::NoRole));
    assert!(!Fault::PasswordLength.shares_field(&Fault::PhoneLength));
    assert!(!Fault::UsernameLength.shares_field(&Fault::PasswordLength));
    assert_eq!(
        refuse_faults("x: ", &vec![Fault::EmailEmpty, Fault::EmailFormat]),
        Err(AppError::Public("x: email: 邮箱不能为空, 邮箱格式不正确".to_string()))
    );
    assert_eq!(
        refuse_faults("x: ", &vec![Fault::UsernameLength, Fault::PasswordLength]),
        Err(AppError::Public("x: username: 用户名长度需4-20位\npassword: 密码长度需8-32位".to_string()))
    );
}
