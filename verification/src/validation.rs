//! The rules that a login request and a creation request are held to
//! before anything else is done.

use vstd::prelude::*;
use vstd::string::{StrSliceExecFns, StringExecFns};
use validator::ValidateEmail;
use crate::error::{AppError, AppErrorView};

verus! {

/// What a request breaks.
#[derive(Debug, Clone, Copy, PartialEq, Eq, Structural)]
pub enum Fault {
    /// The username does not have 4 to 20 characters.
    UsernameLength,
    /// The password does not have 8 to 32 characters.
    PasswordLength,
    /// The email is empty.
    EmailEmpty,
    /// The email is no email address.
    EmailFormat,
    /// The phone number does not have 11 characters.
    PhoneLength,
    /// No role is named.
    NoRole,
}

/// The name of the field that the fault lies in.
pub open spec fn fault_field(fault: Fault) -> Seq<char> {
    match fault {
        Fault::UsernameLength => "username"@,
        Fault::PasswordLength => "password"@,
        Fault::EmailEmpty => "email"@,
        Fault::EmailFormat => "email"@,
        Fault::PhoneLength => "phone_number"@,
        Fault::NoRole => "role_names"@,
    }
}

/// What the caller is told of the fault.
pub open spec fn fault_message(fault: Fault) -> Seq<char> {
    match fault {
        Fault::UsernameLength => "用户名长度需4-20位"@,
        Fault::PasswordLength => "密码长度需8-32位"@,
        Fault::EmailEmpty => "邮箱不能为空"@,
        Fault::EmailFormat => "邮箱格式不正确"@,
        Fault::PhoneLength => "手机号必须为11位数字"@,
        Fault::NoRole => "请至少指定一个角色"@,
    }
}

impl Fault {
    /// The name of the field that the fault lies in.
    pub fn field(&self) -> (r: &'static str)
        ensures
            r@ == fault_field(*self),
    {
        match self {
            Fault::UsernameLength => "username",
            Fault::PasswordLength => "password",
            Fault::EmailEmpty => "email",
            Fault::EmailFormat => "email",
            Fault::PhoneLength => "phone_number",
            Fault::NoRole => "role_names",
        }
    }

    /// Whether the two faults lie in one field.
    pub fn shares_field(&self, other: &Fault) -> (r: bool)
        ensures
            r == (fault_field(*self) == fault_field(*other)),
    {
        proof {
            reveal_strlit("username");
            reveal_strlit("password");
            reveal_strlit("email");
            reveal_strlit("phone_number");
            reveal_strlit("role_names");
            assert("username"@[0] == 'u' && "password"@[0] == 'p' && "email"@[0] == 'e');
            assert("phone_number"@[0] == 'p' && "role_names"@[0] == 'r');
            assert("password"@.len() == 8 && "phone_number"@.len() == 12);
        }
        match (self, other) {
            (Fault::UsernameLength, Fault::UsernameLength) => true,
            (Fault::PasswordLength, Fault::PasswordLength) => true,
            (Fault::EmailEmpty, Fault::EmailEmpty) => true,
            (Fault::EmailEmpty, Fault::EmailFormat) => true,
            (Fault::EmailFormat, Fault::EmailEmpty) => true,
            (Fault::EmailFormat, Fault::EmailFormat) => true,
            (Fault::PhoneLength, Fault::PhoneLength) => true,
            (Fault::NoRole, Fault::NoRole) => true,
            _ => false,
        }
    }

    /// What the caller is told of the fault.
    pub fn message(&self) -> (r: &'static str)
        ensures
            r@ == fault_message(*self),
    {
        match self {
            Fault::UsernameLength => "用户名长度需4-20位",
            Fault::PasswordLength => "密码长度需8-32位",
            Fault::EmailEmpty => "邮箱不能为空",
            Fault::EmailFormat => "邮箱格式不正确",
            Fault::PhoneLength => "手机号必须为11位数字",
            Fault::NoRole => "请至少指定一个角色",
        }
    }
}

/// Whether the text is an email address by the HTML5 rules.
pub uninterp spec fn email_accepted(text: Seq<char>) -> bool;

/// `validate_email` of the `validator` crate on the text: the contract
/// names its verdict.
#[verifier::external_body]
fn email_ok(text: &str) -> (r: bool)
    ensures
        r == email_accepted(text@),
{
    text.validate_email()
}

/// The sequence with `fault` at its end where `broken` holds.
pub open spec fn with_fault(faults: Seq<Fault>, broken: bool, fault: Fault) -> Seq<Fault> {
    if broken {
        faults.push(fault)
    } else {
        faults
    }
}

/// The faults of a login request, the username's first: lengths count
/// characters.
pub open spec fn login_faults(username: Seq<char>, password: Seq<char>) -> Seq<Fault> {
    with_fault(
        with_fault(Seq::empty(), !(4 <= username.len() <= 20), Fault::UsernameLength),
        !(8 <= password.len() <= 32),
        Fault::PasswordLength,
    )
}

/// The faults of a creation request in the order of its fields, where
/// `email_is_address` is the verdict on the email.
pub open spec fn creation_faults(
    username: Seq<char>,
    password: Seq<char>,
    email: Seq<char>,
    phone_number: Option<Seq<char>>,
    roles: nat,
    email_is_address: bool,
) -> Seq<Fault> {
    with_fault(
        with_fault(
            with_fault(
                with_fault(login_faults(username, password), email.len() < 1, Fault::EmailEmpty),
                !email_is_address,
                Fault::EmailFormat,
            ),
            phone_number is Some && phone_number->0.len() != 11,
            Fault::PhoneLength,
        ),
        roles < 1,
        Fault::NoRole,
    )
}

/// The faults of a login request.
pub fn check_login(username: &str, password: &str) -> (r: Vec<Fault>)
    ensures
        r@ == login_faults(username@, password@),
{
    let mut faults: Vec<Fault> = Vec::new();
    let n = username.unicode_len();
    if n < 4 || n > 20 {
        faults.push(Fault::UsernameLength);
    }
    let p = password.unicode_len();
    if p < 8 || p > 32 {
        faults.push(Fault::PasswordLength);
    }
    faults
}

/// The faults of a creation request, given the verdict on its email.
pub fn check_creation_given(
    username: &str,
    password: &str,
    email: &str,
    phone_number: Option<&str>,
    roles: usize,
    email_is_address: bool,
) -> (r: Vec<Fault>)
    ensures
        r@ == creation_faults(
            username@,
            password@,
            email@,
            phone_number.deep_view(),
            roles as nat,
            email_is_address,
        ),
{
    let mut faults = check_login(username, password);
    if email.unicode_len() < 1 {
        faults.push(Fault::EmailEmpty);
    }
    if !email_is_address {
        faults.push(Fault::EmailFormat);
    }
    match phone_number {
        Some(p) => {
            if p.unicode_len() != 11 {
                faults.push(Fault::PhoneLength);
            }
        },
        None => {},
    }
    if roles < 1 {
        faults.push(Fault::NoRole);
    }
    faults
}

/// The faults of a creation request.
pub fn check_creation(
    username: &str,
    password: &str,
    email: &str,
    phone_number: Option<&str>,
    roles: usize,
) -> (r: Vec<Fault>)
    ensures
        r@ == creation_faults(
            username@,
            password@,
            email@,
            phone_number.deep_view(),
            roles as nat,
            email_accepted(email@),
        ),
{
    check_creation_given(username, password, email, phone_number, roles, email_ok(email))
}

/// The faults as one text: a line for each field that has a fault, with
/// the field, a colon and the messages of its faults, a comma and a space
/// between two of them. Faults of one field stand side by side.
pub open spec fn fault_lines(faults: Seq<Fault>) -> Seq<char>
    decreases faults.len(),
{
    if faults.len() == 0 {
        Seq::empty()
    } else if faults.len() == 1 {
        fault_field(faults[0]) + ": "@ + fault_message(faults[0])
    } else if fault_field(faults.last()) == fault_field(faults[faults.len() - 2]) {
        fault_lines(faults.drop_last()) + ", "@ + fault_message(faults.last())
    } else {
        fault_lines(faults.drop_last()) + "\n"@ + fault_field(faults.last()) + ": "@
            + fault_message(faults.last())
    }
}

/// The public error that tells the faults under `prefix`, or nothing
/// where there is no fault.
pub fn refuse_faults(prefix: &str, faults: &Vec<Fault>) -> (r: Result<(), AppError>)
    ensures
        match r {
            Ok(_) => faults@.len() == 0,
            Err(e) => faults@.len() > 0 && e@ == AppErrorView::Public(
                prefix@ + fault_lines(faults@),
            ),
        },
{
    if faults.len() == 0 {
        return Ok(());
    }
    let mut lines = String::new();
    let mut i: usize = 0;
    while i < faults.len()
        invariant
            i <= faults.len(),
            lines@ == fault_lines(faults@.take(i as int)),
        decreases faults.len() - i,
    {
        let ghost read = faults@.take(i + 1);
        proof {
            assert(read.drop_last() == faults@.take(i as int));
            assert(read.last() == faults@[i as int]);
            if i > 0 {
                assert(read[read.len() - 2] == faults@[i - 1]);
            }
        }
        if i > 0 && faults[i].shares_field(&faults[i - 1]) {
            lines.append(", ");
            lines.append(faults[i].message());
        } else {
            if i > 0 {
                lines.append("\n");
            }
            lines.append(faults[i].field());
            lines.append(": ");
            lines.append(faults[i].message());
        }
        proof {
            if i == 0 {
                assert(faults@.take(0).len() == 0);
                assert(lines@ =~= fault_field(faults@[0]) + ": "@ + fault_message(faults@[0]));
            }
        }
        i = i + 1;
    }
    proof {
        assert(faults@.take(faults.len() as int) == faults@);
    }
    let text = String::from_str(prefix).concat(lines.as_str());
    Err(AppError::Public(text))
}

} // verus!
