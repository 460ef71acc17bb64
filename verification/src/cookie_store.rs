use vstd::prelude::*;

use vstd::std_specs::convert::FromSpecImpl;

verus! {

/// The session cookie of the official site.
#[derive(Debug)]
pub struct UserId(pub String);

/// A login name of the official site.
#[derive(Debug)]
pub struct UserName(pub String);

/// A password of the official site.
#[derive(Debug)]
pub struct Password(pub String);

/// Which of the Aime cards registered to an account to log in with.
#[derive(Clone, Copy, Default, PartialEq, Eq, Structural, Debug)]
pub struct AimeIdx(pub u8);

/// What is kept between logins.
#[derive(Debug)]
pub struct CookieStore {
    pub user_id: UserId,
}

/// What a login needs.
#[derive(Debug)]
pub struct Credentials {
    pub user_name: UserName,
    pub password: Password,
    pub aime_idx: Option<AimeIdx>,
}

impl Default for UserId {
    fn default() -> (r: UserId)
        ensures
            r.0@ == Seq::<char>::empty(),
    {
        UserId(String::new())
    }
}

impl Default for CookieStore {
    fn default() -> (r: CookieStore)
        ensures
            r.user_id.0@ == Seq::<char>::empty(),
    {
        CookieStore { user_id: UserId(String::new()) }
    }
}

impl From<String> for UserId {
    fn from(value: String) -> (r: UserId) {
        UserId(value)
    }
}

impl FromSpecImpl<String> for UserId {
    open spec fn obeys_from_spec() -> bool {
        true
    }

    open spec fn from_spec(v: String) -> UserId {
        UserId(v)
    }
}

impl From<String> for UserName {
    fn from(value: String) -> (r: UserName) {
        UserName(value)
    }
}

impl FromSpecImpl<String> for UserName {
    open spec fn obeys_from_spec() -> bool {
        true
    }

    open spec fn from_spec(v: String) -> UserName {
        UserName(v)
    }
}

impl From<String> for Password {
    fn from(value: String) -> (r: Password) {
        Password(value)
    }
}

impl FromSpecImpl<String> for Password {
    open spec fn obeys_from_spec() -> bool {
        true
    }

    open spec fn from_spec(v: String) -> Password {
        Password(v)
    }
}

impl From<u8> for AimeIdx {
    fn from(value: u8) -> (r: AimeIdx) {
        AimeIdx(value)
    }
}

impl FromSpecImpl<u8> for AimeIdx {
    open spec fn obeys_from_spec() -> bool {
        true
    }

    open spec fn from_spec(v: u8) -> AimeIdx {
        AimeIdx(v)
    }
}

impl Credentials {
    pub fn new(user_name: UserName, password: Password, aime_idx: Option<AimeIdx>) -> (r:
        Credentials)
        ensures
            r == (Credentials { user_name, password, aime_idx }),
    {
        Credentials { user_name, password, aime_idx }
    }
}

} // verus!
