use vstd::prelude::*;

use crate::email::Email;
use crate::password::Password;

verus! {

/// What an account looks like to the specification: the key, the credential
/// text at rest (a plaintext password in a volatile store, an encoded salted
/// hash in a hashing one) and the second-factor flag.
pub ghost struct UserView {
    pub email: Seq<char>,
    pub credential: Seq<char>,
    pub requires_2fa: bool,
}

/// An account as handed to the credential store on signup.
#[derive(Debug)]
pub struct User {
    pub email: Email,
    pub password: Password,
    pub requires_2fa: bool,
}

impl View for User {
    type V = UserView;

    open spec fn view(&self) -> UserView {
        UserView { email: self.email@, credential: self.password@, requires_2fa: self.requires_2fa }
    }
}

impl Clone for User {
    fn clone(&self) -> (r: Self)
        ensures
            r@ == self@,
    {
        User { email: self.email.clone(), password: self.password.clone(), requires_2fa: self.requires_2fa }
    }
}

impl PartialEq for User {
    fn eq(&self, other: &Self) -> (r: bool) {
        self.email == other.email && self.password == other.password && self.requires_2fa
            == other.requires_2fa
    }
}

impl vstd::std_specs::cmp::PartialEqSpecImpl for User {
    open spec fn obeys_eq_spec() -> bool {
        true
    }

    open spec fn eq_spec(&self, other: &Self) -> bool {
        self@ == other@
    }
}

} // verus!
