use vstd::prelude::*;
use vstd::string::StrSliceExecFns;
use vstd::string::StringExecFns;

verus! {

/// The shape a submitted password must have: at least 8 characters.
pub open spec fn is_valid_password(s: Seq<char>) -> bool {
    s.len() >= 8
}

/// A password as submitted with a request. It is held in this plaintext form
/// only for the duration of the request; a durable store keeps a salted hash.
#[derive(Debug)]
pub struct Password(String);

impl View for Password {
    type V = Seq<char>;

    closed spec fn view(&self) -> Seq<char> {
        self.0@
    }
}

impl Clone for Password {
    fn clone(&self) -> (r: Self)
        ensures
            r@ == self@,
    {
        Password(self.0.clone())
    }
}

impl PartialEq for Password {
    fn eq(&self, other: &Self) -> (r: bool) {
        self.0 == other.0
    }
}

impl vstd::std_specs::cmp::PartialEqSpecImpl for Password {
    open spec fn obeys_eq_spec() -> bool {
        true
    }

    open spec fn eq_spec(&self, other: &Self) -> bool {
        self@ == other@
    }
}

impl Password {
    /// Accepts the submission only if it is long enough to be a password.
    pub fn parse(p: String) -> (r: Result<Password, String>)
        ensures
            r is Ok <==> is_valid_password(p@),
            r is Ok ==> r->Ok_0@ == p@,
    {
        if p.as_str().unicode_len() >= 8 {
            Ok(Password(p))
        } else {
            Err(String::from_str("a password needs at least 8 characters"))
        }
    }

    /// Wraps a credential text already at rest (a salted hash) in the
    /// domain type, as stores that return stored records need.
    pub(crate) fn from_stored(s: String) -> (r: Password)
        ensures
            r@ == s@,
    {
        Password(s)
    }

    pub fn as_str(&self) -> (r: &str)
        ensures
            r@ == self@,
    {
        self.0.as_str()
    }
}

} // verus!
