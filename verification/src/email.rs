use vstd::prelude::*;
use vstd::string::StringExecFns;

verus! {

/// Whether a text has the shape of an email address. The shape is decided by
/// `validator::validate_email` and depends on the text alone; it is named
/// here rather than restated, and `Email::parse` is its only door.
pub uninterp spec fn is_valid_email(s: Seq<char>) -> bool;

/// Relies on `validator::validate_email` (an HTML5-shaped check of local
/// part, '@' and domain part): a deterministic function of the text alone.
#[verifier::external_body]
fn email_shape_ok(s: &str) -> (r: bool)
    ensures
        r == is_valid_email(s@),
{
    validator::validate_email(s)
}

/// A validated email address, the unique key of an account.
#[derive(Debug)]
pub struct Email(String);

impl View for Email {
    type V = Seq<char>;

    closed spec fn view(&self) -> Seq<char> {
        self.0@
    }
}

impl Clone for Email {
    fn clone(&self) -> (r: Self)
        ensures
            r@ == self@,
    {
        Email(self.0.clone())
    }
}

impl PartialEq for Email {
    fn eq(&self, other: &Self) -> (r: bool) {
        self.0 == other.0
    }
}

impl vstd::std_specs::cmp::PartialEqSpecImpl for Email {
    open spec fn obeys_eq_spec() -> bool {
        true
    }

    open spec fn eq_spec(&self, other: &Self) -> bool {
        self@ == other@
    }
}

impl Email {
    /// Accepts the input only if it has the shape of an email address.
    pub fn parse(s: String) -> (r: Result<Email, String>)
        ensures
            r is Ok <==> is_valid_email(s@),
            r is Ok ==> r->Ok_0@ == s@,
    {
        if email_shape_ok(s.as_str()) {
            Ok(Email(s))
        } else {
            Err(String::from_str("not a valid email address"))
        }
    }

    pub fn as_str(&self) -> (r: &str)
        ensures
            r@ == self@,
    {
        self.0.as_str()
    }
}

} // verus!
