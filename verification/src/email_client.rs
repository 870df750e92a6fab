use vstd::prelude::*;

use crate::email::Email;

verus! {

/// The delivery channel for second-factor codes. Whether a send succeeds is
/// the channel's to decide; the login flow states what holds either way.
pub trait EmailClient: Sized {
    fn send_email(&self, recipient: &Email, subject: &str, content: &str) -> (r: Result<
        (),
        String,
    >);
}

/// A channel that accepts every message and delivers none: for tests and
/// local runs.
pub struct MockEmailClient;

impl EmailClient for MockEmailClient {
    fn send_email(&self, recipient: &Email, subject: &str, content: &str) -> (r: Result<
        (),
        String,
    >)
        ensures
            r is Ok,
    {
        Ok(())
    }
}

} // verus!
