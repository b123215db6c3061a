use vstd::prelude::*;
use vstd::string::*;

verus! {

/// The request handler bound to each connection. The dialogue itself runs in
/// the session, so every request that reaches this handler is answered with
/// the error that closes the connection.
pub struct MailArchiver;

impl MailArchiver {
    pub fn call(&self, request: String) -> (r: Result<String, String>)
        ensures
            r matches Err(e) && e@ == "Client closed"@,
    {
        Err(String::from_str("Client closed"))
    }
}

} // verus!
