//! The sign-in screen's decision logic: which credential triples may be
//! submitted, and the screen's user-interface messages.

use vstd::prelude::*;
use vstd::string::StringSliceAdditionalSpecFns;

verus! {

/// Something the user did on the sign-in screen.
#[derive(Debug, Clone, PartialEq, Eq)]
pub enum UiMessage {
    ServerUpdated(String),
    UsernameUpdated(String),
    PasswordUpdated(String),
    SignupInitiated,
    LoginInitiated,
    SignupSucceeded,
    SwitchToLogin,
    SwitchToSignup,
}

/// Whether `Url::parse` accepts the text: a function of the text alone.
pub uninterp spec fn url_ok(s: Seq<char>) -> bool;

/// Relies on the url crate's `Url::parse`: whether the text parses as a URL.
#[verifier::external_body]
fn url_parses(s: &str) -> (r: bool)
    ensures
        r == url_ok(s@),
{
    url::Url::parse(s).is_ok()
}

/// The byte length of a text field, as the machine measures it.
pub open spec fn field_len(s: &str) -> usize {
    s.spec_bytes().len() as usize
}

/// Whether a credential triple may be submitted: the username and the
/// password each hold 1 to 1023 bytes, and the server field parses as a URL.
pub fn validate_credentials(server: &str, username: &str, password: &str) -> (r: bool)
    ensures
        r == (1 <= field_len(username) < 1024 && 1 <= field_len(password) < 1024 && url_ok(
            server@,
        )),
{
    let ul = username.len();
    let pl = password.len();
    1 <= ul && ul < 1024 && 1 <= pl && pl < 1024 && url_parses(server)
}

} // verus!
