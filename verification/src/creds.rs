//! What the user is told when Tapo credentials are missing or unreadable.
//! The credentials come from TAPO_USER/TAPO_PASS, else from a saved file.

use vstd::prelude::*;

verus! {

/// The answer when no Tapo credentials are set or saved; `path` is where
/// the credentials file is looked for.
pub open spec fn missing_creds_message(path: Seq<char>) -> Seq<char> {
    "No Tapo credentials found.\nSet both TAPO_USER and TAPO_PASS, or run `denki login <email>` to save them.\nFile: "@ + path
}

/// The answer when no Tapo credentials are set or saved.
pub fn missing_creds_context(path: &str) -> (m: String)
    ensures
        m@ == missing_creds_message(path@),
{
    let mut m = String::from_str(
        "No Tapo credentials found.\nSet both TAPO_USER and TAPO_PASS, or run `denki login <email>` to save them.\nFile: ",
    );
    m.append(path);
    m
}

/// The answer when the saved credentials file cannot be read as credentials.
pub open spec fn malformed_creds_message() -> Seq<char> {
    "credentials.json is malformed \u{2014} remove it and run `denki login <email>` again"@
}

/// The answer when the saved credentials file cannot be read as credentials.
pub fn malformed_creds_context() -> (m: &'static str)
    ensures
        m@ == malformed_creds_message(),
{
    "credentials.json is malformed \u{2014} remove it and run `denki login <email>` again"
}

} // verus!
