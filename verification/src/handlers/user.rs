//! Requests about user accounts.

use vstd::prelude::*;

verus! {

/// The name under which an account is created: the one that was given, or
/// `Anonymous` where none was.
pub fn user_name(given: Option<String>) -> (name: String)
    ensures
        name@ == match given {
            Some(n) => n@,
            None => "Anonymous"@,
        },
{
    match given {
        Some(n) => n,
        None => "Anonymous".to_owned(),
    }
}

} // verus!
