use vstd::prelude::*;

verus! {

use vstd::string::StringExecFns;

/// Relies on `users::get_user_by_uid`, which consults the system user
/// database through `getpwuid_r`: the account of the uid, or nothing when
/// no account matches or the lookup fails. The database is machine state,
/// so nothing is promised of which branch comes back.
#[verifier::external_body]
fn lookup_user_name(uid: u32) -> (r: Option<String>) {
    users::get_user_by_uid(uid).map(|u| u.name().to_string_lossy().to_string())
}

/// The display name for a finished lookup: the account name when the
/// database had one, the placeholder "N/A" when it had none.
pub fn user_or_na(looked_up: Option<String>) -> (r: String)
    ensures
        match looked_up {
            Some(name) => r == name,
            None => r@ == "N/A"@,
        },
{
    match looked_up {
        Some(name) => name,
        None => String::from_str("N/A"),
    }
}

/// The owning user's name for a numeric uid, "N/A" when the system user
/// database offers none. The database is machine state, so which name comes
/// back cannot be pinned here; `user_or_na` carries the verified half.
pub fn get_user(uid: u32) -> (r: String) {
    user_or_na(lookup_user_name(uid))
}

} // verus!
