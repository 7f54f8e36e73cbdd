//! The greeting command.
use vstd::prelude::*;

use crate::error::{is_internal, AppError};

verus! {

/// Generate a greeting message for the given name.
///
/// Returns `AppError::Internal` if the name is empty.
pub fn greet(name: &str) -> (r: Result<String, AppError>)
    ensures
        name@.len() == 0 ==> (r matches Err(e) && is_internal(e, "Name cannot be empty"@)),
        name@.len() > 0 ==> (r matches Ok(s) && s@ == "Hello, "@ + name@
            + "! You've been greeted from Rust!"@),
{
    if name.unicode_len() == 0 {
        return Err(AppError::Internal(String::from_str("Name cannot be empty")));
    }
    let mut s = String::from_str("Hello, ");
    s.append(name);
    s.append("! You've been greeted from Rust!");
    Ok(s)
}

} // verus!
