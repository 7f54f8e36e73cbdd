//! Commands on the data directory.
use vstd::prelude::*;

use crate::error::AppError;
use crate::text::{chars_of, trim, trim_bounds};

verus! {

/// Check a new data directory path before it is saved.
///
/// Returns `AppError::Settings` if the path is empty or only whitespace.
pub fn check_data_dir_path(path: &str) -> (r: Result<(), AppError>)
    ensures
        trim(path@).len() == 0 <==> r is Err,
        r matches Err(e) ==> (e matches AppError::Settings(m) && m@
            == "data directory path cannot be empty"@),
{
    let v = chars_of(path);
    let (lo, hi) = trim_bounds(&v);
    if lo == hi {
        return Err(AppError::Settings(String::from_str("data directory path cannot be empty")));
    }
    Ok(())
}

} // verus!
