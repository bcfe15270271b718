//! Window management. No platform support is built in: focusing a window reports that
//! no window was focused.
use vstd::prelude::*;

verus! {

/// Tries to focus a window whose title contains `title_contains`; true when one was
/// focused. Without platform support it focuses none.
pub fn focus_window(title_contains: &str) -> (r: Result<bool, String>)
    ensures
        r == Ok::<bool, String>(false),
{
    focus_window_impl(title_contains)
}

fn focus_window_impl(title_contains: &str) -> (r: Result<bool, String>)
    ensures
        r == Ok::<bool, String>(false),
{
    Ok(false)
}

} // verus!
