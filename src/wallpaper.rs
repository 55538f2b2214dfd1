//! Setting the desktop wallpaper, where the platform offers a way.
use vstd::prelude::*;
use crate::error::AppErr;

verus! {

#[verifier::external_type_specification]
#[verifier::external_body]
pub struct ExPath(std::path::Path);

/// Sets the wallpaper to the image at `image_path`. No platform mechanism is
/// built into the library, so this succeeds without changing anything; a
/// platform-specific caller offers its own.
pub fn set_wallpaper(image_path: &std::path::Path) -> (r: Result<(), AppErr>)
    ensures
        r is Ok,
{
    Ok(())
}

} // verus!
