//! What KeyPad needs from the system but the installer cannot supply:
//! the WebView2 Runtime and the ViGEmBus driver. Both are only read; the
//! installer says clearly what is missing and where to get it.
use vstd::prelude::*;
use crate::text::{trimmed, trim, owned};

verus! {

/// Releases of the ViGEmBus driver.
pub const VIGEMBUS_URL: &'static str = "https://github.com/nefarius/ViGEmBus/releases";

/// The version left behind by an uninstalled runtime.
pub const NO_VERSION: &'static str = "0.0.0.0";

/// Is the value `pv` a valid runtime version? An uninstalled runtime
/// sometimes leaves its key with the version "0.0.0.0" — that does not
/// mean installed. White space around does not count.
pub fn webview2_version_ok(pv: Option<&str>) -> (r: bool)
    ensures
        r == match pv {
            Some(v) => trimmed(v@).len() > 0 && trimmed(v@) != NO_VERSION@,
            None => false,
        },
{
    match pv {
        Some(v) => {
            let t = trim(v);
            !t.is_empty() && owned(t) != owned(NO_VERSION)
        },
        None => false,
    }
}

} // verus!
