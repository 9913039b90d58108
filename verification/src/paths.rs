//! Path text helpers. Reading the environment for the user's desktop
//! location is the surrounding application's business; these functions
//! only assemble path text from the pieces they are handed.

use vstd::prelude::*;
use vstd::string::StringExecFns;

verus! {

/// Path text assembly.
pub struct PathUtils;

impl PathUtils {
    /// The default screenshots directory under the given desktop path.
    pub fn get_default_screenshots_dir(desktop_path: &str) -> (r: String)
        ensures
            r@ == desktop_path@ + "\\screen_shots"@,
    {
        let mut s = String::from_str(desktop_path);
        s.append("\\screen_shots");
        s
    }

    /// `dir` and `name` joined with a single backslash.
    pub fn join(dir: &str, name: &str) -> (r: String)
        ensures
            r@ == dir@ + "\\"@ + name@,
    {
        let mut s = String::from_str(dir);
        s.append("\\");
        s.append(name);
        s
    }
}

} // verus!
