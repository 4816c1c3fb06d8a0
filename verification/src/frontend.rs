//! Configuration shared with the interactive frontends.
//!
//! The frontends themselves (terminal setup, input handling, drawing) live
//! outside the library; only their plain configuration data is modeled
//! here.

use vstd::prelude::*;

verus! {

/// Configuration for an interactive run: where screenshots and saved
/// views are written.
#[derive(Debug, Clone)]
pub struct RunOptions {
    /// The directory that receives generated images and state files.
    pub img_dir: String,
}

impl RunOptions {
    /// Options with the given image directory, defaulting to the current
    /// directory.
    pub fn new(img_dir: Option<String>) -> (r: RunOptions)
        ensures
            r.img_dir@ == match img_dir {
                Some(d) => d@,
                None => "."@,
            },
    {
        match img_dir {
            Some(d) => RunOptions { img_dir: d },
            None => RunOptions { img_dir: ".".to_owned() },
        }
    }
}

/// The error reported when a frontend name on the command line matches no
/// known frontend; carries the offending name.
#[derive(Debug, Clone)]
pub struct FrontendTypeParseError(pub String);

} // verus!
