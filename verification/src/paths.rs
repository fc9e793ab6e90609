//! Where a build reads from and writes to.

use vstd::prelude::*;

verus! {

/// The input and the output directory of a build.
pub struct Paths {
    /// The directory that holds the site's sources.
    pub input: String,
    /// The directory that receives the generated site.
    pub output: String,
}

impl Paths {
    /// Two empty paths.
    pub fn new() -> (paths: Paths)
        ensures
            paths.input@ == Seq::<char>::empty(),
            paths.output@ == Seq::<char>::empty(),
    {
        Paths { input: String::new(), output: String::new() }
    }
}

} // verus!
