use vstd::prelude::*;

verus! {

/// A configuration whose every field has a neutral default.
///
/// Paths are held as their text, and the timeout as the whole seconds and
/// the nanoseconds past them of a duration.
#[derive(Debug, PartialEq)]
pub struct MyConfiguration {
    pub output: Option<String>,
    pub search_path: Vec<String>,
    pub timeout_secs: u64,
    pub timeout_subsec_nanos: u32,
    pub check: bool,
}

impl MyConfiguration {
    /// The nanoseconds past the whole seconds make less than a second.
    pub open spec fn wf(&self) -> bool {
        self.timeout_subsec_nanos < 1_000_000_000
    }
}

impl Default for MyConfiguration {
    /// No output, an empty search path, a zero timeout, and no check.
    fn default() -> (conf: Self)
        ensures
            conf.wf(),
            conf.output is None,
            conf.search_path@.len() == 0,
            conf.timeout_secs == 0,
            conf.timeout_subsec_nanos == 0,
            !conf.check,
    {
        MyConfiguration {
            output: None,
            search_path: Vec::new(),
            timeout_secs: 0,
            timeout_subsec_nanos: 0,
            check: false,
        }
    }
}

} // verus!
