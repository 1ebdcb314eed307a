use vstd::prelude::*;

verus! {

/// The identity of the host, read once at startup.
pub struct Info {
    pub long_os_version: Option<String>,
    pub kernel_long_version: String,
    pub host_name: Option<String>,
    pub cpu_arch: String,
    pub physical_core_count: Option<usize>,
}

impl Info {
    /// An identity with nothing known yet.
    pub fn unknown() -> (r: Info)
        ensures
            r.long_os_version is None,
            r.kernel_long_version@.len() == 0,
            r.host_name is None,
            r.cpu_arch@.len() == 0,
            r.physical_core_count is None,
    {
        Info {
            long_os_version: None,
            kernel_long_version: String::new(),
            host_name: None,
            cpu_arch: String::new(),
            physical_core_count: None,
        }
    }
}

} // verus!
