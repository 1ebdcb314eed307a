use vstd::prelude::*;

verus! {

/// One live process as the telemetry provider reported it.
///
/// `cpu_usage` holds the CPU share in hundredths of a percent, `None` where
/// the provider's reading was not a number; `memory` and the disk figures are
/// in bytes.
pub struct Proc {
    pub name: Option<String>,
    pub cmd: Option<String>,
    pub exe: Option<String>,
    pub pid: u32,
    pub cwd: Option<String>,
    pub memory: u64,
    pub ppid: Option<u32>,
    pub start_time: u64,
    pub run_time: u64,
    pub cpu_usage: Option<u32>,
    pub disk_usage_read: u64,
    pub disk_usage_written: u64,
    pub user: Option<String>,
    pub open_files: Option<usize>,
    pub open_files_limit: Option<usize>,
}

/// The characters of an optional text, an absent one reading as empty.
pub open spec fn text_or_empty(t: Option<String>) -> Seq<char> {
    match t {
        Some(s) => s@,
        None => Seq::empty(),
    }
}

fn clone_text(t: &Option<String>) -> (r: Option<String>)
    ensures
        r == *t,
{
    match t {
        Some(s) => Some(s.clone()),
        None => None,
    }
}

impl Clone for Proc {
    fn clone(&self) -> (r: Self)
        ensures
            r == *self,
    {
        Proc {
            name: clone_text(&self.name),
            cmd: clone_text(&self.cmd),
            exe: clone_text(&self.exe),
            pid: self.pid,
            cwd: clone_text(&self.cwd),
            memory: self.memory,
            ppid: self.ppid,
            start_time: self.start_time,
            run_time: self.run_time,
            cpu_usage: self.cpu_usage,
            disk_usage_read: self.disk_usage_read,
            disk_usage_written: self.disk_usage_written,
            user: clone_text(&self.user),
            open_files: self.open_files,
            open_files_limit: self.open_files_limit,
        }
    }
}

impl Proc {
    /// The process name, or the empty string where the provider gave none.
    pub fn name_or_empty(&self) -> (r: &str)
        ensures
            r@ == text_or_empty(self.name),
    {
        match &self.name {
            Some(s) => s.as_str(),
            None => {
                proof {
                    reveal_strlit("");
                }
                ""
            },
        }
    }

    /// The owning user's name, or the empty string where it is unknown.
    pub fn user_or_empty(&self) -> (r: &str)
        ensures
            r@ == text_or_empty(self.user),
    {
        match &self.user {
            Some(s) => s.as_str(),
            None => {
                proof {
                    reveal_strlit("");
                }
                ""
            },
        }
    }
}

/// Whether some process of `ps` has the given pid.
pub open spec fn has_pid(ps: Seq<Proc>, pid: u32) -> bool {
    exists|i: int| 0 <= i < ps.len() && ps[i].pid == pid
}

/// Looks a process up by pid.
pub fn contains_pid(ps: &Vec<Proc>, pid: u32) -> (r: bool)
    ensures
        r == has_pid(ps@, pid),
{
    let mut i: usize = 0;
    while i < ps.len()
        invariant
            i <= ps@.len(),
            forall|k: int| 0 <= k < i ==> ps@[k].pid != pid,
        decreases ps.len() - i,
    {
        if ps[i].pid == pid {
            return true;
        }
        i = i + 1;
    }
    false
}

} // verus!
