use vstd::prelude::*;
use vstd::string::StrSliceExecFns;
use vstd::string::StringExecFns;
use crate::strutil::{find_last, find_last_in};
use crate::PullError;

verus! {

/// One step of preparing and entering the isolated root. The driver performs
/// the steps strictly in plan order, stopping at the first failure.
#[derive(Debug, PartialEq, Eq)]
pub enum LaunchStep {
    /// Create `dev` under the destination and an empty `dev/null` in it,
    /// truncating whatever a layer may have put there.
    EnsureDevNull,
    /// Copy the target binary from its host path to the same path relative to
    /// the destination, creating parent directories as needed.
    CopyBinary { rel_path: String },
    /// Pivot the process's filesystem root to the destination.
    Chroot,
    /// Change the working directory to the new root.
    ChdirRoot,
    /// Put every process spawned from now on in a new PID namespace; the
    /// calling process itself stays in its original one.
    UnsharePid,
}

/// The launch plan for a target command: the device placeholder first, then
/// the binary copy, then the re-rooting, in this exact order. A command
/// without an absolute path is refused.
pub fn launch_plan(command: &str) -> (r: Result<Vec<LaunchStep>, PullError>)
    ensures
        match r {
            Ok(v) => {
                &&& command@.len() > 0 && command@[0] == '/'
                &&& v@.len() == 5
                &&& v@[0] is EnsureDevNull
                &&& v@[1] matches LaunchStep::CopyBinary { rel_path } && rel_path@ == command@.skip(
                    1,
                )
                &&& v@[2] is Chroot
                &&& v@[3] is ChdirRoot
                &&& v@[4] is UnsharePid
            },
            Err(e) => {
                &&& command@.len() == 0 || command@[0] != '/'
                &&& e == PullError::FilesystemSetup
            },
        },
{
    let n = command.unicode_len();
    if n == 0 || command.get_char(0) != '/' {
        return Err(PullError::FilesystemSetup);
    }
    let rel = command.substring_char(1, n);
    proof {
        assert(rel@ =~= command@.skip(1));
    }
    let mut v: Vec<LaunchStep> = Vec::new();
    v.push(LaunchStep::EnsureDevNull);
    v.push(LaunchStep::CopyBinary { rel_path: String::from_str(rel) });
    v.push(LaunchStep::Chroot);
    v.push(LaunchStep::ChdirRoot);
    v.push(LaunchStep::UnsharePid);
    Ok(v)
}

/// The directory part of a relative path: everything before the last '/',
/// empty when the path has none.
pub fn parent_dir(path: &str) -> (r: String)
    ensures
        r@ == (match find_last(path@, '/') {
            None => Seq::<char>::empty(),
            Some(i) => path@.take(i),
        }),
{
    match find_last_in(path, '/') {
        None => String::new(),
        Some(i) => {
            let p = path.substring_char(0, i);
            proof {
                assert(p@ =~= path@.take(i as int));
            }
            String::from_str(p)
        },
    }
}

/// The exit code the parent reports: the child's own code where it exited
/// normally, 1 where it was ended by a signal or never exited.
pub fn exit_code_of(code: Option<i32>) -> (r: i32)
    ensures
        r == (match code {
            Some(c) => c,
            None => 1,
        }),
{
    match code {
        Some(c) => c,
        None => 1,
    }
}

} // verus!
