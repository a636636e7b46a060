//! Where a VM's files lie on its host.

use vstd::prelude::*;

use crate::paths;
use crate::paths::join;
use crate::proto::ids;
use crate::proto::ids::VmId;

verus! {

/// The directory of one VM, `vms/<id>` under the host's state directory.
#[derive(Clone, Debug, PartialEq, Eq)]
pub struct VmDir {
    root: String,
}

impl VmDir {
    /// The directory's path.
    pub closed spec fn path(&self) -> Seq<char> {
        self.root@
    }

    /// The directory of `vm` under the state directory `base`.
    pub fn new(base: &str, vm: VmId) -> (dir: VmDir)
        ensures
            dir.path() == paths::under(
                paths::under(base@, "vms"@),
                ids::hyphenated(vm.bits),
            ),
    {
        VmDir { root: join(&join(base, "vms"), &vm.to_text()) }
    }

    /// The directory's path.
    pub fn root(&self) -> (path: &str)
        ensures
            path@ == self.path(),
    {
        self.root.as_str()
    }

    /// The path of the Firecracker API socket.
    pub fn api_socket(&self) -> (path: String)
        ensures
            path@ == paths::under(self.path(), "api.sock"@),
    {
        join(&self.root, "api.sock")
    }

    /// The path of the log pipe.
    pub fn log_fifo(&self) -> (path: String)
        ensures
            path@ == paths::under(self.path(), "fc.log"@),
    {
        join(&self.root, "fc.log")
    }
}

/// Distinct VMs have distinct directories, under whatever state directory.
pub proof fn law_distinct_vms_distinct_dirs(base: Seq<char>, a: VmId, b: VmId)
    requires
        a != b,
    ensures
        paths::under(paths::under(base, "vms"@), ids::hyphenated(a.bits)) != paths::under(
            paths::under(base, "vms"@),
            ids::hyphenated(b.bits),
        ),
{
    let dir = paths::under(base, "vms"@);
    if paths::under(dir, ids::hyphenated(a.bits)) == paths::under(dir, ids::hyphenated(b.bits)) {
        paths::law_under_is_injective(dir, ids::hyphenated(a.bits), ids::hyphenated(b.bits));
        ids::law_hyphenated_is_injective(a.bits, b.bits);
    }
}

} // verus!
