//! The service's replies: host identity, and the translation of manager
//! results into what a remote caller is told. A failure never tells the
//! caller which kind of error it was.
use vstd::prelude::*;

use crate::exec::ProcessError;
use crate::res::ResourceError;

verus! {

/// The host's operating system family.
#[derive(Debug, Clone, Copy, PartialEq, Eq, Structural)]
pub enum OperatingSystem {
    UnknownOs,
    Linux,
    Macos,
    Windows,
}

/// The host's processor architecture.
#[derive(Debug, Clone, Copy, PartialEq, Eq, Structural)]
pub enum Architecture {
    UnknownArch,
    X86,
    X8664,
    Arm,
    Arm64,
}

/// The family that a host's operating system name stands for.
pub open spec fn os_of(name: Seq<char>) -> OperatingSystem {
    if name == "linux"@ {
        OperatingSystem::Linux
    } else if name == "macos"@ {
        OperatingSystem::Macos
    } else if name == "windows"@ {
        OperatingSystem::Windows
    } else {
        OperatingSystem::UnknownOs
    }
}

/// The architecture that a host's architecture name stands for.
pub open spec fn arch_of(name: Seq<char>) -> Architecture {
    if name == "x86"@ {
        Architecture::X86
    } else if name == "x86_64"@ {
        Architecture::X8664
    } else if name == "aarch64"@ {
        Architecture::Arm64
    } else if name == "arm"@ {
        Architecture::Arm
    } else {
        Architecture::UnknownArch
    }
}

/// Whether two strings hold the same characters.
pub fn same_text(a: &str, b: &str) -> (r: bool)
    ensures
        r == (a@ == b@),
{
    let n = a.unicode_len();
    if n != b.unicode_len() {
        return false;
    }
    let mut i: usize = 0;
    while i < n
        invariant
            n == a@.len(),
            n == b@.len(),
            i <= n,
            forall|j: int| 0 <= j < i ==> a@[j] == b@[j],
        decreases n - i,
    {
        if a.get_char(i) != b.get_char(i) {
            return false;
        }
        i = i + 1;
    }
    assert(a@ =~= b@);
    true
}

impl OperatingSystem {
    /// The family of the operating system named `name` (`linux`, `macos`,
    /// `windows`; anything else is unknown).
    pub fn from_name(name: &str) -> (r: Self)
        ensures
            r == os_of(name@),
    {
        if same_text(name, "linux") {
            OperatingSystem::Linux
        } else if same_text(name, "macos") {
            OperatingSystem::Macos
        } else if same_text(name, "windows") {
            OperatingSystem::Windows
        } else {
            OperatingSystem::UnknownOs
        }
    }
}

impl Architecture {
    /// The architecture named `name` (`x86`, `x86_64`, `aarch64`, `arm`;
    /// anything else is unknown).
    pub fn from_name(name: &str) -> (r: Self)
        ensures
            r == arch_of(name@),
    {
        if same_text(name, "x86") {
            Architecture::X86
        } else if same_text(name, "x86_64") {
            Architecture::X8664
        } else if same_text(name, "aarch64") {
            Architecture::Arm64
        } else if same_text(name, "arm") {
            Architecture::Arm
        } else {
            Architecture::UnknownArch
        }
    }
}

/// The host's identity.
#[derive(Debug, Clone)]
pub struct SystemInfoResponse {
    pub server_name: String,
    pub os: OperatingSystem,
    pub arch: Architecture,
    pub target_triple: String,
}

/// The identity reply, from the host's name, its operating system and
/// architecture names, and the target triple the agent was built for.
pub fn system_info(server_name: String, os: &str, arch: &str, target_triple: String) -> (r:
    SystemInfoResponse)
    ensures
        r.server_name@ == server_name@,
        r.os == os_of(os@),
        r.arch == arch_of(arch@),
        r.target_triple@ == target_triple@,
{
    SystemInfoResponse {
        server_name,
        os: OperatingSystem::from_name(os),
        arch: Architecture::from_name(arch),
        target_triple,
    }
}

/// A file's path and contents, as sent and as read back.
#[derive(Debug, Clone)]
pub struct Data {
    pub filepath: String,
    pub data: Vec<u8>,
}

/// A request to spawn a process: the binary, its arguments in order, and
/// the environment entries laid over the inherited environment.
#[derive(Debug, Clone)]
pub struct Process {
    pub process: String,
    pub args: Vec<String>,
    pub env: Vec<(String, String)>,
}

/// What a remote caller is told of a failure: only which operation failed.
#[derive(Debug, Clone, Copy, PartialEq, Eq, Structural)]
pub enum RpcFailure {
    WriteFailed,
    ReadFailed,
    ExecuteFailed,
}

impl RpcFailure {
    /// The generic text sent to the caller.
    pub fn message(&self) -> (r: &'static str)
        ensures
            *self == RpcFailure::WriteFailed ==> r@ == "Failed to write file"@,
            *self == RpcFailure::ReadFailed ==> r@ == "Failed to read file"@,
            *self == RpcFailure::ExecuteFailed ==> r@ == "Failed to execute command"@,
    {
        match self {
            RpcFailure::WriteFailed => "Failed to write file",
            RpcFailure::ReadFailed => "Failed to read file",
            RpcFailure::ExecuteFailed => "Failed to execute command",
        }
    }
}

/// The reply to a write: an acknowledgement, or a failure that hides its kind.
pub fn send_data_reply(r: Result<(), ResourceError>) -> (out: Result<(), RpcFailure>)
    ensures
        r is Ok <==> out is Ok,
        r is Err ==> out == Err::<(), RpcFailure>(RpcFailure::WriteFailed),
{
    match r {
        Ok(()) => Ok(()),
        Err(_) => Err(RpcFailure::WriteFailed),
    }
}

/// The reply to a read of `filepath`: the path with the bytes read, or a
/// failure that hides its kind.
pub fn get_data_reply(filepath: String, r: Result<Vec<u8>, ResourceError>) -> (out: Result<
    Data,
    RpcFailure,
>)
    ensures
        r is Ok <==> out is Ok,
        r is Ok ==> out->Ok_0.filepath@ == filepath@ && out->Ok_0.data@ == r->Ok_0@,
        r is Err ==> out == Err::<Data, RpcFailure>(RpcFailure::ReadFailed),
{
    match r {
        Ok(data) => Ok(Data { filepath, data }),
        Err(_) => Err(RpcFailure::ReadFailed),
    }
}

/// The reply to a spawn: the new process's id, or a failure that hides its
/// kind.
pub fn spawn_reply(r: Result<u32, ProcessError>) -> (out: Result<u32, RpcFailure>)
    ensures
        r is Ok <==> out is Ok,
        r is Ok ==> out->Ok_0 == r->Ok_0,
        r is Err ==> out == Err::<u32, RpcFailure>(RpcFailure::ExecuteFailed),
{
    match r {
        Ok(id) => Ok(id),
        Err(_) => Err(RpcFailure::ExecuteFailed),
    }
}

} // verus!
