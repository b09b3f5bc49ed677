//! Runtime capability model: which execution mode a host supports and how
//! many workers a search may use.  The probing itself (asking a browser or an
//! OS what it offers) is I/O and lives with the caller; this module holds the
//! decisions taken on the probed values.

use vstd::prelude::*;
use vstd::string::StringExecFns;

verus! {

/// The execution mode chosen for a host.
#[derive(Clone, Copy, Debug, PartialEq, Eq, Structural)]
pub enum ExecutionMode {
    /// No WebAssembly: plain JavaScript fallback.
    Javascript,
    /// WebAssembly without threads.
    Wasm,
    /// WebAssembly with threads and shared memory.
    WasmMt,
}

/// A host's WebAssembly capability report.
#[derive(Clone, Copy, Debug, PartialEq, Eq, Structural)]
pub struct WasmCompatibility {
    /// The execution mode to use on this host.
    pub mode: ExecutionMode,
    /// Whether WebAssembly is available.
    pub supports_wasm: bool,
    /// Whether shared memory (a shared array buffer) is available.
    pub supports_shared_memory: bool,
    /// Whether multithreaded WebAssembly is worthwhile and available.
    pub supports_threads: bool,
    /// The number of logical processors reported.
    pub thread_count: u32,
}

/// Whether multithreaded search is supported: WebAssembly and shared memory
/// both present, and more than two logical processors.
pub open spec fn multithreading_supported(
    supports_wasm: bool,
    supports_shared_memory: bool,
    thread_count: u32,
) -> bool {
    supports_wasm && supports_shared_memory && thread_count > 2
}

/// The capability report that follows from the three probed values.
pub open spec fn compatibility_of(
    supports_wasm: bool,
    supports_shared_memory: bool,
    thread_count: u32,
) -> WasmCompatibility {
    if !supports_wasm {
        WasmCompatibility {
            mode: ExecutionMode::Javascript,
            supports_wasm: false,
            supports_shared_memory: false,
            supports_threads: false,
            thread_count: 1,
        }
    } else {
        let threads = multithreading_supported(
            supports_wasm,
            supports_shared_memory,
            thread_count,
        );
        WasmCompatibility {
            mode: if threads {
                ExecutionMode::WasmMt
            } else {
                ExecutionMode::Wasm
            },
            supports_wasm: true,
            supports_shared_memory,
            supports_threads: threads,
            thread_count,
        }
    }
}

impl WasmCompatibility {
    /// The worst-case report: no WebAssembly, one worker.
    pub fn new() -> (c: Self)
        ensures
            c == compatibility_of(false, false, 1),
    {
        WasmCompatibility {
            mode: ExecutionMode::Javascript,
            supports_wasm: false,
            supports_shared_memory: false,
            supports_threads: false,
            thread_count: 1,
        }
    }

    /// The mode's conventional name.
    pub fn mode_label(&self) -> (r: String)
        ensures
            self.mode == ExecutionMode::Javascript ==> r@ == "javascript"@,
            self.mode == ExecutionMode::Wasm ==> r@ == "wasm"@,
            self.mode == ExecutionMode::WasmMt ==> r@ == "wasm-mt"@,
    {
        match self.mode {
            ExecutionMode::Javascript => String::from_str("javascript"),
            ExecutionMode::Wasm => String::from_str("wasm"),
            ExecutionMode::WasmMt => String::from_str("wasm-mt"),
        }
    }
}

/// Builds the capability report from the probed values: whether WebAssembly
/// and shared memory are present, and how many logical processors the host
/// reports.  Without WebAssembly the report is the worst case, whatever the
/// other probes said.
pub fn check_wasm_compatibility(
    supports_wasm: bool,
    supports_shared_memory: bool,
    thread_count: u32,
) -> (c: WasmCompatibility)
    ensures
        c == compatibility_of(supports_wasm, supports_shared_memory, thread_count),
{
    if !supports_wasm {
        return WasmCompatibility::new();
    }
    let threads = check_multithreading_support(
        supports_wasm,
        supports_shared_memory,
        thread_count,
    );
    WasmCompatibility {
        mode: if threads {
            ExecutionMode::WasmMt
        } else {
            ExecutionMode::Wasm
        },
        supports_wasm: true,
        supports_shared_memory,
        supports_threads: threads,
        thread_count,
    }
}

/// Decides whether multithreaded search is supported on the probed values.
pub fn check_multithreading_support(
    supports_wasm: bool,
    supports_shared_memory: bool,
    thread_count: u32,
) -> (r: bool)
    ensures
        r == multithreading_supported(supports_wasm, supports_shared_memory, thread_count),
{
    supports_wasm && supports_shared_memory && thread_count > 2
}

/// The worker count a search should use under a capability report, or with
/// none: without a report, or without thread support, one worker.
pub fn choose_worker_count(capabilities: Option<&WasmCompatibility>) -> (r: u32)
    ensures
        capabilities is None ==> r == 1,
        capabilities matches Some(c) ==> r == (if c.supports_threads && c.thread_count >= 1 {
            c.thread_count
        } else {
            1u32
        }),
{
    match capabilities {
        None => 1,
        Some(c) => {
            if c.supports_threads && c.thread_count >= 1 {
                c.thread_count
            } else {
                1
            }
        },
    }
}

} // verus!
