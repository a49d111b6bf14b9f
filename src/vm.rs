//! Parameters of the virtual machines that execute contracts. They travel
//! with a chain specification and take no part in proposer selection.

use vstd::prelude::*;
use pwasm_utils::rules::Set as WasmRuleSet;

verus! {

#[verifier::external_type_specification]
#[verifier::external_body]
pub struct ExWasmRuleSet(pwasm_utils::rules::Set);

/// The machine that runs contract code.
pub enum VirtualMachine {
    Evm(EthereumVirtualMachine),
    Wasm(WasmVirtualMachine),
    Hybrid(HybridVirtualMachine),
}

/// Parameters of the EVM.
pub struct EthereumVirtualMachine {
    pub max_depth: usize,
    pub allow_wasm_calls: bool,
}

/// How a WASM instance allocates memory.
pub enum WasmAllocator {
    /// No allocator: the instance manages its own memory.
    NoAllocator,
    /// An arena allocator, with its size parameter.
    Arena(usize),
}

/// Memory limits of a WASM instance.
pub struct WasmMemory {
    pub allocator: WasmAllocator,
    pub max_total_memory: usize,
    pub stack: usize,
}

/// Storage costs of a WASM instance.
pub struct WasmStorage {
    pub read: usize,
    pub write: usize,
}

/// Parameters of the WASM machine, with the cost table of its instructions.
pub struct WasmVirtualMachine {
    pub cost_table: WasmRuleSet,
    pub memory: WasmMemory,
    pub storage: WasmStorage,
    pub static_charge: usize,
}

/// Parameters of a machine that runs both EVM and WASM code.
pub struct HybridVirtualMachine {
    pub wasm: WasmVirtualMachine,
    pub evm: EthereumVirtualMachine,
}

} // verus!
