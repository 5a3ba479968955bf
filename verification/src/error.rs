//! The failures that the engine reports.

use vstd::prelude::*;

verus! {

/// Why a request was refused. Every failure of an allocator aborts the whole
/// request; none leaves a guest partly configured.
#[derive(Clone, Copy, Debug, PartialEq, Eq, Structural)]
pub enum EngineError {
    /// The ledger document cannot be read as a ledger, or an operation would
    /// leave the ledger inconsistent.
    LedgerCorrupt,
    /// The ledger document could not be read from or written to its store.
    LedgerIOError,
    /// More CPU cores were requested than the hypervisor has free.
    InsufficientCpu,
    /// More auxiliary processor cores were requested than are free.
    InsufficientRpu,
    /// No free memory segment has room for the request.
    OutOfMemory,
    /// The hardware-design catalog does not know the requested core type.
    NoCatalogEntry,
    /// No version of the requested accelerator fits the free FPGA regions.
    RegionUnavailable,
    /// Networking was requested and no shared-memory channel slot is free.
    BdfExhausted,
    /// The platform names a template, a preamble or a guest kind that the
    /// descriptor builder does not have.
    DescriptorTemplateMissing,
    /// A table length declared in the descriptor differs from the number of
    /// entries emitted for that table.
    ArrayCountMismatch,
    /// The container to tear down has no record in the ledger.
    UnknownContainer,
}

impl EngineError {
    /// A message for the operator that names the resource class that failed.
    pub fn message(&self) -> (m: &'static str)
        ensures
            m@ == self.message_text(),
    {
        match self {
            EngineError::LedgerCorrupt => "resource ledger: the ledger is corrupt",
            EngineError::LedgerIOError => "resource ledger: the ledger could not be read or written",
            EngineError::InsufficientCpu => "cpu: not enough free CPU left",
            EngineError::InsufficientRpu => "rpu: not enough free RPUs available",
            EngineError::OutOfMemory => "memory: no free segment is large enough",
            EngineError::NoCatalogEntry => "fpga: bitstream not found",
            EngineError::RegionUnavailable => "fpga: region unavailable",
            EngineError::BdfExhausted => "pci: no free shared-memory channel",
            EngineError::DescriptorTemplateMissing => "descriptor: unknown template",
            EngineError::ArrayCountMismatch => "descriptor: table length mismatch",
            EngineError::UnknownContainer => "resource ledger: unknown container",
        }
    }

    /// The text of `message`.
    pub open spec fn message_text(&self) -> Seq<char> {
        match self {
            EngineError::LedgerCorrupt => "resource ledger: the ledger is corrupt"@,
            EngineError::LedgerIOError => "resource ledger: the ledger could not be read or written"@,
            EngineError::InsufficientCpu => "cpu: not enough free CPU left"@,
            EngineError::InsufficientRpu => "rpu: not enough free RPUs available"@,
            EngineError::OutOfMemory => "memory: no free segment is large enough"@,
            EngineError::NoCatalogEntry => "fpga: bitstream not found"@,
            EngineError::RegionUnavailable => "fpga: region unavailable"@,
            EngineError::BdfExhausted => "pci: no free shared-memory channel"@,
            EngineError::DescriptorTemplateMissing => "descriptor: unknown template"@,
            EngineError::ArrayCountMismatch => "descriptor: table length mismatch"@,
            EngineError::UnknownContainer => "resource ledger: unknown container"@,
        }
    }
}

} // verus!
