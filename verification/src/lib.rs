//! Discovery and management of ACPI System Description Tables (SDTs).
//!
//! The crate validates raw firmware tables (length and checksum), copies
//! them out of physical memory across page boundaries, classifies the
//! well-known kinds (FADT, DSDT, SSDT), and keeps them in a store with a
//! signature-keyed index.

pub mod aml;
pub mod command;
pub mod context;
pub mod fadt;
pub mod phys;
pub mod serve;
pub mod sdt;

pub use aml::AmlContainingTable;
pub use command::FileInfo;
pub use command::InodeTy;
pub use command::UserCommand;
pub use context::AcpiContext;
pub use aml::Dsdt;
pub use aml::PossibleAmlTables;
pub use aml::Ssdt;
pub use fadt::Fadt;
pub use fadt::FadtAcpi2Struct;
pub use fadt::FadtStruct;
pub use fadt::GenericAddressStructure;
pub use phys::MemoryImage;
pub use serve::AcpiHandle;
pub use phys::PhysBorrowed;
pub use phys::PhysicalMemory;
pub use phys::TablePhysLoadError;
pub use sdt::InvalidSdtError;
pub use sdt::Sdt;
pub use sdt::SdtHeader;
pub use sdt::SdtSignature;
