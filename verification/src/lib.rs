//! Core of a four-level page-table based virtual-memory manager.
//!
//! The crate models physical memory as an explicit arena of page-table
//! frames addressed by physical address, so that the table hierarchy, the
//! walker that descends it, and the address-space operations built on top
//! (`map` / `unmap` at three page granularities, free-region search,
//! activation and translation-cache invalidation) can be reasoned about
//! without a processor. An address space itself is nothing but a root
//! register value: the physical base of its top-level table plus a tag.

pub mod addr;
pub mod cpu;
pub mod error;
pub mod laws;
pub mod memory;
pub mod page_map;
pub mod page_table;
pub mod phys_mem;
pub mod pte;
