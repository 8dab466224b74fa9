//! Symbol information and resolvers that map addresses to symbols.

pub mod kernel;
pub mod elf;

use vstd::prelude::*;
use crate::error::PerfError;

pub use kernel::KernelResolver;

verus! {

/// A symbol: its name, where it starts, its size, and where in the
/// source it was defined, when known.
#[derive(Debug, Clone, PartialEq)]
pub struct SymbolInfo {
    pub name: String,
    pub start_addr: u64,
    pub size: u64,
    pub source_file: Option<String>,
    pub line: Option<u32>,
}

/// Whether a symbol covers an address: a sized symbol covers
/// `start..start + size`, a symbol of size zero its start alone.
pub open spec fn symbol_covers(start: u64, size: u64, addr: u64) -> bool {
    if size == 0 {
        addr == start
    } else {
        start <= addr && addr < start + size
    }
}

impl SymbolInfo {
    /// A symbol with no source location.
    pub fn new(name: String, start_addr: u64, size: u64) -> (s: Self)
        ensures
            s.name@ == name@,
            s.start_addr == start_addr,
            s.size == size,
            s.source_file is None,
            s.line is None,
    {
        SymbolInfo { name, start_addr, size, source_file: None, line: None }
    }

    /// The same symbol with a source location.
    pub fn with_source(self, file: String, line: u32) -> (s: Self)
        ensures
            s.name@ == self.name@,
            s.start_addr == self.start_addr,
            s.size == self.size,
            s.source_file matches Some(f) && f@ == file@,
            s.line == Some(line),
    {
        SymbolInfo { source_file: Some(file), line: Some(line), ..self }
    }

    /// Whether the symbol covers `addr`.
    pub fn contains(&self, addr: u64) -> (r: bool)
        ensures
            r == symbol_covers(self.start_addr, self.size, addr),
    {
        if self.size == 0 {
            addr == self.start_addr
        } else {
            addr >= self.start_addr && addr - self.start_addr < self.size
        }
    }
}

/// Something that maps addresses to symbols.
pub trait SymbolResolver {
    /// The symbol for an address, if one is known.
    fn resolve(&self, addr: u64) -> Result<Option<SymbolInfo>, PerfError>;

    /// Forgets every symbol.
    fn clear(&mut self);
}

} // verus!
