//! Live-memory reader.
//!
//! A [`Kvm`] handle stands for an attachment to the running kernel: the
//! global symbol table as a list of [`Symbol`] entries, and the readable
//! span of kernel memory as a base address plus the bytes behind it.  The
//! caller that opens the privileged handle fills both in as plain values;
//! symbol resolution and the bounds-checked byte, half-word and word reads
//! below are verified against them.
//!
//! Word and half-word reads decode in little-endian byte order, the byte
//! order of the device class this display runs on.

use vstd::prelude::*;

use crate::ctf::str_eq;
use crate::Error;

verus! {

/// One entry of the kernel's symbol table.  A type code of zero marks an
/// undefined entry: a name that the table does not really carry.
pub struct Symbol {
    pub name: String,
    pub value: usize,
    pub type_: u16,
}

/// The address of the first symbol at or after `i` named `name`; an entry
/// whose type code is zero reports the name as absent.
pub open spec fn find_symbol_from(symbols: Seq<Symbol>, name: Seq<char>, i: nat) -> Result<
    usize,
    Error,
>
    decreases symbols.len() - i,
{
    if i >= symbols.len() {
        Err(Error::NotFound)
    } else if symbols[i as int].name@ == name {
        if symbols[i as int].type_ == 0 {
            Err(Error::NotFound)
        } else {
            Ok(symbols[i as int].value)
        }
    } else {
        find_symbol_from(symbols, name, i + 1)
    }
}

/// What a symbol lookup returns: the recorded address of the first entry
/// named `name`, the not-found error when no entry matches or the matching
/// entry's type code is zero.
pub open spec fn locate_spec(symbols: Seq<Symbol>, name: Seq<char>) -> Result<usize, Error> {
    find_symbol_from(symbols, name, 0)
}

/// What a byte-range read returns: exactly the `len` bytes at `addr`, or the
/// I/O error when any part of `[addr, addr + len)` lies outside the readable
/// span `[base, base + mem.len())`.
pub open spec fn read_buf_spec(base: usize, mem: Seq<u8>, addr: usize, len: nat) -> Result<
    Seq<u8>,
    Error,
> {
    if base <= addr && addr - base + len <= mem.len() {
        Ok(mem.subrange(addr - base, addr - base + len))
    } else {
        Err(Error::IoError)
    }
}

/// What a machine-word read returns: the word's bytes decoded in
/// little-endian order, or the I/O error of the underlying byte read.
pub open spec fn read_usize_spec(base: usize, mem: Seq<u8>, addr: usize) -> Result<usize, Error> {
    if usize::BITS == 64 {
        match read_buf_spec(base, mem, addr, 8) {
            Ok(b) => Ok(vstd::bytes::spec_u64_from_le_bytes(b) as usize),
            Err(e) => Err(e),
        }
    } else {
        match read_buf_spec(base, mem, addr, 4) {
            Ok(b) => Ok(vstd::bytes::spec_u32_from_le_bytes(b) as usize),
            Err(e) => Err(e),
        }
    }
}

/// What a 16-bit read returns: the two bytes decoded in little-endian
/// order, or the I/O error of the underlying byte read.
pub open spec fn read_u16_spec(base: usize, mem: Seq<u8>, addr: usize) -> Result<u16, Error> {
    match read_buf_spec(base, mem, addr, 2) {
        Ok(b) => Ok(vstd::bytes::spec_u16_from_le_bytes(b)),
        Err(e) => Err(e),
    }
}

/// An open handle onto the running kernel: its symbol table and the
/// readable span of its memory.
pub struct Kvm {
    pub symbols: Vec<Symbol>,
    pub base: usize,
    pub mem: Vec<u8>,
}

impl Kvm {
    /// Attaches to the running kernel, whose symbol table and readable
    /// memory span the caller hands in as plain values.
    pub fn new(symbols: Vec<Symbol>, base: usize, mem: Vec<u8>) -> (k: Kvm)
        ensures
            k.symbols@ == symbols@,
            k.base == base,
            k.mem@ == mem@,
    {
        Kvm { symbols, base, mem }
    }

    /// Resolves one named global symbol to its recorded address.  An absent
    /// name, and an entry whose type code is zero, both report not-found.
    pub fn locate(&self, name: &str) -> (r: Result<usize, Error>)
        ensures
            r == locate_spec(self.symbols@, name@),
    {
        let mut i: usize = 0;
        while i < self.symbols.len()
            invariant
                i <= self.symbols@.len(),
                find_symbol_from(self.symbols@, name@, 0) == find_symbol_from(
                    self.symbols@,
                    name@,
                    i as nat,
                ),
            decreases self.symbols@.len() - i,
        {
            if str_eq(self.symbols[i].name.as_str(), name) {
                if self.symbols[i].type_ == 0 {
                    return Err(Error::NotFound);
                } else {
                    return Ok(self.symbols[i].value);
                }
            }
            proof {
                assert(find_symbol_from(self.symbols@, name@, i as nat) == find_symbol_from(
                    self.symbols@,
                    name@,
                    (i + 1) as nat,
                ));
            }
            i += 1;
        }
        Err(Error::NotFound)
    }

    /// Reads exactly `len` bytes starting at absolute address `addr`.  A
    /// range that leaves the readable span fails with the I/O error, as a
    /// short or failed read would.
    pub fn read_buf(&self, addr: usize, len: usize) -> (r: Result<Vec<u8>, Error>)
        ensures
            match r {
                Ok(v) => read_buf_spec(self.base, self.mem@, addr, len as nat) == Ok::<
                    Seq<u8>,
                    Error,
                >(v@),
                Err(e) => read_buf_spec(self.base, self.mem@, addr, len as nat) == Err::<
                    Seq<u8>,
                    Error,
                >(e),
            },
    {
        if addr < self.base {
            return Err(Error::IoError);
        }
        let off = addr - self.base;
        if off > self.mem.len() || len > self.mem.len() - off {
            return Err(Error::IoError);
        }
        let mut out: Vec<u8> = Vec::new();
        let mut i: usize = 0;
        while i < len
            invariant
                i <= len,
                off + len <= self.mem@.len(),
                self.mem@.len() <= usize::MAX,
                out@ == self.mem@.subrange(off as int, off + i),
            decreases len - i,
        {
            out.push(self.mem[off + i]);
            proof {
                assert(out@ =~= self.mem@.subrange(off as int, off + i + 1));
            }
            i += 1;
        }
        Ok(out)
    }

    /// Reads a machine-word-sized little-endian integer at `addr`.
    pub fn read_usize(&self, addr: usize) -> (r: Result<usize, Error>)
        ensures
            r == read_usize_spec(self.base, self.mem@, addr),
    {
        if usize::BITS == 64 {
            match self.read_buf(addr, 8) {
                Ok(b) => Ok(vstd::bytes::u64_from_le_bytes(b.as_slice()) as usize),
                Err(e) => Err(e),
            }
        } else {
            match self.read_buf(addr, 4) {
                Ok(b) => Ok(vstd::bytes::u32_from_le_bytes(b.as_slice()) as usize),
                Err(e) => Err(e),
            }
        }
    }

    /// Reads a 16-bit little-endian integer at `addr`.
    pub fn read_u16(&self, addr: usize) -> (r: Result<u16, Error>)
        ensures
            r == read_u16_spec(self.base, self.mem@, addr),
    {
        match self.read_buf(addr, 2) {
            Ok(b) => Ok(vstd::bytes::u16_from_le_bytes(b.as_slice())),
            Err(e) => Err(e),
        }
    }
}

} // verus!
