//! DMA buffers: who owns one, what the allocator says of it, and the
//! commands that move bytes and ownership.

use crate::command::Command;
use crate::command::Slot;
use crate::error::Error;
use crate::text::chars_of;
use crate::text::number;
use crate::text::parse_number;
use crate::text::skip_hex_prefix;
use crate::text::strip_hex_prefix;
use crate::text::trim;
use crate::text::trim_whole;
use vstd::prelude::*;

verus! {

/// The side that has a coherent view of a buffer's contents.
#[derive(Clone, Copy, Debug, PartialEq, Eq, Structural)]
pub enum Owner {
    /// The CPU may read and write the buffer.
    Cpu,
    /// A device may read and write the buffer.
    Device,
}

impl Owner {
    /// The number that the allocator reports for this owner.
    pub open spec fn code(self) -> u32 {
        match self {
            Owner::Cpu => 0,
            Owner::Device => 1,
        }
    }

    /// The owner that the allocator reports as `value`, if it is one.
    pub open spec fn of_code(value: u32) -> Option<Owner> {
        if value == 0 {
            Some(Owner::Cpu)
        } else if value == 1 {
            Some(Owner::Device)
        } else {
            None
        }
    }

    /// The owner that the allocator reports as `value`.
    pub fn from(value: u32) -> (owner: Owner)
        requires
            value <= 1,
        ensures
            Some(owner) == Owner::of_code(value),
            owner.code() == value,
    {
        if value == 0 {
            Owner::Cpu
        } else {
            Owner::Device
        }
    }

    /// The owner that the allocator reports as `value`; none for a number
    /// that names no owner.
    pub fn checked_from(value: u32) -> (owner: Option<Owner>)
        ensures
            owner == Owner::of_code(value),
    {
        if value <= 1 {
            Some(Owner::from(value))
        } else {
            None
        }
    }
}

/// The physical address that the allocator's attribute text spells: white
/// space around it and any `0x` in front of it set aside, a hexadecimal
/// number of 32 bits.
pub open spec fn phys_addr_in(attr: Seq<char>) -> Option<nat> {
    number(strip_hex_prefix(trim(attr)), 16, u32::MAX as nat)
}

/// The capacity in bytes that the allocator's attribute text spells: white
/// space around it set aside, a decimal number that fits `usize`.
pub open spec fn size_in(attr: Seq<char>) -> Option<nat> {
    number(trim(attr), 10, usize::MAX as nat)
}

/// The number that the owner attribute's text spells: white space around it
/// set aside, a decimal number of 32 bits.
pub open spec fn owner_code_in(attr: Seq<char>) -> Option<nat> {
    number(trim(attr), 10, u32::MAX as nat)
}

/// What reading the owner attribute's text gives: the owner it names; an
/// I/O error where it is no number; an ownership error where the number
/// names no owner.
pub open spec fn owner_in(attr: Seq<char>) -> Result<Owner, Error> {
    match owner_code_in(attr) {
        None => Err(Error::IoError),
        Some(code) => match Owner::of_code(code as u32) {
            Some(owner) => Ok(owner),
            None => Err(Error::OwnershipError),
        },
    }
}

/// One physically contiguous buffer, as the allocator describes it. The
/// address and the capacity are read once, when the buffer is opened; no
/// operation changes them.
#[derive(Debug)]
pub struct Udma {
    /// The logical name of the buffer.
    pub name: String,
    /// The place of the buffer in the pipeline.
    pub slot: Slot,
    /// The address at which devices see the buffer.
    pub phys_addr: u32,
    /// The capacity of the buffer in bytes.
    pub size: usize,
}

impl Udma {
    /// The commands of `change_owner`.
    pub open spec fn change_owner_script(&self, owner: Owner) -> Seq<Command> {
        seq![Command::Transfer { slot: self.slot, owner }]
    }

    /// The commands of `write_to_buf` for `len` bytes.
    pub open spec fn write_script(&self, len: usize) -> Seq<Command> {
        seq![Command::Store { slot: self.slot, len }]
    }

    /// The commands of `read_from_buf` for `len` bytes.
    pub open spec fn read_script(&self, len: usize) -> Seq<Command> {
        seq![Command::Load { slot: self.slot, len }]
    }

    /// Describes the buffer named `buf_name` from the text of the
    /// allocator's address and size attributes.
    pub fn new(slot: Slot, buf_name: &str, phys_addr_attr: &str, size_attr: &str) -> (r: Result<
        Udma,
        Error,
    >)
        ensures
            (match r {
                Ok(buf) => {
                    &&& buf.name@ == buf_name@
                    &&& buf.slot == slot
                    &&& phys_addr_in(phys_addr_attr@) == Some(buf.phys_addr as nat)
                    &&& size_in(size_attr@) == Some(buf.size as nat)
                },
                Err(e) => {
                    &&& e == Error::IoError
                    &&& (phys_addr_in(phys_addr_attr@) is None || size_in(size_attr@) is None)
                },
            }),
    {
        Udma::open(slot, buf_name, phys_addr_attr, size_attr)
    }

    /// Describes the buffer named `buf_name` from the text of the
    /// allocator's address and size attributes. Fails with an I/O error
    /// where either text does not spell its number.
    pub fn open(slot: Slot, buf_name: &str, phys_addr_attr: &str, size_attr: &str) -> (r: Result<
        Udma,
        Error,
    >)
        ensures
            (match r {
                Ok(buf) => {
                    &&& buf.name@ == buf_name@
                    &&& buf.slot == slot
                    &&& phys_addr_in(phys_addr_attr@) == Some(buf.phys_addr as nat)
                    &&& size_in(size_attr@) == Some(buf.size as nat)
                },
                Err(e) => {
                    &&& e == Error::IoError
                    &&& (phys_addr_in(phys_addr_attr@) is None || size_in(size_attr@) is None)
                },
            }),
    {
        let phys_addr = match Udma::get_phys_addr(phys_addr_attr) {
            Ok(a) => a,
            Err(e) => {
                return Err(e);
            },
        };
        let size = match Udma::get_udma_size(size_attr) {
            Ok(n) => n,
            Err(e) => {
                return Err(e);
            },
        };
        Ok(Udma { name: buf_name.to_owned(), slot, phys_addr, size })
    }

    /// The command that unmaps and closes the buffer. The description is
    /// used up, so nothing can be asked of the buffer afterwards.
    pub fn close(self) -> (script: Vec<Command>)
        ensures
            script@ == seq![Command::Release { slot: self.slot }],
    {
        vec![Command::Release { slot: self.slot }]
    }

    /// The physical address that `attr` spells.
    pub fn get_phys_addr(attr: &str) -> (r: Result<u32, Error>)
        ensures
            (match r {
                Ok(a) => phys_addr_in(attr@) == Some(a as nat),
                Err(e) => e == Error::IoError && phys_addr_in(attr@) is None,
            }),
    {
        let v = chars_of(attr);
        let (lo, hi) = trim_whole(&v);
        let start = skip_hex_prefix(&v, lo, hi);
        match parse_number(&v, start, hi, 16, 0xffff_ffff) {
            Some(n) => Ok(n as u32),
            None => Err(Error::IoError),
        }
    }

    /// The capacity in bytes that `attr` spells.
    pub fn get_udma_size(attr: &str) -> (r: Result<usize, Error>)
        ensures
            (match r {
                Ok(n) => size_in(attr@) == Some(n as nat),
                Err(e) => e == Error::IoError && size_in(attr@) is None,
            }),
    {
        let v = chars_of(attr);
        let (lo, hi) = trim_whole(&v);
        match parse_number(&v, lo, hi, 10, usize::MAX as u64) {
            Some(n) => Ok(n as usize),
            None => Err(Error::IoError),
        }
    }

    /// The owner that the text of the owner attribute names.
    pub fn get_owner(attr: &str) -> (r: Result<Owner, Error>)
        ensures
            r == owner_in(attr@),
    {
        let v = chars_of(attr);
        let (lo, hi) = trim_whole(&v);
        match parse_number(&v, lo, hi, 10, 0xffff_ffff) {
            Some(n) => match Owner::checked_from(n as u32) {
                Some(owner) => Ok(owner),
                None => Err(Error::OwnershipError),
            },
            None => Err(Error::IoError),
        }
    }

    /// The command that hands the buffer to `owner` and checks, by reading
    /// the owner back, that the handover took effect.
    pub fn change_owner(&self, owner: Owner) -> (script: Vec<Command>)
        ensures
            script@ == self.change_owner_script(owner),
    {
        vec![Command::Transfer { slot: self.slot, owner }]
    }

    /// The command that copies `data` into the buffer, which the CPU must
    /// own. Fails where `data` is longer than the buffer.
    pub fn write_to_buf(&self, data: &[u8]) -> (r: Result<Vec<Command>, Error>)
        ensures
            data.len() > self.size ==> r == Err::<Vec<Command>, Error>(Error::SizeExceeded),
            data.len() <= self.size ==> r is Ok && r->Ok_0@ == self.write_script(data.len()),
    {
        let data_len = data.len();
        if data_len > self.size {
            return Err(Error::SizeExceeded);
        }
        Ok(vec![Command::Store { slot: self.slot, len: data_len }])
    }

    /// The command that takes the buffer back for the CPU and copies its
    /// first `len` bytes out. Fails where `len` is more than the buffer holds.
    pub fn read_from_buf(&self, len: usize) -> (r: Result<Vec<Command>, Error>)
        ensures
            len > self.size ==> r == Err::<Vec<Command>, Error>(Error::SizeExceeded),
            len <= self.size ==> r is Ok && r->Ok_0@ == self.read_script(len),
    {
        if len > self.size {
            return Err(Error::SizeExceeded);
        }
        Ok(vec![Command::Load { slot: self.slot, len }])
    }
}

} // verus!
