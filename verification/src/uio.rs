//! Register windows: one device's page of 32-bit control and status
//! registers.

use crate::command::in_window;
use crate::command::Bank;
use crate::command::Command;
use crate::error::Error;
use crate::text::chars_of;
use crate::text::range_equals;
use crate::text::trim;
use crate::text::trim_whole;
use vstd::prelude::*;

verus! {

/// Whether the entry `filename` of the device directory, whose name
/// attribute reads `attr`, is the device with the logical name `name`: the
/// entry is neither `.` nor `..`, and the attribute without the white space
/// around it is the name.
pub open spec fn names_device(name: Seq<char>, filename: Seq<char>, attr: Seq<char>) -> bool {
    &&& filename != seq!['.']
    &&& filename != seq!['.', '.']
    &&& trim(attr) == name
}

/// One entry of the device directory.
#[derive(Debug)]
pub struct DeviceEntry {
    /// The name of the entry, which is the name of the device file.
    pub filename: String,
    /// The content of the entry's name attribute.
    pub attr: String,
}

/// Whether entry `i` of `entries` is the device with the logical name `name`.
pub open spec fn named_at(name: Seq<char>, entries: Seq<DeviceEntry>, i: int) -> bool {
    names_device(name, entries[i].filename@, entries[i].attr@)
}

/// One register window: which device it belongs to and how many bytes of
/// it are mapped.
#[derive(Debug)]
pub struct Uio {
    /// The device whose registers the window shows.
    pub bank: Bank,
    /// The number of bytes that are mapped.
    pub page_size: usize,
}

impl Uio {
    /// The window of `page_size` bytes onto the registers of `bank`.
    pub fn new(bank: Bank, page_size: usize) -> (uio: Uio)
        ensures
            uio == (Uio { bank, page_size }),
    {
        Uio { bank, page_size }
    }

    /// The command that unmaps and closes the window. The description is
    /// used up, so nothing can be asked of the window afterwards.
    pub fn close(self) -> (script: Vec<Command>)
        ensures
            script@ == seq![Command::Unmap { bank: self.bank }],
    {
        vec![Command::Unmap { bank: self.bank }]
    }

    /// Whether the directory entry `filename`, whose name attribute reads
    /// `attr`, is the device that is looked for under `name`.
    fn names(name: &str, filename: &str, attr: &str) -> (found: bool)
        ensures
            found == names_device(name@, filename@, attr@),
    {
        let file = chars_of(filename);
        if file.len() == 1 && file[0] == '.' {
            assert(file@ =~= seq!['.']);
            return false;
        }
        if file.len() == 2 && file[0] == '.' && file[1] == '.' {
            assert(file@ =~= seq!['.', '.']);
            return false;
        }
        assert(file@ != seq!['.']) by {
            if file@ == seq!['.'] {
                assert(file@.len() == 1 && file@[0] == '.');
            }
        }
        assert(file@ != seq!['.', '.']) by {
            if file@ == seq!['.', '.'] {
                assert(file@.len() == 2 && file@[0] == '.' && file@[1] == '.');
            }
        }
        let text = chars_of(attr);
        let wanted = chars_of(name);
        let (lo, hi) = trim_whole(&text);
        range_equals(&text, lo, hi, &wanted)
    }

    /// The device file of the device with the logical name `name`: the
    /// first of `entries` whose name attribute, without the white space
    /// around it, is `name`. Fails where none is.
    pub fn check_uio_num(name: &str, entries: &Vec<DeviceEntry>) -> (r: Result<String, Error>)
        ensures
            (match r {
                Ok(file) => exists|i: int|
                    {
                        &&& 0 <= i < entries.len()
                        &&& #[trigger] named_at(name@, entries@, i)
                        &&& forall|j: int| 0 <= j < i ==> !named_at(name@, entries@, j)
                        &&& file@ == entries[i].filename@
                    },
                Err(e) => {
                    &&& e == Error::DeviceNotFound
                    &&& forall|i: int| 0 <= i < entries.len() ==> !named_at(name@, entries@, i)
                },
            }),
    {
        let mut i: usize = 0;
        while i < entries.len()
            invariant
                i <= entries.len(),
                forall|j: int| 0 <= j < i ==> !named_at(name@, entries@, j),
            decreases entries.len() - i,
        {
            let entry = &entries[i];
            if Uio::names(name, entry.filename.as_str(), entry.attr.as_str()) {
                assert(named_at(name@, entries@, i as int));
                return Ok(entry.filename.clone());
            }
            i = i + 1;
        }
        Err(Error::DeviceNotFound)
    }

    /// The command that stores `val` in the register at byte `addr`, which
    /// must be a multiple of four inside the window.
    pub fn write_mem32(&self, addr: usize, val: u32) -> (script: Vec<Command>)
        requires
            in_window(addr, self.page_size),
        ensures
            script@ == seq![Command::Write { bank: self.bank, offset: addr, value: val }],
    {
        vec![Command::Write { bank: self.bank, offset: addr, value: val }]
    }

    /// The command that reads the register at byte `addr`, which must be a
    /// multiple of four inside the window.
    pub fn read_mem32(&self, addr: usize) -> (script: Vec<Command>)
        requires
            in_window(addr, self.page_size),
        ensures
            script@ == seq![Command::Read { bank: self.bank, offset: addr }],
    {
        vec![Command::Read { bank: self.bank, offset: addr }]
    }
}

} // verus!
