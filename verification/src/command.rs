//! The vocabulary between the control logic and whoever touches the
//! hardware: commands that make up an operation, the single accesses that a
//! command is carried out by, and the replies to those accesses.

use crate::error::Error;
use crate::udma::Owner;
use vstd::prelude::*;

verus! {

/// One of the register windows of the pipeline.
#[derive(Clone, Copy, Debug, PartialEq, Eq, Structural)]
pub enum Bank {
    /// The encoder core, which reports the length it produced.
    Encoder,
    /// The frame-buffer reader, which streams pixels out of memory.
    FrameBuffer,
    /// The DMA engine, which stores the encoded stream in memory.
    Dma,
}

/// One of the DMA buffers of the pipeline.
#[derive(Clone, Copy, Debug, PartialEq, Eq, Structural)]
pub enum Slot {
    /// The buffer that pixels are read from.
    Source,
    /// The buffer that the encoded stream is stored in.
    Destination,
}

/// One step of an operation. Offsets are in bytes from the start of the
/// register window.
#[derive(Clone, Copy, Debug, PartialEq, Eq, Structural)]
pub enum Command {
    /// Store `value` in a register.
    Write { bank: Bank, offset: usize, value: u32 },
    /// Read a register and store what was read with the bits of `mask` set.
    SetBits { bank: Bank, offset: usize, mask: u32 },
    /// Read a register and store what was read with the bits of `mask` cleared.
    ClearBits { bank: Bank, offset: usize, mask: u32 },
    /// Read a register and keep what was read as the session's word.
    Read { bank: Bank, offset: usize },
    /// Read a register again and again until all bits of `mask` are set.
    WaitSet { bank: Bank, offset: usize, mask: u32 },
    /// Hand a buffer to `owner` and check that the handover took effect.
    Transfer { slot: Slot, owner: Owner },
    /// Copy the first `len` bytes of the payload into a buffer that the CPU owns.
    Store { slot: Slot, len: usize },
    /// Take a buffer back for the CPU and copy its first `len` bytes out.
    Load { slot: Slot, len: usize },
    /// As `Load`, for as many bytes as the session's word says, which must
    /// not exceed `capacity`.
    LoadCounted { slot: Slot, capacity: usize },
    /// Write the bytes that were copied out to the output file.
    Persist,
    /// Abandon the script with `error`: a step of the operation that is
    /// known beforehand to fail.
    Abort { error: Error },
    /// Unmap and close a register window.
    Unmap { bank: Bank },
    /// Unmap and close a buffer.
    Release { slot: Slot },
}

/// One access to the hardware. Register indices count 32-bit words from the
/// start of the window.
#[derive(Clone, Copy, Debug, PartialEq, Eq, Structural)]
pub enum Action {
    /// Read a register; answered by `Reply::Word`.
    ReadReg { bank: Bank, index: usize },
    /// Store `value` in a register; answered by `Reply::Done`.
    WriteReg { bank: Bank, index: usize, value: u32 },
    /// Ask for the buffer to be handed to `owner`; answered by `Reply::Done`.
    Sync { slot: Slot, owner: Owner },
    /// Read the attribute that names the buffer's owner; answered by `Reply::Text`.
    ReadOwner { slot: Slot },
    /// Copy the first `len` bytes of the payload into the buffer; answered by `Reply::Done`.
    CopyIn { slot: Slot, len: usize },
    /// Copy the first `len` bytes out of the buffer; answered by `Reply::Bytes`.
    CopyOut { slot: Slot, len: usize },
    /// Write the session's bytes to the output file; answered by `Reply::Done`.
    Persist,
    /// Unmap and close a register window; answered by `Reply::Done`.
    Unmap { bank: Bank },
    /// Unmap and close a buffer; answered by `Reply::Done`.
    Release { slot: Slot },
}

/// What came back from an access.
#[derive(Debug, PartialEq, Eq)]
pub enum Reply {
    /// The access was made and has nothing to report.
    Done,
    /// The value of a register.
    Word(u32),
    /// The content of an attribute.
    Text(String),
    /// Bytes copied out of a buffer.
    Bytes(Vec<u8>),
    /// The operating system failed the access.
    Failed,
}

/// A reply as contracts speak of it.
pub enum ReplyView {
    Done,
    Word(u32),
    Text(Seq<char>),
    Bytes(Seq<u8>),
    Failed,
}

impl View for Reply {
    type V = ReplyView;

    open spec fn view(&self) -> ReplyView {
        match self {
            Reply::Done => ReplyView::Done,
            Reply::Word(w) => ReplyView::Word(*w),
            Reply::Text(t) => ReplyView::Text(t@),
            Reply::Bytes(b) => ReplyView::Bytes(b@),
            Reply::Failed => ReplyView::Failed,
        }
    }
}

/// What a session asks for next.
#[derive(Clone, Copy, Debug, PartialEq, Eq, Structural)]
pub enum Step {
    /// Make this access and come back with its reply.
    Perform(Action),
    /// The operation is complete.
    Done,
    /// The operation was abandoned.
    Failed(Error),
}

/// The word index of a register at byte `offset`.
pub open spec fn word_index(offset: usize) -> usize {
    (offset / 4) as usize
}

/// Whether a register access at byte `offset` is aligned and lies inside a
/// window of `page_size` bytes.
pub open spec fn in_window(offset: usize, page_size: usize) -> bool {
    offset % 4 == 0 && offset + 4 <= page_size
}

/// The window whose registers `command` reads or writes, if it is a
/// command on a register.
pub open spec fn window_of(command: Command) -> Option<Bank> {
    match command {
        Command::Write { bank, offset, value } => Some(bank),
        Command::SetBits { bank, offset, mask } => Some(bank),
        Command::ClearBits { bank, offset, mask } => Some(bank),
        Command::Read { bank, offset } => Some(bank),
        Command::WaitSet { bank, offset, mask } => Some(bank),
        _ => None,
    }
}

/// The buffer whose owner or bytes `command` works on, if it works on one.
pub open spec fn buffer_of(command: Command) -> Option<Slot> {
    match command {
        Command::Transfer { slot, owner } => Some(slot),
        Command::Store { slot, len } => Some(slot),
        Command::Load { slot, len } => Some(slot),
        Command::LoadCounted { slot, capacity } => Some(slot),
        _ => None,
    }
}

/// The byte offset of the register that `command` reads or writes, if it
/// is a command on a register.
pub open spec fn register_offset(command: Command) -> Option<usize> {
    match command {
        Command::Write { bank, offset, value } => Some(offset),
        Command::SetBits { bank, offset, mask } => Some(offset),
        Command::ClearBits { bank, offset, mask } => Some(offset),
        Command::Read { bank, offset } => Some(offset),
        Command::WaitSet { bank, offset, mask } => Some(offset),
        _ => None,
    }
}

/// Whether every register that `script` reads or writes is aligned and
/// lies inside a window of `page_size` bytes.
pub open spec fn script_in_window(script: Seq<Command>, page_size: usize) -> bool {
    forall|i: int|
        0 <= i < script.len() ==> match register_offset(#[trigger] script[i]) {
            Some(offset) => in_window(offset, page_size),
            None => true,
        }
}

} // verus!
