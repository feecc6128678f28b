//! The DMA engine: the registers of its two channels and the commands that
//! reset it, arm it, start it and wait for it.
//!
//! The pipeline uses the stream-to-memory channel, which stores the stream
//! it receives in the engine's buffer.

use crate::command::in_window;
use crate::command::word_index;
use crate::command::Action;
use crate::command::Bank;
use crate::command::Command;
use crate::command::ReplyView;
use crate::command::Step;
use crate::error::Error;
use crate::session::lemma_react;
use crate::session::lemma_run_ended;
use crate::session::lemma_run_one_more;
use crate::session::Progress;
use crate::session::Wait;
use crate::udma::owner_in;
use crate::udma::Owner;
use crate::udma::Udma;
use crate::uio::Uio;
use vstd::prelude::*;

verus! {

/// The number of bytes that are mapped of the engine's registers.
pub const PAGE_SIZE: usize = 0x1000;

/// Control register of the memory-to-stream channel.
pub const MM2S_DMACR: usize = 0x00;

/// Status register of the memory-to-stream channel.
pub const MM2S_DMASR: usize = 0x04;

/// Source address of the memory-to-stream channel.
pub const MM2S_SA: usize = 0x18;

/// Transfer length of the memory-to-stream channel.
pub const MM2S_LENGTH: usize = 0x28;

/// Control register of the stream-to-memory channel.
pub const S2MM_DMACR: usize = 0x30;

/// Status register of the stream-to-memory channel.
pub const S2MM_DMASR: usize = 0x34;

/// Destination address of the stream-to-memory channel.
pub const S2MM_DA: usize = 0x48;

/// Transfer length of the stream-to-memory channel.
pub const S2MM_LENGTH: usize = 0x58;

/// The bit of a control register that runs the channel.
pub const CR_RUN: u32 = 0x1;

/// The bit of a control register that resets the engine.
pub const CR_RESET: u32 = 0x4;

/// The bit of a status register that reports the channel idle.
pub const SR_IDLE: u32 = 0x2;

/// The DMA engine: its register window and the buffer it stores into.
#[derive(Debug)]
pub struct Adma {
    uio: Uio,
    buf: Udma,
}

impl Adma {
    #[verifier::type_invariant]
    spec fn mapped(&self) -> bool {
        self.uio.page_size == PAGE_SIZE
    }

    /// The device whose registers the engine's window shows.
    pub closed spec fn bank(&self) -> Bank {
        self.uio.bank
    }

    /// The buffer that the engine stores into.
    pub closed spec fn buffer(&self) -> Udma {
        self.buf
    }

    /// The commands of `close`: the buffer goes first, the window after it.
    pub open spec fn close_script(&self) -> Seq<Command> {
        seq![
            Command::Release { slot: self.buffer().slot },
            Command::Unmap { bank: self.bank() },
        ]
    }

    /// The commands of `s2mm_reset`.
    pub open spec fn s2mm_reset_script(&self) -> Seq<Command> {
        seq![
            Command::SetBits { bank: self.bank(), offset: S2MM_DMACR, mask: CR_RESET },
            Command::ClearBits { bank: self.bank(), offset: S2MM_DMACR, mask: CR_RESET },
        ]
    }

    /// The commands of `set_s2mm_addr`.
    pub open spec fn set_s2mm_addr_script(&self) -> Seq<Command> {
        seq![
            Command::Write {
                bank: self.bank(),
                offset: S2MM_DA,
                value: self.buffer().phys_addr,
            },
        ]
    }

    /// The commands of `set_s2mm_length`.
    pub open spec fn set_s2mm_length_script(&self, length: u32) -> Seq<Command> {
        seq![Command::Write { bank: self.bank(), offset: S2MM_LENGTH, value: length }]
    }

    /// The commands of `start`: the buffer goes to the device first, and
    /// only then is the channel set running.
    pub open spec fn start_script(&self) -> Seq<Command> {
        seq![
            Command::Transfer { slot: self.buffer().slot, owner: Owner::Device },
            Command::SetBits { bank: self.bank(), offset: S2MM_DMACR, mask: CR_RUN },
        ]
    }

    /// The commands of `wait_idle`.
    pub open spec fn wait_idle_script(&self) -> Seq<Command> {
        seq![Command::WaitSet { bank: self.bank(), offset: S2MM_DMASR, mask: SR_IDLE }]
    }

    /// Whether a status register that reads `status` reports the channel idle.
    pub open spec fn idle(status: u32) -> bool {
        status & SR_IDLE == SR_IDLE
    }

    /// The engine whose registers are those of `bank` and which stores
    /// into `udmabuf`.
    pub fn new(bank: Bank, udmabuf: Udma) -> (adma: Adma)
        ensures
            adma.bank() == bank,
            adma.buffer() == udmabuf,
    {
        Adma { uio: Uio::new(bank, PAGE_SIZE), buf: udmabuf }
    }

    /// The engine's register window.
    pub fn uio(&self) -> (uio: &Uio)
        ensures
            *uio == (Uio { bank: self.bank(), page_size: PAGE_SIZE }),
    {
        proof {
            use_type_invariant(self);
        }
        &self.uio
    }

    /// The buffer that the engine stores into.
    pub fn buf(&self) -> (buf: &Udma)
        ensures
            *buf == self.buffer(),
    {
        &self.buf
    }

    /// The commands that close the buffer and then the register window.
    /// The engine is used up, so nothing can be asked of it afterwards.
    pub fn close(self) -> (script: Vec<Command>)
        ensures
            script@ == self.close_script(),
    {
        let mut script = self.buf.close();
        let mut rest = self.uio.close();
        script.append(&mut rest);
        assert(script@ =~= self.close_script());
        script
    }

    /// The command that stores `val` in the register at byte `addr`.
    pub fn write_mem32(&self, addr: usize, val: u32) -> (script: Vec<Command>)
        requires
            in_window(addr, PAGE_SIZE),
        ensures
            script@ == seq![Command::Write { bank: self.bank(), offset: addr, value: val }],
    {
        proof {
            use_type_invariant(self);
        }
        self.uio.write_mem32(addr, val)
    }

    /// The command that reads the register at byte `addr`.
    pub fn read_mem32(&self, addr: usize) -> (script: Vec<Command>)
        requires
            in_window(addr, PAGE_SIZE),
        ensures
            script@ == seq![Command::Read { bank: self.bank(), offset: addr }],
    {
        proof {
            use_type_invariant(self);
        }
        self.uio.read_mem32(addr)
    }

    /// The commands that pulse the reset bit through the control register
    /// at `offset`: set it, then clear it.
    fn reset(&self, offset: usize) -> (script: Vec<Command>)
        ensures
            script@ == seq![
                Command::SetBits { bank: self.bank(), offset, mask: CR_RESET },
                Command::ClearBits { bank: self.bank(), offset, mask: CR_RESET },
            ],
    {
        vec![
            Command::SetBits { bank: self.uio.bank, offset, mask: CR_RESET },
            Command::ClearBits { bank: self.uio.bank, offset, mask: CR_RESET },
        ]
    }

    /// The commands that reset the engine through its memory-to-stream channel.
    pub fn mm2s_reset(&self) -> (script: Vec<Command>)
        ensures
            script@ == seq![
                Command::SetBits { bank: self.bank(), offset: MM2S_DMACR, mask: CR_RESET },
                Command::ClearBits { bank: self.bank(), offset: MM2S_DMACR, mask: CR_RESET },
            ],
    {
        self.reset(MM2S_DMACR)
    }

    /// The command that sets the source address of the memory-to-stream channel.
    pub fn set_mm2s_addr(&self, addr: u32) -> (script: Vec<Command>)
        ensures
            script@ == seq![Command::Write { bank: self.bank(), offset: MM2S_SA, value: addr }],
    {
        self.write_mem32(MM2S_SA, addr)
    }

    /// The command that sets the memory-to-stream channel running.
    pub fn mm2s_start(&self) -> (script: Vec<Command>)
        ensures
            script@ == seq![
                Command::SetBits { bank: self.bank(), offset: MM2S_DMACR, mask: CR_RUN },
            ],
    {
        vec![Command::SetBits { bank: self.uio.bank, offset: MM2S_DMACR, mask: CR_RUN }]
    }

    /// The command that sets the transfer length of the memory-to-stream
    /// channel, in bytes.
    pub fn set_mm2s_length(&self, length: u32) -> (script: Vec<Command>)
        ensures
            script@ == seq![
                Command::Write { bank: self.bank(), offset: MM2S_LENGTH, value: length },
            ],
    {
        self.write_mem32(MM2S_LENGTH, length)
    }

    /// The commands that reset the engine through its stream-to-memory channel.
    pub fn s2mm_reset(&self) -> (script: Vec<Command>)
        ensures
            script@ == self.s2mm_reset_script(),
    {
        self.reset(S2MM_DMACR)
    }

    /// The command that sets the destination address of the
    /// stream-to-memory channel to the physical address of the buffer.
    pub fn set_s2mm_addr(&self) -> (script: Vec<Command>)
        ensures
            script@ == self.set_s2mm_addr_script(),
    {
        self.write_mem32(S2MM_DA, self.buf.phys_addr)
    }

    /// The command that sets the stream-to-memory channel running.
    pub fn s2mm_start(&self) -> (script: Vec<Command>)
        ensures
            script@ == seq![
                Command::SetBits { bank: self.bank(), offset: S2MM_DMACR, mask: CR_RUN },
            ],
    {
        vec![Command::SetBits { bank: self.uio.bank, offset: S2MM_DMACR, mask: CR_RUN }]
    }

    /// The command that sets the transfer length of the stream-to-memory
    /// channel, in bytes. With the channel running, this arms the transfer.
    pub fn set_s2mm_length(&self, length: u32) -> (script: Vec<Command>)
        ensures
            script@ == self.set_s2mm_length_script(length),
    {
        self.write_mem32(S2MM_LENGTH, length)
    }

    /// The command that reads the control register of the stream-to-memory channel.
    pub fn read_ctrl(&self) -> (script: Vec<Command>)
        ensures
            script@ == seq![Command::Read { bank: self.bank(), offset: S2MM_DMACR }],
    {
        self.read_mem32(S2MM_DMACR)
    }

    /// The command that reads the status register of the stream-to-memory channel.
    pub fn read_status(&self) -> (script: Vec<Command>)
        ensures
            script@ == seq![Command::Read { bank: self.bank(), offset: S2MM_DMASR }],
    {
        self.read_mem32(S2MM_DMASR)
    }

    /// The command that reads the transfer length of the stream-to-memory channel.
    pub fn read_s2mm_length(&self) -> (script: Vec<Command>)
        ensures
            script@ == seq![Command::Read { bank: self.bank(), offset: S2MM_LENGTH }],
    {
        self.read_mem32(S2MM_LENGTH)
    }

    /// Whether a status register that reads `status` reports the channel idle.
    pub fn is_idle(&self, status: u32) -> (idle: bool)
        ensures
            idle == Adma::idle(status),
    {
        (status & SR_IDLE) == SR_IDLE
    }

    /// The idle bit of a status register that reads `status`.
    pub fn read_idle(&self, status: u32) -> (bit: u32)
        ensures
            bit == status & SR_IDLE,
            (bit == SR_IDLE) == Adma::idle(status),
    {
        status & SR_IDLE
    }

    /// The command that reads the destination address of the
    /// stream-to-memory channel.
    pub fn read_s2mm_addr(&self) -> (script: Vec<Command>)
        ensures
            script@ == seq![Command::Read { bank: self.bank(), offset: S2MM_DA }],
    {
        self.read_mem32(S2MM_DA)
    }

    /// The command that reads the status register of the stream-to-memory
    /// channel until it reports the channel idle.
    pub fn wait_idle(&self) -> (script: Vec<Command>)
        ensures
            script@ == self.wait_idle_script(),
    {
        vec![Command::WaitSet { bank: self.uio.bank, offset: S2MM_DMASR, mask: SR_IDLE }]
    }

    /// The commands that make the engine ready to receive: the buffer is
    /// handed to the device, and after that the channel is set running.
    pub fn start(&self) -> (script: Vec<Command>)
        ensures
            script@ == self.start_script(),
    {
        let mut script = self.buf.change_owner(Owner::Device);
        let mut rest = self.s2mm_start();
        script.append(&mut rest);
        assert(script@ =~= self.start_script());
        script
    }
}

/// Whatever the hardware answers, `start` sets the channel running only
/// after the buffer has gone to the device. The write to the control
/// register is the fourth access and no other: before it the handover was
/// asked for and acknowledged, the owner attribute was read and named the
/// device, and the control register was read; what is written is what was
/// read, with the run bit set.
pub proof fn lemma_start_hands_over_first(
    adma: Adma,
    idle: Progress,
    payload: Seq<u8>,
    replies: Seq<ReplyView>,
)
    requires
        idle.wait == Wait::Idle,
        !idle.closed.buffer(adma.buffer().slot),
    ensures
        ({
            let (begun, first) = idle.begin(adma.start_script(), payload);
            let (state, step) = begun.run(first, replies);
            &&& first == Step::Perform(
                Action::Sync { slot: adma.buffer().slot, owner: Owner::Device },
            )
            &&& match step {
                Step::Perform(Action::WriteReg { bank, index, value }) => {
                    &&& replies.len() == 3
                    &&& replies[0] == ReplyView::Done
                    &&& replies[1] is Text
                    &&& owner_in(replies[1]->Text_0) == Ok::<Owner, Error>(Owner::Device)
                    &&& replies[2] is Word
                    &&& value == replies[2]->Word_0 | CR_RUN
                    &&& bank == adma.bank()
                    &&& index == word_index(S2MM_DMACR)
                    &&& state.owner(adma.buffer().slot) == Owner::Device
                },
                _ => true,
            }
        }),
{
    let (begun, first) = idle.begin(adma.start_script(), payload);
    let n = replies.len() as int;
    assert(replies.take(n) =~= replies);
    assert(replies.take(0) =~= Seq::<ReplyView>::empty());
    let after0 = begun.run(first, replies.take(0));
    assert(after0 == (begun, first));
    if n >= 1 {
        lemma_run_one_more(begun, first, replies, 0);
        let after1 = begun.run(first, replies.take(1));
        lemma_react(after0.0, replies[0]);
        if !(after1.1 is Perform) {
            lemma_run_ended(begun, first, replies, 1);
        } else if n >= 2 {
            lemma_run_one_more(begun, first, replies, 1);
            let after2 = begun.run(first, replies.take(2));
            lemma_react(after1.0, replies[1]);
            if !(after2.1 is Perform) {
                lemma_run_ended(begun, first, replies, 2);
            } else if n >= 3 {
                lemma_run_one_more(begun, first, replies, 2);
                let after3 = begun.run(first, replies.take(3));
                lemma_react(after2.0, replies[2]);
                if !(after3.1 is Perform) {
                    lemma_run_ended(begun, first, replies, 3);
                } else if n >= 4 {
                    lemma_run_one_more(begun, first, replies, 3);
                    let after4 = begun.run(first, replies.take(4));
                    lemma_react(after3.0, replies[3]);
                    assert(!(after4.1 is Perform));
                    lemma_run_ended(begun, first, replies, 4);
                }
            }
        }
    }
}

} // verus!
