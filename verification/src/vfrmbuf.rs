//! The frame-buffer reader: the engine that reads pixels from a buffer and
//! streams them to the encoder. Its geometry registers, its buffer
//! address, and the commands that start and stop it.

use crate::command::in_window;
use crate::command::Bank;
use crate::command::Command;
use crate::error::Error;
use crate::udma::Owner;
use crate::udma::Udma;
use crate::uio::Uio;
use vstd::prelude::*;

verus! {

/// The number of bytes that are mapped of the reader's registers.
pub const PAGE_SIZE: usize = 0x1000;

/// Control register.
pub const FRMBUF_CTRL: usize = 0x0000;

/// Width of a frame in pixels.
pub const FRMBUF_WIDTH: usize = 0x0010;

/// Height of a frame in lines.
pub const FRMBUF_HEIGHT: usize = 0x0018;

/// Distance in bytes from one line to the next.
pub const FRMBUF_STRIDE: usize = 0x0020;

/// Pixel format.
pub const FRMBUF_FORMAT: usize = 0x0028;

/// Physical address of the first plane.
pub const FRMBUF_P1BUFFER: usize = 0x0030;

/// The format code of RGB with eight bits a channel.
pub const FORMAT_RGB8: u32 = 20;

/// The bytes that one pixel takes.
pub const BYTES_PER_PIXEL: usize = 3;

/// The width of the memory bus in bytes: every line starts at a multiple of it.
pub const BUS_BYTES: usize = 8;

/// The distance from one line to the next: the bytes of a line of `width`
/// pixels, rounded up to a whole number of bus words.
pub open spec fn stride_of(width: nat) -> nat {
    (((width * BYTES_PER_PIXEL + BUS_BYTES - 1) / (BUS_BYTES as int)) * BUS_BYTES) as nat
}

/// The stride is the least multiple of the bus width that holds a line.
pub proof fn lemma_stride_is_least_multiple(width: nat)
    ensures
        stride_of(width) % (BUS_BYTES as nat) == 0,
        width * BYTES_PER_PIXEL <= stride_of(width) < width * BYTES_PER_PIXEL + BUS_BYTES,
{
    let line = width * 3;
    assert(((line + 7) / 8) * 8 % 8 == 0 && line <= ((line + 7) / 8) * 8 < line + 8);
}

/// The frame-buffer reader: its register window and the buffer it reads from.
#[derive(Debug)]
pub struct Vfb {
    uio: Uio,
    buf: Udma,
}

impl Vfb {
    #[verifier::type_invariant]
    spec fn mapped(&self) -> bool {
        self.uio.page_size == PAGE_SIZE
    }

    /// The device whose registers the reader's window shows.
    pub closed spec fn bank(&self) -> Bank {
        self.uio.bank
    }

    /// The buffer that the reader reads pixels from.
    pub closed spec fn buffer(&self) -> Udma {
        self.buf
    }

    /// The commands of `close`: the window goes first, the buffer after it.
    pub open spec fn close_script(&self) -> Seq<Command> {
        seq![
            Command::Unmap { bank: self.bank() },
            Command::Release { slot: self.buffer().slot },
        ]
    }

    /// The commands of `set_phys_addr`.
    pub open spec fn set_phys_addr_script(&self) -> Seq<Command> {
        seq![
            Command::Write {
                bank: self.bank(),
                offset: FRMBUF_P1BUFFER,
                value: self.buffer().phys_addr,
            },
        ]
    }

    /// The commands of `set_format`.
    pub open spec fn set_format_script(&self, frame_width: usize, frame_height: usize) -> Seq<
        Command,
    > {
        seq![
            Command::Write { bank: self.bank(), offset: FRMBUF_WIDTH, value: frame_width as u32 },
            Command::Write {
                bank: self.bank(),
                offset: FRMBUF_HEIGHT,
                value: frame_height as u32,
            },
            Command::Write {
                bank: self.bank(),
                offset: FRMBUF_STRIDE,
                value: stride_of(frame_width as nat) as u32,
            },
            Command::Write { bank: self.bank(), offset: FRMBUF_FORMAT, value: FORMAT_RGB8 },
        ]
    }

    /// The commands of `start` for `len` bytes of pixels: the pixels are
    /// copied in while the CPU owns the buffer, the buffer goes to the
    /// device, and only then is the reader started.
    pub open spec fn start_script(&self, len: usize) -> Seq<Command> {
        seq![
            Command::Store { slot: self.buffer().slot, len },
            Command::Transfer { slot: self.buffer().slot, owner: Owner::Device },
            Command::Write { bank: self.bank(), offset: FRMBUF_CTRL, value: 1 },
        ]
    }

    /// The reader whose registers are those of `bank` and which reads
    /// pixels from `udmabuf`.
    pub fn new(bank: Bank, udmabuf: Udma) -> (vfb: Vfb)
        ensures
            vfb.bank() == bank,
            vfb.buffer() == udmabuf,
    {
        Vfb { uio: Uio::new(bank, PAGE_SIZE), buf: udmabuf }
    }

    /// The reader's register window.
    pub fn uio(&self) -> (uio: &Uio)
        ensures
            *uio == (Uio { bank: self.bank(), page_size: PAGE_SIZE }),
    {
        proof {
            use_type_invariant(self);
        }
        &self.uio
    }

    /// The buffer that the reader reads pixels from.
    pub fn buf(&self) -> (buf: &Udma)
        ensures
            *buf == self.buffer(),
    {
        &self.buf
    }

    /// The commands that close the register window and then the buffer.
    /// The reader is used up, so nothing can be asked of it afterwards.
    pub fn close(self) -> (script: Vec<Command>)
        ensures
            script@ == self.close_script(),
    {
        let mut script = self.uio.close();
        let mut rest = self.buf.close();
        script.append(&mut rest);
        assert(script@ =~= self.close_script());
        script
    }

    /// The command that stores `val` in the register at byte `addr`.
    fn write_mem32(&self, addr: usize, val: u32) -> (script: Vec<Command>)
        requires
            in_window(addr, PAGE_SIZE),
        ensures
            script@ == seq![Command::Write { bank: self.bank(), offset: addr, value: val }],
    {
        proof {
            use_type_invariant(self);
        }
        self.uio.write_mem32(addr, val)
    }

    /// The command that reads the register at byte `addr`.
    fn read_mem32(&self, addr: usize) -> (script: Vec<Command>)
        requires
            in_window(addr, PAGE_SIZE),
        ensures
            script@ == seq![Command::Read { bank: self.bank(), offset: addr }],
    {
        proof {
            use_type_invariant(self);
        }
        self.uio.read_mem32(addr)
    }

    /// The command that gives the reader the physical address of the buffer.
    pub fn set_phys_addr(&self) -> (script: Vec<Command>)
        ensures
            script@ == self.set_phys_addr_script(),
    {
        self.write_mem32(FRMBUF_P1BUFFER, self.buf.phys_addr)
    }

    /// The distance in bytes from one line to the next, for lines of
    /// `frame_width` pixels.
    pub fn stride(frame_width: usize) -> (stride: usize)
        requires
            frame_width * BYTES_PER_PIXEL + BUS_BYTES - 1 <= usize::MAX,
        ensures
            stride == stride_of(frame_width as nat),
    {
        ((frame_width * BYTES_PER_PIXEL + BUS_BYTES - 1) / BUS_BYTES) * BUS_BYTES
    }

    /// The commands that set the geometry of a frame: width, height, the
    /// stride that follows from the width, and the pixel format. The
    /// registers hold 32 bits, so the height and the bytes of a line,
    /// rounded up, must fit 32 bits.
    pub fn set_format(&self, frame_width: usize, frame_height: usize) -> (script: Vec<Command>)
        requires
            frame_width * BYTES_PER_PIXEL + BUS_BYTES - 1 <= u32::MAX,
            frame_height <= u32::MAX,
        ensures
            script@ == self.set_format_script(frame_width, frame_height),
    {
        let stride = Vfb::stride(frame_width);
        let mut script = self.write_mem32(FRMBUF_WIDTH, frame_width as u32);
        let mut height = self.write_mem32(FRMBUF_HEIGHT, frame_height as u32);
        script.append(&mut height);
        let mut line = self.write_mem32(FRMBUF_STRIDE, stride as u32);
        script.append(&mut line);
        let mut format = self.write_mem32(FRMBUF_FORMAT, FORMAT_RGB8);
        script.append(&mut format);
        assert(script@ =~= self.set_format_script(frame_width, frame_height));
        script
    }

    /// The command that reads the control register.
    pub fn read_ctrl(&self) -> (script: Vec<Command>)
        ensures
            script@ == seq![Command::Read { bank: self.bank(), offset: FRMBUF_CTRL }],
    {
        self.read_mem32(FRMBUF_CTRL)
    }

    /// The command that reads the width register.
    pub fn read_width(&self) -> (script: Vec<Command>)
        ensures
            script@ == seq![Command::Read { bank: self.bank(), offset: FRMBUF_WIDTH }],
    {
        self.read_mem32(FRMBUF_WIDTH)
    }

    /// The command that reads the height register.
    pub fn read_height(&self) -> (script: Vec<Command>)
        ensures
            script@ == seq![Command::Read { bank: self.bank(), offset: FRMBUF_HEIGHT }],
    {
        self.read_mem32(FRMBUF_HEIGHT)
    }

    /// The command that reads the buffer address register.
    pub fn read_addr(&self) -> (script: Vec<Command>)
        ensures
            script@ == seq![Command::Read { bank: self.bank(), offset: FRMBUF_P1BUFFER }],
    {
        self.read_mem32(FRMBUF_P1BUFFER)
    }

    /// The command that starts the reader.
    pub fn write_start(&self) -> (script: Vec<Command>)
        ensures
            script@ == seq![Command::Write { bank: self.bank(), offset: FRMBUF_CTRL, value: 1 }],
    {
        self.write_mem32(FRMBUF_CTRL, 0x01)
    }

    /// The command that stops the reader.
    pub fn stop(&self) -> (script: Vec<Command>)
        ensures
            script@ == seq![Command::Write { bank: self.bank(), offset: FRMBUF_CTRL, value: 0 }],
    {
        self.write_mem32(FRMBUF_CTRL, 0x00)
    }

    /// The commands that stream the pixels of `img_buffer` to the encoder:
    /// copy them into the buffer, hand the buffer to the device, start the
    /// reader. Fails where the pixels are more than the buffer holds.
    pub fn start(&self, img_buffer: &[u8]) -> (r: Result<Vec<Command>, Error>)
        ensures
            img_buffer.len() > self.buffer().size ==> r == Err::<Vec<Command>, Error>(
                Error::SizeExceeded,
            ),
            img_buffer.len() <= self.buffer().size ==> r is Ok && r->Ok_0@ == self.start_script(
                img_buffer.len(),
            ),
    {
        let mut script = match self.buf.write_to_buf(img_buffer) {
            Ok(s) => s,
            Err(e) => {
                return Err(e);
            },
        };
        let mut handover = self.buf.change_owner(Owner::Device);
        script.append(&mut handover);
        let mut run = self.write_start();
        script.append(&mut run);
        assert(script@ =~= self.start_script(img_buffer.len()));
        Ok(script)
    }
}

} // verus!
