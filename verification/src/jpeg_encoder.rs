//! The encoder pipeline: one frame-buffer reader, one DMA engine and the
//! encoder core between them, sequenced into the encoding of one frame.

use crate::axidma::Adma;
use crate::axidma::CR_RESET;
use crate::axidma::CR_RUN;
use crate::axidma::S2MM_DMACR;
use crate::axidma::S2MM_DMASR;
use crate::axidma::S2MM_LENGTH;
use crate::axidma::SR_IDLE;
use crate::command::in_window;
use crate::command::register_offset;
use crate::command::script_in_window;
use crate::command::word_index;
use crate::command::Action;
use crate::command::Bank;
use crate::command::Command;
use crate::command::Reply;
use crate::command::ReplyView;
use crate::command::Step;
use crate::error::Error;
use crate::session::lemma_run_in_two;
use crate::session::lemma_run_one_more;
use crate::session::lemma_waits_while_unset;
use crate::session::words;
use crate::session::Closed;
use crate::session::Progress;
use crate::session::Session;
use crate::session::Wait;
use crate::udma::owner_in;
use crate::udma::Owner;
use crate::uio::Uio;
use crate::vfrmbuf::Vfb;
use crate::vfrmbuf::FRMBUF_CTRL;
use vstd::prelude::*;
use vstd::slice::slice_to_vec;

verus! {

/// The number of bytes that are mapped of the encoder core's registers.
pub const PAGE_SIZE: usize = 0x1000;

/// The register in which the encoder core reports the bytes it produced.
pub const ENCODED_LENGTH: usize = 0x04;

/// The most bytes that the DMA engine is asked to store for one frame.
pub const MAX_ENCODED: u32 = 0x200000;

/// The width of a frame in pixels.
pub const FRAME_WIDTH: usize = 1280;

/// The height of a frame in lines.
pub const FRAME_HEIGHT: usize = 720;

/// The state of a pipeline, as contracts speak of it.
pub struct Pipeline {
    /// The register window of the encoder core, which reports the
    /// produced length.
    pub uio: Uio,
    /// The frame-buffer reader.
    pub vfrmbuf: Vfb,
    /// The DMA engine.
    pub adma: Adma,
    /// The session with the hardware.
    pub session: Progress,
    /// Whether the geometry and the addresses have been set, and nothing
    /// has failed since.
    pub configured: bool,
    /// Whether the script that is being carried out is that of `config`.
    pub configuring: bool,
}

impl Pipeline {
    /// Whether no two parts of the pipeline use the same register window or
    /// the same buffer.
    pub open spec fn distinct(bank: Bank, vfrmbuf: Vfb, adma: Adma) -> bool {
        &&& bank != vfrmbuf.bank()
        &&& bank != adma.bank()
        &&& vfrmbuf.bank() != adma.bank()
        &&& vfrmbuf.buffer().slot != adma.buffer().slot
    }

    /// The commands of `config`: the reader learns its buffer and the
    /// geometry, the DMA engine is reset and learns its buffer.
    pub open spec fn config_script(self) -> Seq<Command> {
        self.vfrmbuf.set_phys_addr_script() + self.vfrmbuf.set_format_script(
            FRAME_WIDTH,
            FRAME_HEIGHT,
        ) + self.adma.s2mm_reset_script() + self.adma.set_s2mm_addr_script()
    }

    /// The commands that read the produced length and copy that many
    /// bytes out of the DMA engine's buffer.
    pub open spec fn collect_script(self) -> Seq<Command> {
        seq![
            Command::Read { bank: self.uio.bank, offset: ENCODED_LENGTH },
            Command::LoadCounted {
                slot: self.adma.buffer().slot,
                capacity: self.adma.buffer().size,
            },
        ]
    }

    /// The commands of `encode` for `len` bytes of pixels: the DMA engine
    /// is started, the reader is started with the pixels, the transfer is
    /// armed, the engine is waited for, and what it stored is copied out.
    /// Pixels that the reader's buffer cannot hold end the script where
    /// the reader would have been started.
    pub open spec fn encode_script(self, len: usize) -> Seq<Command> {
        if len <= self.vfrmbuf.buffer().size {
            self.adma.start_script() + self.vfrmbuf.start_script(len)
                + self.adma.set_s2mm_length_script(MAX_ENCODED) + self.adma.wait_idle_script()
                + self.collect_script()
        } else {
            self.adma.start_script() + seq![Command::Abort { error: Error::SizeExceeded }]
        }
    }

    /// The commands of `encode_file`: those of `encode`, and then the
    /// bytes are written to the output file.
    pub open spec fn encode_file_script(self, len: usize) -> Seq<Command> {
        if len <= self.vfrmbuf.buffer().size {
            self.encode_script(len) + seq![Command::Persist]
        } else {
            self.encode_script(len)
        }
    }

    /// The commands of `close`: the window of the encoder core, then the
    /// reader, then the engine.
    pub open spec fn close_script(self) -> Seq<Command> {
        seq![Command::Unmap { bank: self.uio.bank }] + self.vfrmbuf.close_script()
            + self.adma.close_script()
    }

    /// The pipeline after the session has moved to `session` and named `step`.
    pub open spec fn settle(self, session: Progress, step: Step) -> Pipeline {
        Pipeline {
            session,
            configured: match step {
                Step::Perform(_) => self.configured,
                Step::Done => self.configured || self.configuring,
                Step::Failed(_) => false,
            },
            configuring: step is Perform && self.configuring,
            ..self
        }
    }

    /// Taking up `script` with `payload`.
    pub open spec fn launch(self, script: Seq<Command>, payload: Seq<u8>) -> (Pipeline, Step) {
        let (session, step) = self.session.begin(script, payload);
        (self.settle(session, step), step)
    }

    /// What `config` does: refused in the middle of a script; else the
    /// pipeline counts as unconfigured until the script is done.
    pub open spec fn config(self) -> (Pipeline, Step) {
        if self.session.wait != Wait::Idle {
            (self, Step::Failed(Error::ConfigurationError))
        } else {
            (Pipeline { configured: false, configuring: true, ..self }).launch(
                self.config_script(),
                Seq::empty(),
            )
        }
    }

    /// What `submit` does: refused in the middle of a script.
    pub open spec fn submit(self, script: Seq<Command>, payload: Seq<u8>) -> (Pipeline, Step) {
        if self.session.wait != Wait::Idle {
            (self, Step::Failed(Error::ConfigurationError))
        } else {
            (Pipeline { configuring: false, ..self }).launch(script, payload)
        }
    }

    /// What `close` does: refused in the middle of a script; else the
    /// pipeline is unconfigured from then on.
    pub open spec fn close(self) -> (Pipeline, Step) {
        if self.session.wait != Wait::Idle {
            (self, Step::Failed(Error::ConfigurationError))
        } else {
            (Pipeline { configured: false, configuring: false, ..self }).launch(
                self.close_script(),
                Seq::empty(),
            )
        }
    }

    /// What `encode` does with `script`: refused in the middle of a
    /// script and before the pipeline is configured.
    pub open spec fn encode(self, script: Seq<Command>, pixels: Seq<u8>) -> (Pipeline, Step) {
        if self.session.wait != Wait::Idle || !self.configured {
            (self, Step::Failed(Error::ConfigurationError))
        } else {
            self.launch(script, pixels)
        }
    }

    /// What `resume` does: refused where no access is outstanding.
    pub open spec fn resume(self, reply: ReplyView) -> (Pipeline, Step) {
        if self.session.wait == Wait::Idle {
            (self, Step::Failed(Error::ConfigurationError))
        } else {
            let (session, step) = self.session.react(reply);
            (self.settle(session, step), step)
        }
    }
}

/// The encoder pipeline.
#[derive(Debug)]
pub struct JpegEncoder {
    uio: Uio,
    vfrmbuf: Vfb,
    adma: Adma,
    session: Session,
    configured: bool,
    configuring: bool,
}

impl View for JpegEncoder {
    type V = Pipeline;

    closed spec fn view(&self) -> Pipeline {
        Pipeline {
            uio: self.uio,
            vfrmbuf: self.vfrmbuf,
            adma: self.adma,
            session: self.session@,
            configured: self.configured,
            configuring: self.configuring,
        }
    }
}

impl JpegEncoder {
    /// The pipeline of the encoder core behind the registers of `bank`,
    /// the reader `vfrmbuf` and the engine `adma`, with a session in which
    /// the CPU owns both buffers. Refused with a configuration error where
    /// two of the parts use the same register window or the same buffer.
    pub fn new(bank: Bank, vfrmbuf: Vfb, adma: Adma) -> (r: Result<JpegEncoder, Error>)
        ensures
            (match r {
                Ok(encoder) => {
                    &&& Pipeline::distinct(bank, vfrmbuf, adma)
                    &&& encoder@.uio == (Uio { bank, page_size: PAGE_SIZE })
                    &&& encoder@.vfrmbuf == vfrmbuf
                    &&& encoder@.adma == adma
                    &&& encoder@.session.source == Owner::Cpu
                    &&& encoder@.session.destination == Owner::Cpu
                    &&& encoder@.session.closed == Closed::none()
                    &&& encoder@.session.wait == Wait::Idle
                    &&& !encoder@.configured
                    &&& !encoder@.configuring
                },
                Err(e) => e == Error::ConfigurationError && !Pipeline::distinct(
                    bank,
                    vfrmbuf,
                    adma,
                ),
            }),
    {
        let reader = vfrmbuf.uio().bank;
        let engine = adma.uio().bank;
        if bank == reader || bank == engine || reader == engine || vfrmbuf.buf().slot
            == adma.buf().slot {
            return Err(Error::ConfigurationError);
        }
        Ok(
            JpegEncoder {
                uio: Uio::new(bank, PAGE_SIZE),
                vfrmbuf,
                adma,
                session: Session::new(),
                configured: false,
                configuring: false,
            },
        )
    }

    /// The register window of the encoder core.
    pub fn uio(&self) -> (uio: &Uio)
        ensures
            *uio == self@.uio,
    {
        &self.uio
    }

    /// The frame-buffer reader.
    pub fn vfrmbuf(&self) -> (vfrmbuf: &Vfb)
        ensures
            *vfrmbuf == self@.vfrmbuf,
    {
        &self.vfrmbuf
    }

    /// The DMA engine.
    pub fn adma(&self) -> (adma: &Adma)
        ensures
            *adma == self@.adma,
    {
        &self.adma
    }

    /// The session with the hardware.
    pub fn session(&self) -> (session: &Session)
        ensures
            session@ == self@.session,
    {
        &self.session
    }

    /// Whether the pipeline is configured.
    pub fn is_configured(&self) -> (configured: bool)
        ensures
            configured == self@.configured,
    {
        self.configured
    }

    /// Keeps the books after the session has named `step`.
    fn settle(&mut self, step: Step)
        ensures
            final(self)@ == old(self)@.settle(old(self)@.session, step),
    {
        match step {
            Step::Perform(_) => {},
            Step::Done => {
                self.configured = self.configured || self.configuring;
                self.configuring = false;
            },
            Step::Failed(_) => {
                self.configured = false;
                self.configuring = false;
            },
        }
    }

    /// The commands of `config`.
    fn config_script(&self) -> (script: Vec<Command>)
        ensures
            script@ == self@.config_script(),
    {
        let mut script = self.vfrmbuf.set_phys_addr();
        let mut format = self.vfrmbuf.set_format(FRAME_WIDTH, FRAME_HEIGHT);
        script.append(&mut format);
        let mut reset = self.adma.s2mm_reset();
        script.append(&mut reset);
        let mut addr = self.adma.set_s2mm_addr();
        script.append(&mut addr);
        script
    }

    /// The commands of `encode` for the pixels `img_data`.
    fn encode_script(&self, img_data: &[u8]) -> (script: Vec<Command>)
        ensures
            script@ == self@.encode_script(img_data.len()),
    {
        let mut script = self.adma.start();
        match self.vfrmbuf.start(img_data) {
            Ok(mut reader) => {
                script.append(&mut reader);
                let mut length = self.adma.set_s2mm_length(MAX_ENCODED);
                script.append(&mut length);
                let mut wait = self.adma.wait_idle();
                script.append(&mut wait);
                script.push(Command::Read { bank: self.uio.bank, offset: ENCODED_LENGTH });
                script.push(
                    Command::LoadCounted {
                        slot: self.adma.buf().slot,
                        capacity: self.adma.buf().size,
                    },
                );
                assert(script@ =~= self@.encode_script(img_data.len()));
            },
            Err(error) => {
                script.push(Command::Abort { error });
                assert(script@ =~= self@.encode_script(img_data.len()));
            },
        }
        script
    }

    /// Begins the one-time setup and names its first access: the reader
    /// learns its buffer and the geometry of 1280 by 720 pixels, the DMA
    /// engine is reset and learns its buffer. Refused with a configuration
    /// error in the middle of a script. The pipeline counts as configured
    /// when the script is done.
    pub fn config(&mut self) -> (step: Step)
        ensures
            (final(self)@, step) == old(self)@.config(),
    {
        if !self.session.is_idle() {
            return Step::Failed(Error::ConfigurationError);
        }
        let script = self.config_script();
        self.configured = false;
        self.configuring = true;
        let step = self.session.submit(script, Vec::new());
        self.settle(step);
        step
    }

    /// Begins the encoding of the pixels `img_data` and names its first
    /// access. Refused with a configuration error in the middle of a
    /// script and before the pipeline is configured. When the script is
    /// done, the session's bytes are the encoded frame.
    pub fn encode(&mut self, img_data: &[u8]) -> (step: Step)
        ensures
            (final(self)@, step) == old(self)@.encode(
                old(self)@.encode_script(img_data.len()),
                img_data@,
            ),
    {
        if !self.session.is_idle() || !self.configured {
            return Step::Failed(Error::ConfigurationError);
        }
        let script = self.encode_script(img_data);
        let step = self.session.submit(script, slice_to_vec(img_data));
        self.settle(step);
        step
    }

    /// Begins the encoding of the pixels `img_data` into the output file
    /// and names its first access: as `encode`, and at the end the encoded
    /// frame is written out.
    pub fn encode_file(&mut self, img_data: &[u8]) -> (step: Step)
        ensures
            (final(self)@, step) == old(self)@.encode(
                old(self)@.encode_file_script(img_data.len()),
                img_data@,
            ),
    {
        if !self.session.is_idle() || !self.configured {
            return Step::Failed(Error::ConfigurationError);
        }
        let mut script = self.encode_script(img_data);
        if img_data.len() <= self.vfrmbuf.buf().size {
            script.push(Command::Persist);
        }
        assert(script@ =~= self@.encode_file_script(img_data.len()));
        let step = self.session.submit(script, slice_to_vec(img_data));
        self.settle(step);
        step
    }

    /// Begins on `script`, with `payload` for its `Store` commands, in the
    /// session of the pipeline, and names its first access: for what the
    /// parts of the pipeline offer besides `config` and `encode`, such as
    /// taking the reader's buffer back for the CPU before the next frame.
    /// Refused with a configuration error in the middle of a script.
    pub fn submit(&mut self, script: Vec<Command>, payload: Vec<u8>) -> (step: Step)
        ensures
            (final(self)@, step) == old(self)@.submit(script@, payload@),
    {
        if !self.session.is_idle() {
            return Step::Failed(Error::ConfigurationError);
        }
        self.configuring = false;
        let step = self.session.submit(script, payload);
        self.settle(step);
        step
    }

    /// Begins the closing of all windows and buffers of the pipeline and
    /// names its first access. Refused with a configuration error in the
    /// middle of a script. What has been closed is not touched again:
    /// every later operation on it is refused.
    pub fn close(&mut self) -> (step: Step)
        ensures
            (final(self)@, step) == old(self)@.close(),
    {
        if !self.session.is_idle() {
            return Step::Failed(Error::ConfigurationError);
        }
        let script = vec![
            Command::Unmap { bank: self.uio.bank },
            Command::Unmap { bank: self.vfrmbuf.uio().bank },
            Command::Release { slot: self.vfrmbuf.buf().slot },
            Command::Release { slot: self.adma.buf().slot },
            Command::Unmap { bank: self.adma.uio().bank },
        ];
        assert(script@ =~= self@.close_script());
        self.configured = false;
        self.configuring = false;
        let step = self.session.submit(script, Vec::new());
        self.settle(step);
        step
    }

    /// Takes the reply to the outstanding access and names what follows.
    /// Refused with a configuration error where no access is outstanding.
    /// A script that fails leaves the pipeline unconfigured.
    pub fn resume(&mut self, reply: Reply) -> (step: Step)
        ensures
            (final(self)@, step) == old(self)@.resume(reply@),
    {
        if self.session.is_idle() {
            return Step::Failed(Error::ConfigurationError);
        }
        let step = self.session.resume(reply);
        self.settle(step);
        step
    }
}

/// The place of the command that reads the produced length in the
/// commands of `encode`.
pub open spec fn length_read_at() -> nat {
    7
}

/// `encode` returns as many bytes as the encoder core reports. From the
/// point where the produced length is read: a length beyond the capacity
/// of the DMA engine's buffer is refused; any other has the buffer taken
/// back for the CPU and exactly that many bytes copied out, which are then
/// the session's bytes, and the script is done.
pub proof fn lemma_encode_returns_reported_length(
    pipeline: Pipeline,
    pixels: usize,
    length: u32,
    text: Seq<char>,
    bytes: Seq<u8>,
)
    requires
        pixels <= pipeline.vfrmbuf.buffer().size,
        pipeline.session.script == pipeline.encode_script(pixels),
        pipeline.session.pc == length_read_at(),
        pipeline.session.wait == Wait::Value,
        pipeline.session.closed == Closed::none(),
    ensures
        ({
            let slot = pipeline.adma.buffer().slot;
            let capacity = pipeline.adma.buffer().size;
            let (reported, first) = pipeline.session.react(ReplyView::Word(length));
            let (asked, second) = reported.react(ReplyView::Done);
            let (owned, third) = asked.react(ReplyView::Text(text));
            let (end, last) = owned.react(ReplyView::Bytes(bytes));
            &&& length > capacity ==> first == Step::Failed(Error::SizeExceeded)
            &&& length <= capacity ==> {
                &&& first == Step::Perform(Action::Sync { slot, owner: Owner::Cpu })
                &&& second == Step::Perform(Action::ReadOwner { slot })
                &&& owner_in(text) != Ok::<Owner, Error>(Owner::Cpu) ==> third is Failed
                &&& owner_in(text) == Ok::<Owner, Error>(Owner::Cpu) ==> {
                    &&& third == Step::Perform(Action::CopyOut { slot, len: length as usize })
                    &&& bytes.len() != length ==> last == Step::Failed(Error::IoError)
                    &&& bytes.len() == length ==> {
                        &&& last == Step::Done
                        &&& end.bytes == bytes
                        &&& end.owner(slot) == Owner::Cpu
                    }
                }
            }
        }),
{
    let script = pipeline.encode_script(pixels);
    assert(script.len() == 9);
    assert(script[7] == Command::Read { bank: pipeline.uio.bank, offset: ENCODED_LENGTH });
    assert(script[8] == Command::LoadCounted {
        slot: pipeline.adma.buffer().slot,
        capacity: pipeline.adma.buffer().size,
    });
}

/// The pipeline touches no register outside the mapped pages: every
/// register that the commands of `config`, `encode` and `encode_file` read
/// or write is aligned and lies inside a page.
pub proof fn lemma_scripts_stay_in_window(pipeline: Pipeline, len: usize)
    ensures
        script_in_window(pipeline.config_script(), PAGE_SIZE),
        script_in_window(pipeline.encode_script(len), PAGE_SIZE),
        script_in_window(pipeline.encode_file_script(len), PAGE_SIZE),
{
    let config = pipeline.config_script();
    assert(config.len() == 8);
    assert forall|i: int| 0 <= i < config.len() implies match register_offset(
        #[trigger] config[i],
    ) {
        Some(offset) => in_window(offset, PAGE_SIZE),
        None => true,
    } by {
        if i == 0 {
        } else if i == 1 {
        } else if i == 2 {
        } else if i == 3 {
        } else if i == 4 {
        } else if i == 5 {
        } else if i == 6 {
        } else {
            assert(i == 7);
        }
    }
    let encode = pipeline.encode_script(len);
    assert(encode.len() <= 9);
    assert forall|i: int| 0 <= i < encode.len() implies match register_offset(
        #[trigger] encode[i],
    ) {
        Some(offset) => in_window(offset, PAGE_SIZE),
        None => true,
    } by {
        if i == 0 {
        } else if i == 1 {
        } else if i == 2 {
        } else if i == 3 {
        } else if i == 4 {
        } else if i == 5 {
        } else if i == 6 {
        } else if i == 7 {
        } else {
            assert(i == 8);
        }
    }
    let file = pipeline.encode_file_script(len);
    assert forall|i: int| 0 <= i < file.len() implies match register_offset(#[trigger] file[i]) {
        Some(offset) => in_window(offset, PAGE_SIZE),
        None => true,
    } by {
        if i < encode.len() {
            assert(file[i] == encode[i]);
        }
    }
}

/// The replies of hardware that does as it is asked, to the accesses of
/// `encode`: both handovers to the device take effect, the control
/// register of the engine reads `control`, the status register reads the
/// values of `busy` and then `idle`, the encoder core reports `length`, the
/// handover to the CPU takes effect, and `encoded` is copied out.
pub open spec fn encode_replies(
    control: u32,
    engine_owner: Seq<char>,
    reader_owner: Seq<char>,
    busy: Seq<u32>,
    idle: u32,
    length: u32,
    cpu_owner: Seq<char>,
    encoded: Seq<u8>,
) -> Seq<ReplyView> {
    seq![
        ReplyView::Done,
        ReplyView::Text(engine_owner),
        ReplyView::Word(control),
        ReplyView::Done,
        ReplyView::Done,
        ReplyView::Done,
        ReplyView::Text(reader_owner),
        ReplyView::Done,
        ReplyView::Done,
    ] + words(busy) + seq![
        ReplyView::Word(idle),
        ReplyView::Word(length),
        ReplyView::Done,
        ReplyView::Text(cpu_owner),
        ReplyView::Bytes(encoded),
    ]
}

/// The replies of hardware that does as it is asked, to the accesses of
/// `config`: every write is acknowledged, and the control register of the
/// engine reads `before` and then `during` the reset.
pub open spec fn config_replies(before: u32, during: u32) -> Seq<ReplyView> {
    seq![
        ReplyView::Done,
        ReplyView::Done,
        ReplyView::Done,
        ReplyView::Done,
        ReplyView::Done,
        ReplyView::Word(before),
        ReplyView::Done,
        ReplyView::Word(during),
        ReplyView::Done,
        ReplyView::Done,
    ]
}

/// `config` succeeds on hardware that does as it is asked: on a pipeline
/// that carries no script out and of which nothing is closed, the script
/// is done after ten accesses and the pipeline is configured. The last
/// access but one writes what the control register of the engine read
/// during the reset, with the reset bit cleared.
#[verifier::rlimit(40)]
pub proof fn lemma_config_succeeds(pipeline: Pipeline, before: u32, during: u32)
    requires
        pipeline.session.wait == Wait::Idle,
        pipeline.session.closed == Closed::none(),
    ensures
        ({
            let (begun, first) = pipeline.config();
            let replies = config_replies(before, during);
            let (end, last) = begun.session.run(first, replies);
            &&& first is Perform
            &&& !begun.configured
            &&& begun.session.run(first, replies.take(8)).1 == Step::Perform(
                Action::WriteReg {
                    bank: pipeline.adma.bank(),
                    index: word_index(S2MM_DMACR),
                    value: during & !CR_RESET,
                },
            )
            &&& last == Step::Done
            &&& end.wait == Wait::Idle
            &&& end.source == pipeline.session.source
            &&& end.destination == pipeline.session.destination
            &&& begun.settle(end, last).configured
        }),
{
    let script = pipeline.config_script();
    let (begun, first) = pipeline.config();
    let start = begun.session;
    let replies = config_replies(before, during);
    let fb = pipeline.vfrmbuf.bank();
    let dma = pipeline.adma.bank();
    assert(script.len() == 8);
    assert(script[0] is Write && script[1] is Write && script[2] is Write);
    assert(script[3] is Write && script[4] is Write);
    assert(script[5] == Command::SetBits { bank: dma, offset: S2MM_DMACR, mask: CR_RESET });
    assert(script[6] == Command::ClearBits { bank: dma, offset: S2MM_DMACR, mask: CR_RESET });
    assert(script[7] is Write);
    let base = Progress { script, payload: Seq::empty(), ..pipeline.session };
    let c0 = Progress { pc: 0, wait: Wait::Ack, ..base };
    assert(start == c0 && first is Perform);
    assert(replies.take(0) =~= Seq::<ReplyView>::empty());
    assert(start.run(first, replies.take(0)) == (c0, first));
    let c1 = Progress { pc: 1, wait: Wait::Ack, ..base };
    assert(start.run(first, replies.take(1)).0 == c1) by {
        lemma_run_one_more(start, first, replies, 0);
        assert(c0.react(replies[0]) == (Progress { pc: 1, ..c0 }).issue());
    }
    let c2 = Progress { pc: 2, wait: Wait::Ack, ..base };
    assert(start.run(first, replies.take(2)).0 == c2) by {
        lemma_run_one_more(start, first, replies, 1);
        assert(c1.react(replies[1]) == (Progress { pc: 2, ..c1 }).issue());
    }
    let c3 = Progress { pc: 3, wait: Wait::Ack, ..base };
    assert(start.run(first, replies.take(3)).0 == c3) by {
        lemma_run_one_more(start, first, replies, 2);
        assert(c2.react(replies[2]) == (Progress { pc: 3, ..c2 }).issue());
    }
    let c4 = Progress { pc: 4, wait: Wait::Ack, ..base };
    assert(start.run(first, replies.take(4)).0 == c4) by {
        lemma_run_one_more(start, first, replies, 3);
        assert(c3.react(replies[3]) == (Progress { pc: 4, ..c3 }).issue());
    }
    let c5 = Progress { pc: 5, wait: Wait::Value, ..base };
    assert(start.run(first, replies.take(5)).0 == c5) by {
        lemma_run_one_more(start, first, replies, 4);
        assert(c4.react(replies[4]) == (Progress { pc: 5, ..c4 }).issue());
    }
    let c6 = Progress { pc: 5, wait: Wait::Ack, ..base };
    assert(start.run(first, replies.take(6)).0 == c6) by {
        lemma_run_one_more(start, first, replies, 5);
    }
    let c7 = Progress { pc: 6, wait: Wait::Value, ..base };
    assert(start.run(first, replies.take(7)).0 == c7) by {
        lemma_run_one_more(start, first, replies, 6);
        assert(c6.react(replies[6]) == (Progress { pc: 6, ..c6 }).issue());
    }
    let c8 = Progress { pc: 6, wait: Wait::Ack, ..base };
    let cleared = Step::Perform(
        Action::WriteReg { bank: dma, index: word_index(S2MM_DMACR), value: during & !CR_RESET },
    );
    assert(start.run(first, replies.take(8)) == (c8, cleared)) by {
        lemma_run_one_more(start, first, replies, 7);
    }
    let c9 = Progress { pc: 7, wait: Wait::Ack, ..base };
    assert(start.run(first, replies.take(9)).0 == c9) by {
        lemma_run_one_more(start, first, replies, 8);
        assert(c8.react(replies[8]) == (Progress { pc: 7, ..c8 }).issue());
    }
    let c10 = Progress { pc: 8, wait: Wait::Idle, ..base };
    assert(start.run(first, replies.take(10)) == (c10, Step::Done)) by {
        lemma_run_one_more(start, first, replies, 9);
        assert(c9.react(replies[9]) == (Progress { pc: 8, ..c9 }).issue());
    }
    assert(replies.take(10) =~= replies);
}

/// The nine replies up to the first look at the status register.
pub open spec fn start_replies(
    control: u32,
    engine_owner: Seq<char>,
    reader_owner: Seq<char>,
) -> Seq<ReplyView> {
    seq![
        ReplyView::Done,
        ReplyView::Text(engine_owner),
        ReplyView::Word(control),
        ReplyView::Done,
        ReplyView::Done,
        ReplyView::Done,
        ReplyView::Text(reader_owner),
        ReplyView::Done,
        ReplyView::Done,
    ]
}

/// The five replies from the look that finds the engine idle.
pub open spec fn collect_replies(
    idle: u32,
    length: u32,
    cpu_owner: Seq<char>,
    encoded: Seq<u8>,
) -> Seq<ReplyView> {
    seq![
        ReplyView::Word(idle),
        ReplyView::Word(length),
        ReplyView::Done,
        ReplyView::Text(cpu_owner),
        ReplyView::Bytes(encoded),
    ]
}

impl Pipeline {
    /// The session in the middle of `encode`, after both buffers went to
    /// the device: at command `pc`, waiting for `wait`.
    pub open spec fn encoding(self, pixels: Seq<u8>, pc: nat, wait: Wait) -> Progress {
        Progress {
            script: self.encode_script(pixels.len() as usize),
            payload: pixels,
            pc,
            wait,
            ..self.session.with_owner(self.adma.buffer().slot, Owner::Device).with_owner(
                self.vfrmbuf.buffer().slot,
                Owner::Device,
            )
        }
    }

    /// The look at the status register of the engine.
    pub open spec fn poll(self) -> Step {
        Step::Perform(
            Action::ReadReg { bank: self.adma.bank(), index: word_index(S2MM_DMASR) },
        )
    }
}

/// With both handovers confirmed, `encode` gets as far as looking at the
/// status register of the engine: the engine runs, the pixels are in the
/// reader's buffer, the reader is started and the transfer is armed.
#[verifier::rlimit(40)]
pub proof fn lemma_encode_starts(
    pipeline: Pipeline,
    pixels: Seq<u8>,
    control: u32,
    engine_owner: Seq<char>,
    reader_owner: Seq<char>,
)
    requires
        Pipeline::distinct(pipeline.uio.bank, pipeline.vfrmbuf, pipeline.adma),
        pipeline.session.wait == Wait::Idle,
        pipeline.session.closed == Closed::none(),
        pipeline.configured,
        pipeline.session.owner(pipeline.vfrmbuf.buffer().slot) == Owner::Cpu,
        pixels.len() <= pipeline.vfrmbuf.buffer().size,
        owner_in(engine_owner) == Ok::<Owner, Error>(Owner::Device),
        owner_in(reader_owner) == Ok::<Owner, Error>(Owner::Device),
    ensures
        ({
            let script = pipeline.encode_script(pixels.len() as usize);
            let (begun, first) = pipeline.encode(script, pixels);
            &&& first is Perform
            &&& begun == (Pipeline { session: begun.session, ..pipeline })
            &&& begun.session.run(first, start_replies(control, engine_owner, reader_owner)) == (
                pipeline.encoding(pixels, 6, Wait::Value),
                pipeline.poll(),
            )
        }),
{
    let len = pixels.len() as usize;
    let script = pipeline.encode_script(len);
    let (begun, first) = pipeline.encode(script, pixels);
    let start = begun.session;
    let src = pipeline.vfrmbuf.buffer().slot;
    let dst = pipeline.adma.buffer().slot;
    let fb = pipeline.vfrmbuf.bank();
    let dma = pipeline.adma.bank();
    let head = start_replies(control, engine_owner, reader_owner);
    assert(script.len() == 9);
    assert(script[0] == Command::Transfer { slot: dst, owner: Owner::Device });
    assert(script[1] == Command::SetBits {
        bank: dma,
        offset: S2MM_DMACR,
        mask: CR_RUN,
    });
    assert(script[2] == Command::Store { slot: src, len });
    assert(script[3] == Command::Transfer { slot: src, owner: Owner::Device });
    assert(script[4] == Command::Write { bank: fb, offset: FRMBUF_CTRL, value: 1 });
    assert(script[5] == Command::Write {
        bank: dma,
        offset: S2MM_LENGTH,
        value: MAX_ENCODED,
    });
    assert(script[6] == Command::WaitSet {
        bank: dma,
        offset: S2MM_DMASR,
        mask: SR_IDLE,
    });

    let handed = Progress {
        script,
        payload: pixels,
        ..pipeline.session.with_owner(dst, Owner::Device)
    };
    assert(handed.owner(src) == Owner::Cpu);

    let e0 = Progress { pc: 0, wait: Wait::Synced, ..handed };
    assert(start == e0 && first == Step::Perform(Action::Sync { slot: dst, owner: Owner::Device }));
    assert(head.take(0) =~= Seq::<ReplyView>::empty());
    assert(start.run(first, head.take(0)) == (e0, first));

    let e1 = Progress { wait: Wait::OwnerText, ..e0 };
    assert(start.run(first, head.take(1)) == (e1, Step::Perform(Action::ReadOwner { slot: dst })))
        by {
        lemma_run_one_more(start, first, head, 0);
    }
    let e2 = Progress { pc: 1, wait: Wait::Value, ..e0 };
    let s2 = Step::Perform(Action::ReadReg { bank: dma, index: word_index(S2MM_DMACR) });
    assert(start.run(first, head.take(2)) == (e2, s2)) by {
        lemma_run_one_more(start, first, head, 1);
        assert(e1.with_owner(dst, Owner::Device) == e1);
        assert(e1.react(head[1]) == e1.owner_known(dst, Owner::Device));
    }
    let e3 = Progress { wait: Wait::Ack, ..e2 };
    let s3 = Step::Perform(
        Action::WriteReg {
            bank: dma,
            index: word_index(S2MM_DMACR),
            value: control | CR_RUN,
        },
    );
    assert(start.run(first, head.take(3)) == (e3, s3)) by {
        lemma_run_one_more(start, first, head, 2);
    }
    let e4 = Progress { pc: 2, wait: Wait::Ack, ..e0 };
    let s4 = Step::Perform(Action::CopyIn { slot: src, len });
    assert(start.run(first, head.take(4)) == (e4, s4)) by {
        lemma_run_one_more(start, first, head, 3);
        assert(e3.react(head[3]) == (Progress { pc: 2, ..e3 }).issue());
    }
    let e5 = pipeline.encoding(pixels, 3, Wait::Synced);
    assert(e5 == Progress { pc: 3, wait: Wait::Synced, ..handed.with_owner(src, Owner::Device) });
    let s5 = Step::Perform(Action::Sync { slot: src, owner: Owner::Device });
    assert(start.run(first, head.take(5)) == (e5, s5)) by {
        lemma_run_one_more(start, first, head, 4);
        assert(e4.react(head[4]) == (Progress { pc: 3, ..e4 }).issue());
    }
    let e6 = Progress { wait: Wait::OwnerText, ..e5 };
    assert(start.run(first, head.take(6)) == (e6, Step::Perform(Action::ReadOwner { slot: src })))
        by {
        lemma_run_one_more(start, first, head, 5);
    }
    let e7 = pipeline.encoding(pixels, 4, Wait::Ack);
    let s7 = Step::Perform(
        Action::WriteReg { bank: fb, index: word_index(FRMBUF_CTRL), value: 1 },
    );
    assert(start.run(first, head.take(7)) == (e7, s7)) by {
        lemma_run_one_more(start, first, head, 6);
        assert(e6.with_owner(src, Owner::Device) == e6);
        assert(e6.react(head[6]) == e6.owner_known(src, Owner::Device));
    }
    let e8 = pipeline.encoding(pixels, 5, Wait::Ack);
    let s8 = Step::Perform(
        Action::WriteReg {
            bank: dma,
            index: word_index(S2MM_LENGTH),
            value: MAX_ENCODED,
        },
    );
    assert(start.run(first, head.take(8)) == (e8, s8)) by {
        lemma_run_one_more(start, first, head, 7);
        assert(e7.react(head[7]) == (Progress { pc: 5, ..e7 }).issue());
    }
    let e9 = pipeline.encoding(pixels, 6, Wait::Value);
    assert(start.run(first, head.take(9)) == (e9, pipeline.poll())) by {
        lemma_run_one_more(start, first, head, 8);
        assert(e8.react(head[8]) == (Progress { pc: 6, ..e8 }).issue());
    }
    assert(head.take(9) =~= head);
}

/// Once the engine is idle, `encode` reads the produced length, takes the
/// engine's buffer back and copies that many bytes out of it.
#[verifier::rlimit(40)]
pub proof fn lemma_encode_collects(
    pipeline: Pipeline,
    pixels: Seq<u8>,
    idle: u32,
    length: u32,
    cpu_owner: Seq<char>,
    encoded: Seq<u8>,
)
    requires
        Pipeline::distinct(pipeline.uio.bank, pipeline.vfrmbuf, pipeline.adma),
        pipeline.session.closed == Closed::none(),
        pixels.len() <= pipeline.vfrmbuf.buffer().size,
        owner_in(cpu_owner) == Ok::<Owner, Error>(Owner::Cpu),
        Adma::idle(idle),
        length <= pipeline.adma.buffer().size,
        encoded.len() == length,
    ensures
        pipeline.encoding(pixels, 6, Wait::Value).run(
            pipeline.poll(),
            collect_replies(idle, length, cpu_owner, encoded),
        ) == (
            Progress {
                word: length,
                bytes: encoded,
                ..pipeline.encoding(pixels, 9, Wait::Idle).with_owner(
                    pipeline.adma.buffer().slot,
                    Owner::Cpu,
                )
            },
            Step::Done,
        ),
{
    let len = pixels.len() as usize;
    let script = pipeline.encode_script(len);
    let dst = pipeline.adma.buffer().slot;
    let tail = collect_replies(idle, length, cpu_owner, encoded);
    let waiting = pipeline.encoding(pixels, 6, Wait::Value);
    let poll = pipeline.poll();
    assert(script.len() == 9);
    assert(script[6] == Command::WaitSet {
        bank: pipeline.adma.bank(),
        offset: S2MM_DMASR,
        mask: SR_IDLE,
    });
    assert(script[7] == Command::Read { bank: pipeline.uio.bank, offset: ENCODED_LENGTH });
    assert(script[8] == Command::LoadCounted { slot: dst, capacity: pipeline.adma.buffer().size });

    assert(tail.take(0) =~= Seq::<ReplyView>::empty());
    assert(waiting.run(poll, tail.take(0)) == (waiting, poll));
    let t1 = Progress { pc: 7, ..waiting };
    let s1 = Step::Perform(
        Action::ReadReg { bank: pipeline.uio.bank, index: word_index(ENCODED_LENGTH) },
    );
    assert(waiting.run(poll, tail.take(1)) == (t1, s1)) by {
        lemma_run_one_more(waiting, poll, tail, 0);
        assert(waiting.react(tail[0]) == (Progress { pc: 7, ..waiting }).issue());
    }
    let t2 = Progress { pc: 8, wait: Wait::Synced, word: length, ..waiting };
    let s2 = Step::Perform(Action::Sync { slot: dst, owner: Owner::Cpu });
    assert(waiting.run(poll, tail.take(2)) == (t2, s2)) by {
        lemma_run_one_more(waiting, poll, tail, 1);
        assert(t1.react(tail[1]) == (Progress { pc: 8, word: length, ..t1 }).issue());
    }
    let t3 = Progress { wait: Wait::OwnerText, ..t2 };
    assert(waiting.run(poll, tail.take(3)) == (t3, Step::Perform(Action::ReadOwner { slot: dst })))
        by {
        lemma_run_one_more(waiting, poll, tail, 2);
    }
    let t4 = Progress { wait: Wait::Data, ..t3.with_owner(dst, Owner::Cpu) };
    let s4 = Step::Perform(Action::CopyOut { slot: dst, len: length as usize });
    assert(waiting.run(poll, tail.take(4)) == (t4, s4)) by {
        lemma_run_one_more(waiting, poll, tail, 3);
        assert(t3.react(tail[3]) == t3.owner_known(dst, Owner::Cpu));
    }
    let t5 = Progress { pc: 9, wait: Wait::Idle, bytes: encoded, ..t4 };
    assert(waiting.run(poll, tail.take(5)) == (t5, Step::Done)) by {
        lemma_run_one_more(waiting, poll, tail, 4);
        assert(t4.react(tail[4]) == (Progress { pc: 9, bytes: encoded, ..t4 }).issue());
    }
    assert(tail.take(5) =~= tail);
    assert(t5 == Progress {
        word: length,
        bytes: encoded,
        ..pipeline.encoding(pixels, 9, Wait::Idle).with_owner(dst, Owner::Cpu)
    });
}

/// `encode` succeeds on hardware that does as it is asked. On a
/// configured pipeline whose reader's buffer the CPU owns, with pixels
/// that the buffer holds, however long the engine is busy: if the owner
/// attributes confirm the handovers, the engine becomes idle and the
/// encoder core reports a length that the engine's buffer holds, then the
/// script is done, the session's bytes are the bytes copied out, as many as
/// were reported, and the pipeline is still configured.
pub proof fn lemma_encode_succeeds(
    pipeline: Pipeline,
    pixels: Seq<u8>,
    control: u32,
    engine_owner: Seq<char>,
    reader_owner: Seq<char>,
    busy: Seq<u32>,
    idle: u32,
    length: u32,
    cpu_owner: Seq<char>,
    encoded: Seq<u8>,
)
    requires
        Pipeline::distinct(pipeline.uio.bank, pipeline.vfrmbuf, pipeline.adma),
        pipeline.session.wait == Wait::Idle,
        pipeline.session.closed == Closed::none(),
        pipeline.configured,
        pipeline.session.owner(pipeline.vfrmbuf.buffer().slot) == Owner::Cpu,
        pixels.len() <= pipeline.vfrmbuf.buffer().size,
        owner_in(engine_owner) == Ok::<Owner, Error>(Owner::Device),
        owner_in(reader_owner) == Ok::<Owner, Error>(Owner::Device),
        owner_in(cpu_owner) == Ok::<Owner, Error>(Owner::Cpu),
        forall|i: int| 0 <= i < busy.len() ==> !Adma::idle(#[trigger] busy[i]),
        Adma::idle(idle),
        length <= pipeline.adma.buffer().size,
        encoded.len() == length,
    ensures
        ({
            let script = pipeline.encode_script(pixels.len() as usize);
            let (begun, first) = pipeline.encode(script, pixels);
            let replies = start_replies(control, engine_owner, reader_owner) + words(busy)
                + collect_replies(idle, length, cpu_owner, encoded);
            let (end, last) = begun.session.run(first, replies);
            &&& first is Perform
            &&& last == Step::Done
            &&& end.wait == Wait::Idle
            &&& end.bytes == encoded
            &&& end.word == length
            &&& end.owner(pipeline.vfrmbuf.buffer().slot) == Owner::Device
            &&& end.owner(pipeline.adma.buffer().slot) == Owner::Cpu
            &&& begun.settle(end, last).configured
        }),
{
    let script = pipeline.encode_script(pixels.len() as usize);
    let (begun, first) = pipeline.encode(script, pixels);
    let head = start_replies(control, engine_owner, reader_owner);
    let tail = collect_replies(idle, length, cpu_owner, encoded);
    let waiting = pipeline.encoding(pixels, 6, Wait::Value);
    lemma_encode_starts(pipeline, pixels, control, engine_owner, reader_owner);
    assert(script.len() == 9);
    assert(script[6] == Command::WaitSet {
        bank: pipeline.adma.bank(),
        offset: S2MM_DMASR,
        mask: SR_IDLE,
    });
    lemma_waits_while_unset(waiting, busy);
    lemma_run_in_two(begun.session, first, head, words(busy));
    lemma_encode_collects(pipeline, pixels, idle, length, cpu_owner, encoded);
    lemma_run_in_two(begun.session, first, head + words(busy), tail);
}

} // verus!
