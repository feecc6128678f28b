use fpga_jpeg::axidma::Adma;
use fpga_jpeg::command::Action;
use fpga_jpeg::command::Bank;
use fpga_jpeg::command::Command;
use fpga_jpeg::command::Reply;
use fpga_jpeg::command::Slot;
use fpga_jpeg::command::Step;
use fpga_jpeg::error::Error;
use fpga_jpeg::jpeg_encoder::JpegEncoder;
use fpga_jpeg::session::Closed;
use fpga_jpeg::session::Session;
use fpga_jpeg::udma::Owner;
use fpga_jpeg::udma::Udma;
use fpga_jpeg::vfrmbuf::Vfb;

const WORDS: usize = 0x1000 / 4;
const FRAME: usize = 1280 * 720 * 3;
const CAPACITY: usize = 0x200000;

const DMA_CONTROL: usize = 0x30 / 4;
const DMA_STATUS: usize = 0x34 / 4;
const DMA_LENGTH: usize = 0x58 / 4;
const ENCODED_LENGTH: usize = 0x04 / 4;

/// Stands in for the hardware: three register pages, two buffers with
/// their owner attribute, and an encoder that stores `encoded` once the
/// reader and the engine run and the transfer is armed.
struct Board {
    regs: Vec<Vec<u32>>,
    mem: Vec<Vec<u8>>,
    owner: Vec<u32>,
    log: Vec<Action>,
    file: Option<Vec<u8>>,
    encoded: Vec<u8>,
    reported: Option<u32>,
    busy_polls: usize,
    polls_left: usize,
    stuck_owner: Option<String>,
    fail_at: Option<usize>,
    short_copy: bool,
}

fn bank_ix(bank: Bank) -> usize {
    match bank {
        Bank::Encoder => 0,
        Bank::FrameBuffer => 1,
        Bank::Dma => 2,
    }
}

fn slot_ix(slot: Slot) -> usize {
    match slot {
        Slot::Source => 0,
        Slot::Destination => 1,
    }
}

impl Board {
    fn new(source: usize, destination: usize) -> Board {
        let mut regs = vec![vec![0u32; WORDS]; 3];
        regs[2][DMA_STATUS] = 0x1;
        Board {
            regs,
            mem: vec![vec![0xaa; source], vec![0x55; destination]],
            owner: vec![0, 0],
            log: Vec::new(),
            file: None,
            encoded: Vec::new(),
            reported: None,
            busy_polls: 3,
            polls_left: 0,
            stuck_owner: None,
            fail_at: None,
            short_copy: false,
        }
    }

    fn perform(&mut self, action: Action, payload: &[u8], bytes: &[u8]) -> Reply {
        let nth = self.log.len();
        self.log.push(action);
        if self.fail_at == Some(nth) {
            return Reply::Failed;
        }
        match action {
            Action::ReadReg { bank, index } => {
                assert!(index < WORDS);
                if bank == Bank::Dma && index == DMA_STATUS && self.polls_left > 0 {
                    self.polls_left -= 1;
                    if self.polls_left == 0 {
                        self.regs[2][DMA_STATUS] |= 0x2;
                    }
                }
                Reply::Word(self.regs[bank_ix(bank)][index])
            }
            Action::WriteReg { bank, index, value } => {
                assert!(index < WORDS);
                self.regs[bank_ix(bank)][index] = value;
                if bank == Bank::Dma && index == DMA_CONTROL && value & 0x4 != 0 {
                    self.regs[2][DMA_STATUS] = 0x1;
                }
                if bank == Bank::Dma && index == DMA_CONTROL && value & 0x1 != 0 {
                    self.regs[2][DMA_STATUS] &= !0x1;
                }
                if bank == Bank::Dma && index == DMA_LENGTH {
                    let running = self.regs[2][DMA_CONTROL] & 0x1 != 0;
                    let streaming = self.regs[1][0] & 0x1 != 0;
                    if running && streaming && self.owner[1] == 1 && self.owner[0] == 1 {
                        let n = self.encoded.len().min(self.mem[1].len());
                        self.mem[1][..n].copy_from_slice(&self.encoded[..n]);
                        self.regs[0][ENCODED_LENGTH] =
                            self.reported.unwrap_or(self.encoded.len() as u32);
                        self.regs[2][DMA_STATUS] &= !0x2;
                        self.polls_left = self.busy_polls;
                    }
                }
                Reply::Done
            }
            Action::Sync { slot, owner } => {
                self.owner[slot_ix(slot)] = match owner {
                    Owner::Cpu => 0,
                    Owner::Device => 1,
                };
                Reply::Done
            }
            Action::ReadOwner { slot } => match &self.stuck_owner {
                Some(text) => Reply::Text(text.clone()),
                None => Reply::Text(format!("{}\n", self.owner[slot_ix(slot)])),
            },
            Action::CopyIn { slot, len } => {
                assert_eq!(self.owner[slot_ix(slot)], 0, "copy into a device-owned buffer");
                self.mem[slot_ix(slot)][..len].copy_from_slice(&payload[..len]);
                Reply::Done
            }
            Action::CopyOut { slot, len } => {
                assert_eq!(self.owner[slot_ix(slot)], 0, "copy out of a device-owned buffer");
                let n = if self.short_copy { len - 1 } else { len };
                Reply::Bytes(self.mem[slot_ix(slot)][..n].to_vec())
            }
            Action::Persist => {
                self.file = Some(bytes.to_vec());
                Reply::Done
            }
            Action::Unmap { bank: _ } => Reply::Done,
            Action::Release { slot: _ } => Reply::Done,
        }
    }

    fn run(&mut self, session: &mut Session, first: Step) -> Result<(), Error> {
        let mut step = first;
        loop {
            match step {
                Step::Perform(action) => {
                    let payload = session.payload().clone();
                    let bytes = session.bytes().clone();
                    let reply = self.perform(action, &payload, &bytes);
                    step = session.resume(reply);
                }
                Step::Done => return Ok(()),
                Step::Failed(e) => return Err(e),
            }
        }
    }

    fn drive(&mut self, encoder: &mut JpegEncoder, first: Step) -> Result<(), Error> {
        let mut step = first;
        loop {
            match step {
                Step::Perform(action) => {
                    let payload = encoder.session().payload().clone();
                    let bytes = encoder.session().bytes().clone();
                    let reply = self.perform(action, &payload, &bytes);
                    step = encoder.resume(reply);
                }
                Step::Done => return Ok(()),
                Step::Failed(e) => return Err(e),
            }
        }
    }

    fn position(&self, wanted: impl Fn(&Action) -> bool) -> Option<usize> {
        self.log.iter().position(wanted)
    }
}

fn buffer(slot: Slot, size: usize) -> Udma {
    let addr = match slot {
        Slot::Source => "0x3f000000\n",
        Slot::Destination => "0x40000000\n",
    };
    Udma::open(slot, "udmabuf", addr, &format!("{}\n", size)).unwrap()
}

fn pipeline(source: usize, destination: usize) -> JpegEncoder {
    JpegEncoder::new(
        Bank::Encoder,
        Vfb::new(Bank::FrameBuffer, buffer(Slot::Source, source)),
        Adma::new(Bank::Dma, buffer(Slot::Destination, destination)),
    )
    .unwrap()
}

fn jpeg(len: usize) -> Vec<u8> {
    let mut out: Vec<u8> = (0..len).map(|i| (i * 7 + 3) as u8).collect();
    if len >= 4 {
        out[0] = 0xff;
        out[1] = 0xd8;
        out[len - 2] = 0xff;
        out[len - 1] = 0xd9;
    }
    out
}

fn configured(board: &mut Board, source: usize, destination: usize) -> JpegEncoder {
    let mut encoder = pipeline(source, destination);
    let first = encoder.config();
    assert_eq!(board.drive(&mut encoder, first), Ok(()));
    assert!(encoder.is_configured());
    board.log.clear();
    encoder
}

#[test]
fn ownership_is_cpu_after_open() {
    let session = Session::new();
    assert_eq!(session.owner(Slot::Source), Owner::Cpu);
    assert_eq!(session.owner(Slot::Destination), Owner::Cpu);
    assert!(session.is_idle());
    assert_eq!(session.word(), 0);
    assert!(session.bytes().is_empty());
    assert!(session.payload().is_empty());
    let encoder = pipeline(16, 16);
    assert_eq!(encoder.session().owner(Slot::Source), Owner::Cpu);
    assert_eq!(encoder.session().owner(Slot::Destination), Owner::Cpu);
    assert!(!encoder.is_configured());
}

#[test]
fn write_then_read_returns_the_same_bytes() {
    let mut board = Board::new(64, 64);
    let mut session = Session::new();
    let buf = buffer(Slot::Source, 64);
    let data: Vec<u8> = (0..40).map(|i| i as u8 ^ 0x5a).collect();
    let first = session.submit(buf.write_to_buf(&data).unwrap(), data.clone());
    assert_eq!(
        first,
        Step::Perform(Action::CopyIn {
            slot: Slot::Source,
            len: 40
        })
    );
    assert_eq!(board.run(&mut session, first), Ok(()));
    assert!(session.bytes().is_empty());
    let first = session.submit(buf.read_from_buf(data.len()).unwrap(), Vec::new());
    assert_eq!(board.run(&mut session, first), Ok(()));
    assert_eq!(session.bytes(), &data);
    assert_eq!(session.owner(Slot::Source), Owner::Cpu);
    assert_eq!(&board.mem[0][..40], &data[..]);
    assert_eq!(&board.mem[0][40..], &[0xaa; 24][..]);
}

#[test]
fn write_then_read_of_nothing_returns_nothing() {
    let mut board = Board::new(8, 8);
    let mut session = Session::new();
    let buf = buffer(Slot::Destination, 8);
    let first = session.submit(buf.write_to_buf(&[]).unwrap(), Vec::new());
    assert_eq!(board.run(&mut session, first), Ok(()));
    let first = session.submit(buf.read_from_buf(0).unwrap(), Vec::new());
    assert_eq!(board.run(&mut session, first), Ok(()));
    assert!(session.bytes().is_empty());
}

#[test]
fn read_copies_exactly_the_bytes_asked_for() {
    let mut board = Board::new(8, 8);
    board.mem[1] = vec![1, 2, 3, 4, 5, 6, 7, 8];
    let mut session = Session::new();
    let buf = buffer(Slot::Destination, 8);
    let first = session.submit(buf.read_from_buf(5).unwrap(), Vec::new());
    assert_eq!(board.run(&mut session, first), Ok(()));
    assert_eq!(session.bytes(), &vec![1, 2, 3, 4, 5]);
    assert_eq!(
        board.log,
        vec![
            Action::Sync {
                slot: Slot::Destination,
                owner: Owner::Cpu
            },
            Action::ReadOwner {
                slot: Slot::Destination
            },
            Action::CopyOut {
                slot: Slot::Destination,
                len: 5
            },
        ]
    );
}

#[test]
fn write_to_a_device_owned_buffer_is_rejected() {
    let mut board = Board::new(16, 16);
    let mut session = Session::new();
    let buf = buffer(Slot::Source, 16);
    let first = session.submit(buf.change_owner(Owner::Device), Vec::new());
    assert_eq!(board.run(&mut session, first), Ok(()));
    assert_eq!(session.owner(Slot::Source), Owner::Device);
    assert_eq!(session.owner(Slot::Destination), Owner::Cpu);
    board.log.clear();
    let first = session.submit(buf.write_to_buf(&[1, 2, 3]).unwrap(), vec![1, 2, 3]);
    assert_eq!(first, Step::Failed(Error::OwnershipError));
    assert!(session.is_idle());
    assert!(board.log.is_empty());
    assert_eq!(board.mem[0], vec![0xaa; 16]);
}

#[test]
fn read_takes_the_buffer_back_for_the_cpu() {
    let mut board = Board::new(16, 16);
    let mut session = Session::new();
    let buf = buffer(Slot::Destination, 16);
    let first = session.submit(buf.change_owner(Owner::Device), Vec::new());
    assert_eq!(board.run(&mut session, first), Ok(()));
    assert_eq!(board.owner[1], 1);
    let first = session.submit(buf.read_from_buf(4).unwrap(), Vec::new());
    assert_eq!(board.run(&mut session, first), Ok(()));
    assert_eq!(board.owner[1], 0);
    assert_eq!(session.owner(Slot::Destination), Owner::Cpu);
    assert_eq!(session.bytes(), &vec![0x55; 4]);
}

#[test]
fn read_is_rejected_when_the_buffer_stays_with_the_device() {
    let mut board = Board::new(16, 16);
    board.stuck_owner = Some("1\n".to_string());
    let mut session = Session::new();
    let buf = buffer(Slot::Destination, 16);
    let first = session.submit(buf.read_from_buf(4).unwrap(), Vec::new());
    assert_eq!(board.run(&mut session, first), Err(Error::OwnershipError));
    assert_eq!(session.owner(Slot::Destination), Owner::Device);
    assert!(board
        .position(|a| matches!(a, Action::CopyOut { .. }))
        .is_none());
    assert!(session.bytes().is_empty());
}

#[test]
fn transfer_ownership_twice_leaves_the_device_as_owner() {
    let mut board = Board::new(16, 16);
    let mut session = Session::new();
    let buf = buffer(Slot::Source, 16);
    let first = session.submit(buf.change_owner(Owner::Device), Vec::new());
    assert_eq!(board.run(&mut session, first), Ok(()));
    assert_eq!(session.owner(Slot::Source), Owner::Device);
    assert_eq!(board.owner[0], 1);
    let first = session.submit(buf.change_owner(Owner::Device), Vec::new());
    assert_eq!(board.run(&mut session, first), Ok(()));
    assert_eq!(session.owner(Slot::Source), Owner::Device);
    assert_eq!(board.owner[0], 1);
    assert_eq!(session.owner(Slot::Destination), Owner::Cpu);
    let first = session.submit(buf.change_owner(Owner::Cpu), Vec::new());
    assert_eq!(board.run(&mut session, first), Ok(()));
    let first = session.submit(buf.change_owner(Owner::Cpu), Vec::new());
    assert_eq!(board.run(&mut session, first), Ok(()));
    assert_eq!(session.owner(Slot::Source), Owner::Cpu);
    assert_eq!(board.owner[0], 0);
}

#[test]
fn transfer_that_does_not_take_effect_is_an_ownership_error() {
    let mut board = Board::new(16, 16);
    board.stuck_owner = Some("0\n".to_string());
    let mut session = Session::new();
    let buf = buffer(Slot::Source, 16);
    let first = session.submit(buf.change_owner(Owner::Device), Vec::new());
    assert_eq!(board.run(&mut session, first), Err(Error::OwnershipError));
    assert_eq!(session.owner(Slot::Source), Owner::Cpu);
    assert!(session.is_idle());
}

#[test]
fn owner_attribute_that_names_no_owner_is_an_ownership_error() {
    let mut board = Board::new(16, 16);
    board.stuck_owner = Some("2\n".to_string());
    let mut session = Session::new();
    let buf = buffer(Slot::Source, 16);
    let first = session.submit(buf.change_owner(Owner::Device), Vec::new());
    assert_eq!(board.run(&mut session, first), Err(Error::OwnershipError));
    assert_eq!(session.owner(Slot::Source), Owner::Device);
}

#[test]
fn owner_attribute_that_is_no_number_is_an_io_error() {
    let mut board = Board::new(16, 16);
    board.stuck_owner = Some("device\n".to_string());
    let mut session = Session::new();
    let buf = buffer(Slot::Source, 16);
    let first = session.submit(buf.change_owner(Owner::Cpu), Vec::new());
    assert_eq!(board.run(&mut session, first), Err(Error::IoError));
    assert_eq!(session.owner(Slot::Source), Owner::Cpu);
}

#[test]
fn failed_access_is_an_io_error() {
    let buf = buffer(Slot::Source, 16);
    let mut nth = 0;
    while nth < 3 {
        let mut board = Board::new(16, 16);
        board.fail_at = Some(nth);
        let mut session = Session::new();
        let first = session.submit(buf.read_from_buf(4).unwrap(), Vec::new());
        assert_eq!(board.run(&mut session, first), Err(Error::IoError));
        assert_eq!(board.log.len(), nth + 1);
        assert!(session.is_idle());
        nth += 1;
    }
}

#[test]
fn reply_of_the_wrong_kind_is_an_io_error() {
    let buf = buffer(Slot::Source, 16);
    let mut session = Session::new();
    let first = session.submit(buf.change_owner(Owner::Device), Vec::new());
    assert!(matches!(first, Step::Perform(Action::Sync { .. })));
    assert_eq!(
        session.resume(Reply::Word(1)),
        Step::Failed(Error::IoError)
    );
    assert!(session.is_idle());
    let first = session.submit(buf.read_from_buf(4).unwrap(), Vec::new());
    assert!(matches!(first, Step::Perform(Action::Sync { .. })));
    assert!(matches!(
        session.resume(Reply::Done),
        Step::Perform(Action::ReadOwner { .. })
    ));
    assert_eq!(
        session.resume(Reply::Bytes(vec![0])),
        Step::Failed(Error::IoError)
    );
}

#[test]
fn copy_of_the_wrong_length_is_an_io_error() {
    let mut board = Board::new(16, 16);
    board.short_copy = true;
    let mut session = Session::new();
    let buf = buffer(Slot::Source, 16);
    let first = session.submit(buf.read_from_buf(4).unwrap(), Vec::new());
    assert_eq!(board.run(&mut session, first), Err(Error::IoError));
    assert!(session.bytes().is_empty());
}

#[test]
fn session_refuses_a_second_script_and_a_stray_reply() {
    let buf = buffer(Slot::Source, 16);
    let mut session = Session::new();
    assert_eq!(
        session.resume(Reply::Done),
        Step::Failed(Error::ConfigurationError)
    );
    let first = session.submit(buf.change_owner(Owner::Cpu), Vec::new());
    assert!(matches!(first, Step::Perform(_)));
    assert_eq!(
        session.submit(buf.change_owner(Owner::Device), Vec::new()),
        Step::Failed(Error::ConfigurationError)
    );
    assert!(!session.is_idle());
    assert!(matches!(
        session.resume(Reply::Done),
        Step::Perform(Action::ReadOwner { .. })
    ));
    assert_eq!(session.resume(Reply::Text("0".to_string())), Step::Done);
    assert!(session.is_idle());
    assert_eq!(session.submit(Vec::new(), Vec::new()), Step::Done);
}

#[test]
fn store_beyond_the_payload_is_refused() {
    let mut session = Session::new();
    let script = vec![Command::Store {
        slot: Slot::Source,
        len: 4,
    }];
    assert_eq!(
        session.submit(script, vec![1, 2, 3]),
        Step::Failed(Error::SizeExceeded)
    );
    assert!(session.is_idle());
}

#[test]
fn register_commands_read_modify_and_write() {
    let mut board = Board::new(16, 16);
    board.regs[2][DMA_CONTROL] = 0x0001_0002;
    let mut session = Session::new();
    let adma = Adma::new(Bank::Dma, buffer(Slot::Destination, 16));
    let first = session.submit(adma.s2mm_reset(), Vec::new());
    assert_eq!(board.run(&mut session, first), Ok(()));
    assert_eq!(
        board.log,
        vec![
            Action::ReadReg {
                bank: Bank::Dma,
                index: 12
            },
            Action::WriteReg {
                bank: Bank::Dma,
                index: 12,
                value: 0x0001_0006
            },
            Action::ReadReg {
                bank: Bank::Dma,
                index: 12
            },
            Action::WriteReg {
                bank: Bank::Dma,
                index: 12,
                value: 0x0001_0002
            },
        ]
    );
    let first = session.submit(adma.read_ctrl(), Vec::new());
    assert_eq!(board.run(&mut session, first), Ok(()));
    assert_eq!(session.word(), 0x0001_0002);
    let first = session.submit(adma.set_s2mm_addr(), Vec::new());
    assert_eq!(board.run(&mut session, first), Ok(()));
    assert_eq!(board.regs[2][0x48 / 4], 0x4000_0000);
    let first = session.submit(adma.read_s2mm_addr(), Vec::new());
    assert_eq!(board.run(&mut session, first), Ok(()));
    assert_eq!(session.word(), 0x4000_0000);
    let first = session.submit(adma.read_status(), Vec::new());
    assert_eq!(board.run(&mut session, first), Ok(()));
    assert!(!adma.is_idle(session.word()));
}

#[test]
fn wait_reads_until_the_bits_are_set() {
    let mut board = Board::new(16, 16);
    board.polls_left = 5;
    board.regs[2][DMA_STATUS] = 0;
    let mut session = Session::new();
    let adma = Adma::new(Bank::Dma, buffer(Slot::Destination, 16));
    let first = session.submit(adma.wait_idle(), Vec::new());
    assert_eq!(board.run(&mut session, first), Ok(()));
    assert_eq!(board.log.len(), 5);
    assert!(board.log.iter().all(|a| *a
        == Action::ReadReg {
            bank: Bank::Dma,
            index: DMA_STATUS
        }));
    assert_eq!(session.word(), 0);
}

#[test]
fn close_unmaps_and_releases() {
    let mut board = Board::new(16, 16);
    let mut session = Session::new();
    let vfb = Vfb::new(Bank::FrameBuffer, buffer(Slot::Source, 16));
    let first = session.submit(vfb.close(), Vec::new());
    assert_eq!(board.run(&mut session, first), Ok(()));
    assert_eq!(
        board.log,
        vec![
            Action::Unmap {
                bank: Bank::FrameBuffer
            },
            Action::Release { slot: Slot::Source },
        ]
    );
}

#[test]
fn dma_start_hands_the_buffer_over_before_the_start_bit() {
    let mut board = Board::new(16, 16);
    board.regs[2][DMA_CONTROL] = 0x1000;
    let mut session = Session::new();
    let adma = Adma::new(Bank::Dma, buffer(Slot::Destination, 16));
    let first = session.submit(adma.start(), Vec::new());
    assert_eq!(board.run(&mut session, first), Ok(()));
    assert_eq!(
        board.log,
        vec![
            Action::Sync {
                slot: Slot::Destination,
                owner: Owner::Device
            },
            Action::ReadOwner {
                slot: Slot::Destination
            },
            Action::ReadReg {
                bank: Bank::Dma,
                index: DMA_CONTROL
            },
            Action::WriteReg {
                bank: Bank::Dma,
                index: DMA_CONTROL,
                value: 0x1001
            },
        ]
    );
    assert_eq!(session.owner(Slot::Destination), Owner::Device);
}

#[test]
fn dma_start_does_not_set_the_start_bit_without_the_handover() {
    let mut board = Board::new(16, 16);
    board.stuck_owner = Some("0\n".to_string());
    let mut session = Session::new();
    let adma = Adma::new(Bank::Dma, buffer(Slot::Destination, 16));
    let first = session.submit(adma.start(), Vec::new());
    assert_eq!(board.run(&mut session, first), Err(Error::OwnershipError));
    assert!(board
        .position(|a| matches!(a, Action::WriteReg { .. }))
        .is_none());
    assert_eq!(board.regs[2][DMA_CONTROL], 0);
}

#[test]
fn pipeline_parts_must_be_distinct() {
    let made = JpegEncoder::new(
        Bank::Dma,
        Vfb::new(Bank::FrameBuffer, buffer(Slot::Source, 16)),
        Adma::new(Bank::Dma, buffer(Slot::Destination, 16)),
    );
    assert_eq!(made.err(), Some(Error::ConfigurationError));
    let made = JpegEncoder::new(
        Bank::FrameBuffer,
        Vfb::new(Bank::FrameBuffer, buffer(Slot::Source, 16)),
        Adma::new(Bank::Dma, buffer(Slot::Destination, 16)),
    );
    assert_eq!(made.err(), Some(Error::ConfigurationError));
    let made = JpegEncoder::new(
        Bank::Encoder,
        Vfb::new(Bank::Dma, buffer(Slot::Source, 16)),
        Adma::new(Bank::Dma, buffer(Slot::Destination, 16)),
    );
    assert_eq!(made.err(), Some(Error::ConfigurationError));
    let made = JpegEncoder::new(
        Bank::Encoder,
        Vfb::new(Bank::FrameBuffer, buffer(Slot::Source, 16)),
        Adma::new(Bank::Dma, buffer(Slot::Source, 16)),
    );
    assert_eq!(made.err(), Some(Error::ConfigurationError));
    let made = JpegEncoder::new(
        Bank::Dma,
        Vfb::new(Bank::Encoder, buffer(Slot::Destination, 16)),
        Adma::new(Bank::FrameBuffer, buffer(Slot::Source, 16)),
    )
    .unwrap();
    assert_eq!(made.uio().bank, Bank::Dma);
    assert_eq!(made.uio().page_size, 0x1000);
    assert_eq!(made.vfrmbuf().buf().slot, Slot::Destination);
    assert_eq!(made.adma().buf().slot, Slot::Source);
}

#[test]
fn config_sets_geometry_and_addresses_and_resets_the_engine() {
    let mut board = Board::new(FRAME, CAPACITY);
    let mut encoder = pipeline(FRAME, CAPACITY);
    let first = encoder.config();
    assert!(!encoder.is_configured());
    assert_eq!(board.drive(&mut encoder, first), Ok(()));
    assert!(encoder.is_configured());
    let fb = Bank::FrameBuffer;
    let dma = Bank::Dma;
    assert_eq!(
        board.log,
        vec![
            Action::WriteReg {
                bank: fb,
                index: 0x30 / 4,
                value: 0x3f00_0000
            },
            Action::WriteReg {
                bank: fb,
                index: 0x10 / 4,
                value: 1280
            },
            Action::WriteReg {
                bank: fb,
                index: 0x18 / 4,
                value: 720
            },
            Action::WriteReg {
                bank: fb,
                index: 0x20 / 4,
                value: 3840
            },
            Action::WriteReg {
                bank: fb,
                index: 0x28 / 4,
                value: 20
            },
            Action::ReadReg {
                bank: dma,
                index: DMA_CONTROL
            },
            Action::WriteReg {
                bank: dma,
                index: DMA_CONTROL,
                value: 0x4
            },
            Action::ReadReg {
                bank: dma,
                index: DMA_CONTROL
            },
            Action::WriteReg {
                bank: dma,
                index: DMA_CONTROL,
                value: 0x0
            },
            Action::WriteReg {
                bank: dma,
                index: 0x48 / 4,
                value: 0x4000_0000
            },
        ]
    );
}

#[test]
fn encode_before_config_is_a_configuration_error() {
    let mut encoder = pipeline(FRAME, CAPACITY);
    assert_eq!(
        encoder.encode(&[0u8; 16]),
        Step::Failed(Error::ConfigurationError)
    );
    assert_eq!(
        encoder.encode_file(&[0u8; 16]),
        Step::Failed(Error::ConfigurationError)
    );
    assert_eq!(
        encoder.resume(Reply::Done),
        Step::Failed(Error::ConfigurationError)
    );
    assert!(encoder.session().is_idle());
}

#[test]
fn encode_end_to_end() {
    let mut board = Board::new(FRAME, CAPACITY);
    board.encoded = jpeg(12_345);
    let mut encoder = configured(&mut board, FRAME, CAPACITY);
    let pixels = vec![0u8; FRAME];
    let first = encoder.encode(&pixels);
    assert_eq!(board.drive(&mut encoder, first), Ok(()));
    let out = encoder.session().bytes().clone();
    assert!(!out.is_empty());
    assert!(out.len() <= 0x200000);
    assert_eq!(out, jpeg(12_345));
    assert!(encoder.adma().is_idle(board.regs[2][DMA_STATUS]));
    assert_eq!(board.mem[0], pixels);
    assert_eq!(board.regs[2][DMA_LENGTH], 0x200000);
    assert_eq!(encoder.session().word(), 12_345);
    assert_eq!(encoder.session().owner(Slot::Source), Owner::Device);
    assert_eq!(encoder.session().owner(Slot::Destination), Owner::Cpu);
    assert!(encoder.is_configured());
    assert!(board.file.is_none());
}

#[test]
fn encode_names_its_accesses_in_order() {
    let mut board = Board::new(32, 64);
    board.encoded = jpeg(10);
    board.busy_polls = 2;
    let mut encoder = configured(&mut board, 32, 64);
    let first = encoder.encode(&[9u8; 24]);
    assert_eq!(board.drive(&mut encoder, first), Ok(()));
    let src = Slot::Source;
    let dst = Slot::Destination;
    let fb = Bank::FrameBuffer;
    let dma = Bank::Dma;
    assert_eq!(
        board.log,
        vec![
            Action::Sync {
                slot: dst,
                owner: Owner::Device
            },
            Action::ReadOwner { slot: dst },
            Action::ReadReg {
                bank: dma,
                index: DMA_CONTROL
            },
            Action::WriteReg {
                bank: dma,
                index: DMA_CONTROL,
                value: 1
            },
            Action::CopyIn { slot: src, len: 24 },
            Action::Sync {
                slot: src,
                owner: Owner::Device
            },
            Action::ReadOwner { slot: src },
            Action::WriteReg {
                bank: fb,
                index: 0,
                value: 1
            },
            Action::WriteReg {
                bank: dma,
                index: DMA_LENGTH,
                value: 0x200000
            },
            Action::ReadReg {
                bank: dma,
                index: DMA_STATUS
            },
            Action::ReadReg {
                bank: dma,
                index: DMA_STATUS
            },
            Action::ReadReg {
                bank: Bank::Encoder,
                index: ENCODED_LENGTH
            },
            Action::Sync {
                slot: dst,
                owner: Owner::Cpu
            },
            Action::ReadOwner { slot: dst },
            Action::CopyOut { slot: dst, len: 10 },
        ]
    );
    assert_eq!(encoder.session().bytes(), &jpeg(10));
    assert_eq!(&board.mem[0][..24], &[9u8; 24][..]);
}

#[test]
fn encode_returns_exactly_the_reported_length() {
    for len in [0usize, 1, 2, 4095, 4096, 0x1ffff, 0x200000] {
        let mut board = Board::new(64, CAPACITY);
        board.encoded = jpeg(len);
        let mut encoder = configured(&mut board, 64, CAPACITY);
        let first = encoder.encode(&[0u8; 64]);
        assert_eq!(board.drive(&mut encoder, first), Ok(()));
        assert_eq!(encoder.session().bytes().len(), len);
        assert_eq!(encoder.session().bytes(), &jpeg(len));
    }
}

#[test]
fn encode_fails_when_more_is_reported_than_the_buffer_holds() {
    let mut board = Board::new(64, CAPACITY);
    board.encoded = jpeg(100);
    board.reported = Some(0x200001);
    let mut encoder = configured(&mut board, 64, CAPACITY);
    let first = encoder.encode(&[0u8; 64]);
    assert_eq!(board.drive(&mut encoder, first), Err(Error::SizeExceeded));
    assert!(board
        .position(|a| matches!(a, Action::CopyOut { .. }))
        .is_none());
    assert!(board
        .position(|a| *a
            == Action::Sync {
                slot: Slot::Destination,
                owner: Owner::Cpu
            })
        .is_none());
    assert!(encoder.session().bytes().is_empty());
    assert!(!encoder.is_configured());
}

#[test]
fn encode_of_too_many_pixels_fails_after_the_engine_was_started() {
    let mut board = Board::new(32, 64);
    let mut encoder = configured(&mut board, 32, 64);
    let first = encoder.encode(&[0u8; 33]);
    assert_eq!(board.drive(&mut encoder, first), Err(Error::SizeExceeded));
    assert_eq!(board.log.len(), 4);
    assert_eq!(
        board.log[3],
        Action::WriteReg {
            bank: Bank::Dma,
            index: DMA_CONTROL,
            value: 1
        }
    );
    assert_eq!(board.mem[0], vec![0xaa; 32]);
    assert!(!encoder.is_configured());
    assert_eq!(
        encoder.encode(&[0u8; 8]),
        Step::Failed(Error::ConfigurationError)
    );
    let first = encoder.config();
    assert_eq!(board.drive(&mut encoder, first), Ok(()));
    assert!(encoder.is_configured());
}

#[test]
fn second_encode_needs_the_source_buffer_back() {
    let mut board = Board::new(32, 64);
    board.encoded = jpeg(10);
    let mut encoder = configured(&mut board, 32, 64);
    let first = encoder.encode(&[1u8; 32]);
    assert_eq!(board.drive(&mut encoder, first), Ok(()));
    board.log.clear();
    let first = encoder.encode(&[2u8; 32]);
    assert_eq!(board.drive(&mut encoder, first), Err(Error::OwnershipError));
    assert!(board
        .position(|a| matches!(a, Action::CopyIn { .. }))
        .is_none());
    assert_eq!(board.mem[0], vec![1u8; 32]);
}

#[test]
fn encode_is_refused_in_the_middle_of_a_script() {
    let mut board = Board::new(32, 64);
    let mut encoder = configured(&mut board, 32, 64);
    let first = encoder.encode(&[0u8; 32]);
    assert!(matches!(first, Step::Perform(_)));
    assert_eq!(
        encoder.encode(&[0u8; 32]),
        Step::Failed(Error::ConfigurationError)
    );
    assert_eq!(encoder.config(), Step::Failed(Error::ConfigurationError));
    assert!(encoder.is_configured());
    assert!(!encoder.session().is_idle());
    assert!(matches!(
        encoder.resume(Reply::Done),
        Step::Perform(Action::ReadOwner { .. })
    ));
}

#[test]
fn encode_fails_when_the_handover_fails() {
    let mut board = Board::new(32, 64);
    let mut encoder = configured(&mut board, 32, 64);
    board.stuck_owner = Some("0\n".to_string());
    let first = encoder.encode(&[0u8; 32]);
    assert_eq!(board.drive(&mut encoder, first), Err(Error::OwnershipError));
    assert_eq!(board.log.len(), 2);
    assert!(!encoder.is_configured());
}

#[test]
fn encode_fails_when_an_access_fails() {
    let mut nth = 0;
    while nth < 14 {
        let mut board = Board::new(32, 64);
        board.encoded = jpeg(10);
        board.busy_polls = 1;
        let mut encoder = configured(&mut board, 32, 64);
        board.fail_at = Some(nth);
        let first = encoder.encode(&[0u8; 32]);
        assert_eq!(board.drive(&mut encoder, first), Err(Error::IoError));
        assert_eq!(board.log.len(), nth + 1);
        assert!(!encoder.is_configured());
        nth += 1;
    }
}

#[test]
fn encode_file_writes_the_encoded_bytes_out() {
    let mut board = Board::new(32, 64);
    board.encoded = jpeg(40);
    let mut encoder = configured(&mut board, 32, 64);
    let first = encoder.encode_file(&[0u8; 32]);
    assert_eq!(board.drive(&mut encoder, first), Ok(()));
    assert_eq!(board.file, Some(jpeg(40)));
    assert_eq!(board.log.last(), Some(&Action::Persist));
    assert_eq!(encoder.session().bytes(), &jpeg(40));
}

#[test]
fn encode_file_writes_nothing_when_encoding_fails() {
    let mut board = Board::new(32, 64);
    board.encoded = jpeg(40);
    board.reported = Some(65);
    let mut encoder = configured(&mut board, 32, 64);
    let first = encoder.encode_file(&[0u8; 32]);
    assert_eq!(board.drive(&mut encoder, first), Err(Error::SizeExceeded));
    assert!(board.file.is_none());
    let mut board = Board::new(32, 64);
    let mut encoder = configured(&mut board, 32, 64);
    let first = encoder.encode_file(&[0u8; 33]);
    assert_eq!(board.drive(&mut encoder, first), Err(Error::SizeExceeded));
    assert!(board.file.is_none());
    assert!(board.position(|a| *a == Action::Persist).is_none());
}

#[test]
fn nothing_is_closed_at_first() {
    let session = Session::new();
    let closed = session.closed();
    assert!(!closed.encoder && !closed.frame_buffer && !closed.dma);
    assert!(!closed.source && !closed.destination);
    assert!(!closed.window_closed(Bank::Dma));
    assert!(!closed.buffer_closed(Slot::Source));
    assert_eq!(closed, Closed::new());
}

#[test]
fn nothing_is_touched_after_it_was_closed() {
    let mut board = Board::new(16, 16);
    let mut session = Session::new();
    let vfb = Vfb::new(Bank::FrameBuffer, buffer(Slot::Source, 16));
    let read = vfb.read_ctrl();
    let stop = vfb.stop();
    let write = vfb.buf().write_to_buf(&[1, 2]).unwrap();
    let load = vfb.buf().read_from_buf(2).unwrap();
    let handover = vfb.buf().change_owner(Owner::Device);
    let first = session.submit(vfb.close(), Vec::new());
    assert_eq!(board.run(&mut session, first), Ok(()));
    let closed = session.closed();
    assert!(closed.frame_buffer && closed.source);
    assert!(!closed.encoder && !closed.dma && !closed.destination);
    assert!(closed.window_closed(Bank::FrameBuffer));
    assert!(closed.buffer_closed(Slot::Source));
    assert!(closed.blocks_command(read[0]));
    assert!(closed.blocks_command(write[0]));
    board.log.clear();
    for script in [read, stop, write, load, handover] {
        assert_eq!(
            session.submit(script, vec![1, 2]),
            Step::Failed(Error::ConfigurationError)
        );
        assert!(session.is_idle());
    }
    assert!(board.log.is_empty());
    let adma = Adma::new(Bank::Dma, buffer(Slot::Destination, 16));
    let first = session.submit(adma.read_status(), Vec::new());
    assert_eq!(board.run(&mut session, first), Ok(()));
    let first = session.submit(adma.buf().read_from_buf(2).unwrap(), Vec::new());
    assert_eq!(board.run(&mut session, first), Ok(()));
}

#[test]
fn closing_twice_is_refused() {
    let mut board = Board::new(16, 16);
    let mut session = Session::new();
    let first = session.submit(
        vec![Command::Unmap { bank: Bank::Dma }],
        Vec::new(),
    );
    assert_eq!(board.run(&mut session, first), Ok(()));
    assert_eq!(
        session.submit(vec![Command::Unmap { bank: Bank::Dma }], Vec::new()),
        Step::Failed(Error::ConfigurationError)
    );
    let first = session.submit(
        vec![Command::Release {
            slot: Slot::Destination,
        }],
        Vec::new(),
    );
    assert_eq!(board.run(&mut session, first), Ok(()));
    assert_eq!(
        session.submit(
            vec![Command::Release {
                slot: Slot::Destination
            }],
            Vec::new()
        ),
        Step::Failed(Error::ConfigurationError)
    );
    assert_eq!(board.log.len(), 2);
    let closed = session.closed();
    assert!(closed.dma && closed.destination);
    assert!(!closed.encoder && !closed.frame_buffer && !closed.source);
}

#[test]
fn script_stops_at_the_first_command_on_something_closed() {
    let mut board = Board::new(16, 16);
    let mut session = Session::new();
    let script = vec![
        Command::Write {
            bank: Bank::Dma,
            offset: 0x58,
            value: 7,
        },
        Command::Unmap { bank: Bank::Dma },
        Command::Write {
            bank: Bank::Dma,
            offset: 0x58,
            value: 8,
        },
    ];
    let first = session.submit(script, Vec::new());
    assert_eq!(
        board.run(&mut session, first),
        Err(Error::ConfigurationError)
    );
    assert_eq!(board.log.len(), 2);
    assert_eq!(board.regs[2][DMA_LENGTH], 7);
}

#[test]
fn closed_pipeline_refuses_to_work() {
    let mut board = Board::new(32, 64);
    let mut encoder = configured(&mut board, 32, 64);
    let first = encoder.close();
    assert_eq!(board.drive(&mut encoder, first), Ok(()));
    assert_eq!(
        board.log,
        vec![
            Action::Unmap {
                bank: Bank::Encoder
            },
            Action::Unmap {
                bank: Bank::FrameBuffer
            },
            Action::Release { slot: Slot::Source },
            Action::Release {
                slot: Slot::Destination
            },
            Action::Unmap { bank: Bank::Dma },
        ]
    );
    assert!(!encoder.is_configured());
    let closed = encoder.session().closed();
    assert!(closed.encoder && closed.frame_buffer && closed.dma);
    assert!(closed.source && closed.destination);
    board.log.clear();
    assert_eq!(
        encoder.encode(&[0u8; 8]),
        Step::Failed(Error::ConfigurationError)
    );
    assert_eq!(encoder.config(), Step::Failed(Error::ConfigurationError));
    assert_eq!(encoder.close(), Step::Failed(Error::ConfigurationError));
    assert!(board.log.is_empty());
    assert!(!encoder.is_configured());
}

#[test]
fn close_is_refused_in_the_middle_of_a_script() {
    let mut board = Board::new(32, 64);
    let mut encoder = configured(&mut board, 32, 64);
    let first = encoder.encode(&[0u8; 8]);
    assert!(matches!(first, Step::Perform(_)));
    assert_eq!(encoder.close(), Step::Failed(Error::ConfigurationError));
    assert!(encoder.is_configured());
    assert_eq!(encoder.session().closed(), Closed::new());
}

#[test]
fn second_encode_succeeds_once_the_cpu_has_the_source_buffer_back() {
    let mut board = Board::new(32, 64);
    board.encoded = jpeg(10);
    let mut encoder = configured(&mut board, 32, 64);
    let first = encoder.encode(&[1u8; 32]);
    assert_eq!(board.drive(&mut encoder, first), Ok(()));
    assert_eq!(encoder.session().bytes(), &jpeg(10));
    let reclaim = encoder.vfrmbuf().buf().change_owner(Owner::Cpu);
    let first = encoder.submit(reclaim, Vec::new());
    assert_eq!(board.drive(&mut encoder, first), Ok(()));
    assert!(encoder.is_configured());
    assert_eq!(encoder.session().owner(Slot::Source), Owner::Cpu);
    board.encoded = jpeg(20);
    let first = encoder.encode(&[2u8; 32]);
    assert_eq!(board.drive(&mut encoder, first), Ok(()));
    assert_eq!(encoder.session().bytes(), &jpeg(20));
    assert_eq!(board.mem[0], vec![2u8; 32]);
}

#[test]
fn submit_runs_a_script_of_a_part_in_the_session_of_the_pipeline() {
    let mut board = Board::new(32, 64);
    let mut encoder = configured(&mut board, 32, 64);
    let script = encoder.vfrmbuf().read_width();
    let first = encoder.submit(script, Vec::new());
    assert_eq!(board.drive(&mut encoder, first), Ok(()));
    assert_eq!(encoder.session().word(), 1280);
    let script = encoder.adma().read_s2mm_addr();
    let first = encoder.submit(script, Vec::new());
    assert!(matches!(first, Step::Perform(Action::ReadReg { .. })));
    assert_eq!(
        encoder.submit(Vec::new(), Vec::new()),
        Step::Failed(Error::ConfigurationError)
    );
    assert_eq!(encoder.resume(Reply::Failed), Step::Failed(Error::IoError));
    assert!(!encoder.is_configured());
}
