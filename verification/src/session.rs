//! The session with the hardware: it carries out one script at a time,
//! one access after another, and keeps track of who owns each buffer and
//! of what has been closed.
//!
//! A session never touches the hardware. It names the next access, is told
//! what came back, and decides from that what follows.

use crate::command::buffer_of;
use crate::command::in_window;
use crate::command::register_offset;
use crate::command::script_in_window;
use crate::command::window_of;
use crate::command::word_index;
use crate::command::Action;
use crate::command::Bank;
use crate::command::Command;
use crate::command::Reply;
use crate::command::ReplyView;
use crate::command::Slot;
use crate::command::Step;
use crate::error::Error;
use crate::udma::owner_in;
use crate::udma::Owner;
use crate::udma::Udma;
use vstd::prelude::*;

verus! {

/// What a session is waiting for.
#[derive(Clone, Copy, Debug, PartialEq, Eq, Structural)]
pub enum Wait {
    /// Nothing: no script is being carried out.
    Idle,
    /// The acknowledgement of the access that completes the command.
    Ack,
    /// The value of a register.
    Value,
    /// The acknowledgement of a request to hand a buffer over.
    Synced,
    /// The text of the owner attribute.
    OwnerText,
    /// The bytes copied out of a buffer.
    Data,
}

/// Which register windows and buffers have been closed.
#[derive(Clone, Copy, Debug, PartialEq, Eq, Structural)]
pub struct Closed {
    /// The window of the encoder core.
    pub encoder: bool,
    /// The window of the frame-buffer reader.
    pub frame_buffer: bool,
    /// The window of the DMA engine.
    pub dma: bool,
    /// The buffer that pixels are read from.
    pub source: bool,
    /// The buffer that the encoded stream is stored in.
    pub destination: bool,
}

impl Closed {
    /// Nothing closed.
    pub open spec fn none() -> Closed {
        Closed {
            encoder: false,
            frame_buffer: false,
            dma: false,
            source: false,
            destination: false,
        }
    }

    /// Whether the window of `bank` has been closed.
    pub open spec fn window(self, bank: Bank) -> bool {
        match bank {
            Bank::Encoder => self.encoder,
            Bank::FrameBuffer => self.frame_buffer,
            Bank::Dma => self.dma,
        }
    }

    /// Whether the buffer in `slot` has been closed.
    pub open spec fn buffer(self, slot: Slot) -> bool {
        match slot {
            Slot::Source => self.source,
            Slot::Destination => self.destination,
        }
    }

    /// With the window of `bank` closed as well.
    pub open spec fn with_window(self, bank: Bank) -> Closed {
        match bank {
            Bank::Encoder => Closed { encoder: true, ..self },
            Bank::FrameBuffer => Closed { frame_buffer: true, ..self },
            Bank::Dma => Closed { dma: true, ..self },
        }
    }

    /// With the buffer in `slot` closed as well.
    pub open spec fn with_buffer(self, slot: Slot) -> Closed {
        match slot {
            Slot::Source => Closed { source: true, ..self },
            Slot::Destination => Closed { destination: true, ..self },
        }
    }

    /// Whether `command` reads or writes a register of a closed window, or
    /// works on a closed buffer.
    pub open spec fn blocks(self, command: Command) -> bool {
        ||| window_of(command) is Some && self.window(window_of(command)->0)
        ||| buffer_of(command) is Some && self.buffer(buffer_of(command)->0)
    }

    /// Nothing closed.
    pub fn new() -> (closed: Closed)
        ensures
            closed == Closed::none(),
    {
        Closed {
            encoder: false,
            frame_buffer: false,
            dma: false,
            source: false,
            destination: false,
        }
    }

    /// Whether the window of `bank` has been closed.
    pub fn window_closed(&self, bank: Bank) -> (closed: bool)
        ensures
            closed == self.window(bank),
    {
        match bank {
            Bank::Encoder => self.encoder,
            Bank::FrameBuffer => self.frame_buffer,
            Bank::Dma => self.dma,
        }
    }

    /// Whether the buffer in `slot` has been closed.
    pub fn buffer_closed(&self, slot: Slot) -> (closed: bool)
        ensures
            closed == self.buffer(slot),
    {
        match slot {
            Slot::Source => self.source,
            Slot::Destination => self.destination,
        }
    }

    /// Whether `command` reads or writes a register of a closed window, or
    /// works on a closed buffer.
    pub fn blocks_command(&self, command: Command) -> (blocked: bool)
        ensures
            blocked == self.blocks(command),
    {
        match command {
            Command::Write { bank, offset, value } => self.window_closed(bank),
            Command::SetBits { bank, offset, mask } => self.window_closed(bank),
            Command::ClearBits { bank, offset, mask } => self.window_closed(bank),
            Command::Read { bank, offset } => self.window_closed(bank),
            Command::WaitSet { bank, offset, mask } => self.window_closed(bank),
            Command::Transfer { slot, owner } => self.buffer_closed(slot),
            Command::Store { slot, len } => self.buffer_closed(slot),
            Command::Load { slot, len } => self.buffer_closed(slot),
            Command::LoadCounted { slot, capacity } => self.buffer_closed(slot),
            _ => false,
        }
    }
}

/// The state of a session, as contracts speak of it.
pub struct Progress {
    /// The owner of the source buffer, as far as the session knows.
    pub source: Owner,
    /// The owner of the destination buffer, as far as the session knows.
    pub destination: Owner,
    /// The script that is being carried out, or was last.
    pub script: Seq<Command>,
    /// The bytes that `Store` commands copy from.
    pub payload: Seq<u8>,
    /// The index of the command that is being carried out.
    pub pc: nat,
    /// What the session is waiting for.
    pub wait: Wait,
    /// The value that the last `Read` command read.
    pub word: u32,
    /// The bytes that the last `Load` or `LoadCounted` command copied out.
    pub bytes: Seq<u8>,
    /// What has been closed.
    pub closed: Closed,
}

impl Progress {
    /// The owner of the buffer in `slot`, as far as the session knows.
    pub open spec fn owner(self, slot: Slot) -> Owner {
        match slot {
            Slot::Source => self.source,
            Slot::Destination => self.destination,
        }
    }

    /// The state in which the buffer in `slot` is known to belong to `owner`.
    pub open spec fn with_owner(self, slot: Slot, owner: Owner) -> Progress {
        match slot {
            Slot::Source => Progress { source: owner, ..self },
            Slot::Destination => Progress { destination: owner, ..self },
        }
    }

    /// Abandoning the script with `error`.
    pub open spec fn fail(self, error: Error) -> (Progress, Step) {
        (Progress { wait: Wait::Idle, ..self }, Step::Failed(error))
    }

    /// The first access of a command on a register: a plain write is made
    /// at once, everything else begins by reading the register.
    pub open spec fn issue_register(self, bank: Bank, offset: usize) -> (Progress, Step) {
        match self.command() {
            Command::Write { bank: _, offset: _, value } => (
                Progress { wait: Wait::Ack, ..self },
                Step::Perform(Action::WriteReg { bank, index: word_index(offset), value }),
            ),
            _ => (
                Progress { wait: Wait::Value, ..self },
                Step::Perform(Action::ReadReg { bank, index: word_index(offset) }),
            ),
        }
    }

    /// The first access of a command on the buffer in `slot`. A handover to
    /// the device counts from the moment it is asked for. Bytes are copied
    /// in only while the CPU owns the buffer, and only as many as the
    /// payload holds. Before bytes are copied out the buffer is taken back
    /// for the CPU; a counted copy of more bytes than the capacity is
    /// refused.
    pub open spec fn issue_buffer(self, slot: Slot) -> (Progress, Step) {
        match self.command() {
            Command::Transfer { slot: _, owner } => (
                Progress {
                    wait: Wait::Synced,
                    ..if owner == Owner::Device {
                        self.with_owner(slot, Owner::Device)
                    } else {
                        self
                    }
                },
                Step::Perform(Action::Sync { slot, owner }),
            ),
            Command::Store { slot: _, len } => if self.owner(slot) != Owner::Cpu {
                self.fail(Error::OwnershipError)
            } else if len > self.payload.len() {
                self.fail(Error::SizeExceeded)
            } else {
                (Progress { wait: Wait::Ack, ..self }, Step::Perform(Action::CopyIn { slot, len }))
            },
            Command::LoadCounted { slot: _, capacity } => if self.word > capacity {
                self.fail(Error::SizeExceeded)
            } else {
                (
                    Progress { wait: Wait::Synced, ..self },
                    Step::Perform(Action::Sync { slot, owner: Owner::Cpu }),
                )
            },
            Command::Load { slot: _, len } => (
                Progress { wait: Wait::Synced, ..self },
                Step::Perform(Action::Sync { slot, owner: Owner::Cpu }),
            ),
            _ => self.fail(Error::IoError),
        }
    }

    /// The first access of a command that is on no register and no buffer
    /// in use: writing the output file, giving up, and closing, which
    /// counts from the moment it is asked for and is refused the second
    /// time.
    pub open spec fn issue_rest(self) -> (Progress, Step) {
        match self.command() {
            Command::Abort { error } => self.fail(error),
            Command::Unmap { bank } => if self.closed.window(bank) {
                self.fail(Error::ConfigurationError)
            } else {
                (
                    Progress { wait: Wait::Ack, closed: self.closed.with_window(bank), ..self },
                    Step::Perform(Action::Unmap { bank }),
                )
            },
            Command::Release { slot } => if self.closed.buffer(slot) {
                self.fail(Error::ConfigurationError)
            } else {
                (
                    Progress { wait: Wait::Ack, closed: self.closed.with_buffer(slot), ..self },
                    Step::Perform(Action::Release { slot }),
                )
            },
            Command::Persist => (
                Progress { wait: Wait::Ack, ..self },
                Step::Perform(Action::Persist),
            ),
            _ => self.fail(Error::IoError),
        }
    }

    /// Starting on the command at `pc`: its first access, or the end of the
    /// script, or the reason why the command cannot be carried out. A
    /// command on something that has been closed is refused with a
    /// configuration error.
    pub open spec fn issue(self) -> (Progress, Step) {
        if self.pc >= self.script.len() {
            (Progress { wait: Wait::Idle, ..self }, Step::Done)
        } else if self.closed.blocks(self.command()) {
            self.fail(Error::ConfigurationError)
        } else {
            let command = self.command();
            match (register_offset(command), window_of(command), buffer_of(command)) {
                (Some(offset), Some(bank), _) => self.issue_register(bank, offset),
                (_, _, Some(slot)) => self.issue_buffer(slot),
                _ => self.issue_rest(),
            }
        }
    }

    /// Going on to the command after the one at `pc`.
    pub open spec fn next(self) -> (Progress, Step) {
        (Progress { pc: self.pc + 1, ..self }).issue()
    }

    /// Taking `script` up, with `payload` for its `Store` commands. A
    /// session that is in the middle of a script refuses and stays as it is.
    pub open spec fn begin(self, script: Seq<Command>, payload: Seq<u8>) -> (Progress, Step) {
        if self.wait != Wait::Idle {
            (self, Step::Failed(Error::ConfigurationError))
        } else {
            (Progress { script, payload, pc: 0, ..self }).issue()
        }
    }

    /// The command that is being carried out.
    pub open spec fn command(self) -> Command {
        self.script[self.pc as int]
    }

    /// What follows once the owner attribute of the buffer in `slot` was
    /// read as `owner`: the state knows the owner; a handover that took
    /// effect is complete; a buffer that the CPU has back is copied out of;
    /// any other owner than the one wanted is an ownership error.
    pub open spec fn owner_known(self, slot: Slot, owner: Owner) -> (Progress, Step) {
        let known = self.with_owner(slot, owner);
        match self.command() {
            Command::Transfer { slot: _, owner: wanted } => if owner == wanted {
                known.next()
            } else {
                known.fail(Error::OwnershipError)
            },
            command => match load_len(command, self.word) {
                Some(len) => if owner == Owner::Cpu {
                    (
                        Progress { wait: Wait::Data, ..known },
                        Step::Perform(Action::CopyOut { slot, len }),
                    )
                } else {
                    known.fail(Error::OwnershipError)
                },
                None => self.fail(Error::IoError),
            },
        }
    }

    /// What follows from `reply` where the acknowledgement of the
    /// command's last access is outstanding: the next command, for a
    /// command that ends with an acknowledgement.
    pub open spec fn react_ack(self, reply: ReplyView) -> (Progress, Step) {
        match reply {
            ReplyView::Done => if ends_with_ack(self.command()) {
                self.next()
            } else {
                self.fail(Error::IoError)
            },
            _ => self.fail(Error::IoError),
        }
    }

    /// What follows from `reply` where the value of a register is
    /// outstanding.
    pub open spec fn react_value(self, reply: ReplyView) -> (Progress, Step) {
        match reply {
            ReplyView::Word(v) => match self.command() {
                Command::SetBits { bank, offset, mask } => (
                    Progress { wait: Wait::Ack, ..self },
                    Step::Perform(
                        Action::WriteReg { bank, index: word_index(offset), value: v | mask },
                    ),
                ),
                Command::ClearBits { bank, offset, mask } => (
                    Progress { wait: Wait::Ack, ..self },
                    Step::Perform(
                        Action::WriteReg { bank, index: word_index(offset), value: v & !mask },
                    ),
                ),
                Command::Read { bank, offset } => (Progress { word: v, ..self }).next(),
                Command::WaitSet { bank, offset, mask } => if v & mask == mask {
                    self.next()
                } else {
                    (self, Step::Perform(Action::ReadReg { bank, index: word_index(offset) }))
                },
                _ => self.fail(Error::IoError),
            },
            _ => self.fail(Error::IoError),
        }
    }

    /// What follows from `reply` where the acknowledgement of a handover
    /// is outstanding: the owner is read back.
    pub open spec fn react_synced(self, reply: ReplyView) -> (Progress, Step) {
        match (reply, synced_slot(self.command())) {
            (ReplyView::Done, Some(slot)) => (
                Progress { wait: Wait::OwnerText, ..self },
                Step::Perform(Action::ReadOwner { slot }),
            ),
            _ => self.fail(Error::IoError),
        }
    }

    /// What follows from `reply` where the text of the owner attribute is
    /// outstanding.
    pub open spec fn react_owner_text(self, reply: ReplyView) -> (Progress, Step) {
        match (reply, synced_slot(self.command())) {
            (ReplyView::Text(t), Some(slot)) => match owner_in(t) {
                Ok(found) => self.owner_known(slot, found),
                Err(e) => self.fail(e),
            },
            _ => self.fail(Error::IoError),
        }
    }

    /// What follows from `reply` where bytes of a buffer are outstanding:
    /// they are kept if they are as many as were asked for.
    pub open spec fn react_data(self, reply: ReplyView) -> (Progress, Step) {
        match (reply, load_len(self.command(), self.word)) {
            (ReplyView::Bytes(b), Some(len)) => if b.len() == len {
                (Progress { bytes: b, ..self }).next()
            } else {
                self.fail(Error::IoError)
            },
            _ => self.fail(Error::IoError),
        }
    }

    /// What follows from `reply` to the access that is outstanding. With
    /// nothing outstanding the reply is refused and the session stays as it
    /// is. A reply that reports a failure, or is of another kind than the
    /// access calls for, abandons the script with an I/O error.
    pub open spec fn react(self, reply: ReplyView) -> (Progress, Step) {
        if self.wait == Wait::Idle {
            (self, Step::Failed(Error::ConfigurationError))
        } else if self.pc >= self.script.len() {
            self.fail(Error::IoError)
        } else if self.closed.blocks(self.command()) {
            self.fail(Error::ConfigurationError)
        } else {
            match self.wait {
                Wait::Idle => self.fail(Error::IoError),
                Wait::Ack => self.react_ack(reply),
                Wait::Value => self.react_value(reply),
                Wait::Synced => self.react_synced(reply),
                Wait::OwnerText => self.react_owner_text(reply),
                Wait::Data => self.react_data(reply),
            }
        }
    }
}

/// Whether the last access of `command` is one that is only acknowledged:
/// a write to a register, a copy into a buffer, the writing of the output
/// file, or a close.
pub open spec fn ends_with_ack(command: Command) -> bool {
    match command {
        Command::Write { bank, offset, value } => true,
        Command::SetBits { bank, offset, mask } => true,
        Command::ClearBits { bank, offset, mask } => true,
        Command::Store { slot, len } => true,
        Command::Persist => true,
        Command::Unmap { bank } => true,
        Command::Release { slot } => true,
        _ => false,
    }
}

/// The buffer whose owner `command` changes, if it changes one.
pub open spec fn synced_slot(command: Command) -> Option<Slot> {
    match command {
        Command::Transfer { slot, owner } => Some(slot),
        Command::Load { slot, len } => Some(slot),
        Command::LoadCounted { slot, capacity } => Some(slot),
        _ => None,
    }
}

/// The number of bytes that `command` copies out of a buffer, if it copies
/// any, in a session whose word is `word`.
pub open spec fn load_len(command: Command, word: u32) -> Option<usize> {
    match command {
        Command::Load { slot, len } => Some(len),
        Command::LoadCounted { slot, capacity } => Some(word as usize),
        _ => None,
    }
}

impl Progress {
    /// The state and the step after `replies` have been taken one by one,
    /// from a state in which `first` was named.
    pub open spec fn run(self, first: Step, replies: Seq<ReplyView>) -> (Progress, Step)
        decreases replies.len(),
    {
        if replies.len() == 0 {
            (self, first)
        } else {
            self.run(first, replies.drop_last()).0.react(replies.last())
        }
    }
}

/// Taking replies one after another is taking the first of them and then
/// the rest.
pub proof fn lemma_run_in_two(
    state: Progress,
    first: Step,
    head: Seq<ReplyView>,
    tail: Seq<ReplyView>,
)
    ensures
        state.run(first, head + tail) == ({
            let (middle, step) = state.run(first, head);
            middle.run(step, tail)
        }),
    decreases tail.len(),
{
    if tail.len() == 0 {
        assert(head + tail =~= head);
    } else {
        lemma_run_in_two(state, first, head, tail.drop_last());
        assert((head + tail).drop_last() =~= head + tail.drop_last());
        assert((head + tail).last() == tail.last());
    }
}

/// The step after the first `k + 1` replies follows from the state after
/// the first `k` and the reply after them.
pub proof fn lemma_run_one_more(state: Progress, first: Step, replies: Seq<ReplyView>, k: int)
    requires
        0 <= k < replies.len(),
    ensures
        state.run(first, replies.take(k + 1)) == state.run(first, replies.take(k)).0.react(
            replies[k],
        ),
{
    assert(replies.take(k + 1).drop_last() =~= replies.take(k));
}

/// Once a script has ended, after the first `k` replies, no access is
/// named any more.
pub proof fn lemma_run_ended(state: Progress, first: Step, replies: Seq<ReplyView>, k: int)
    requires
        0 <= k <= replies.len(),
        state.run(first, replies.take(k)).0.wait == Wait::Idle,
        !(state.run(first, replies.take(k)).1 is Perform),
    ensures
        state.run(first, replies).0 == state.run(first, replies.take(k)).0,
        !(state.run(first, replies).1 is Perform),
{
    let (middle, step) = state.run(first, replies.take(k));
    lemma_run_in_two(state, first, replies.take(k), replies.skip(k));
    assert(replies.take(k) + replies.skip(k) =~= replies);
    lemma_idle_names_no_access(middle, step, replies.skip(k));
}

/// A session that carries no script out names no access, whatever it is
/// told, and stays as it is.
pub proof fn lemma_idle_names_no_access(state: Progress, first: Step, replies: Seq<ReplyView>)
    requires
        state.wait == Wait::Idle,
        !(first is Perform),
    ensures
        state.run(first, replies).0 == state,
        !(state.run(first, replies).1 is Perform),
    decreases replies.len(),
{
    if replies.len() > 0 {
        lemma_idle_names_no_access(state, first, replies.drop_last());
    }
}

/// Whether `command` is on the register of the window `bank` whose word
/// index is `index`.
pub open spec fn at_register(command: Command, bank: Bank, index: usize) -> bool {
    &&& window_of(command) == Some(bank)
    &&& register_offset(command) is Some
    &&& index == word_index(register_offset(command)->0)
}

/// Whether `step`, named in `state`, is in order: a register access is that
/// of the command the session is at, in a window that has not been closed;
/// a buffer is worked on only if it has not been closed; and bytes are
/// copied only into or out of a buffer that the CPU owns.
pub open spec fn in_order(state: Progress, step: Step) -> bool {
    match step {
        Step::Perform(Action::ReadReg { bank, index }) => {
            &&& state.pc < state.script.len()
            &&& at_register(state.command(), bank, index)
            &&& !state.closed.window(bank)
        },
        Step::Perform(Action::WriteReg { bank, index, value }) => {
            &&& state.pc < state.script.len()
            &&& at_register(state.command(), bank, index)
            &&& !state.closed.window(bank)
        },
        Step::Perform(Action::Sync { slot, owner }) => !state.closed.buffer(slot),
        Step::Perform(Action::ReadOwner { slot }) => !state.closed.buffer(slot),
        Step::Perform(Action::CopyIn { slot, len }) => {
            &&& state.owner(slot) == Owner::Cpu
            &&& !state.closed.buffer(slot)
        },
        Step::Perform(Action::CopyOut { slot, len }) => {
            &&& state.owner(slot) == Owner::Cpu
            &&& !state.closed.buffer(slot)
        },
        _ => true,
    }
}

/// Whether everything that is closed in `before` is closed in `after`.
pub open spec fn stays_closed(before: Closed, after: Closed) -> bool {
    &&& forall|bank: Bank| before.window(bank) ==> after.window(bank)
    &&& forall|slot: Slot| before.buffer(slot) ==> after.buffer(slot)
}

/// What holds of the first step on a command: the script, the payload and
/// the place in the script stay; what is closed stays closed; a step that
/// names no access leaves the session without a script, and a step that
/// names one leaves it waiting; the step is in order.
pub proof fn lemma_issue(state: Progress)
    ensures
        state.issue().0.script == state.script,
        state.issue().0.payload == state.payload,
        state.issue().0.pc == state.pc,
        stays_closed(state.closed, state.issue().0.closed),
        state.issue().1 is Perform <==> state.issue().0.wait != Wait::Idle,
        in_order(state.issue().0, state.issue().1),
{
}

/// What holds of every step of a session. It carries its script out in
/// order: a reply changes neither the script nor the payload, and the
/// session stays at its command or goes on to the one after it. A waiting
/// session goes on waiting exactly when it names another access. Every
/// register access is that of the command the session is at. Bytes move
/// between the CPU and a buffer only while the session knows the CPU to own
/// the buffer. Nothing that has been closed is touched again, and what is
/// closed stays closed.
pub proof fn lemma_react(state: Progress, reply: ReplyView)
    ensures
        state.react(reply).0.script == state.script,
        state.react(reply).0.payload == state.payload,
        state.react(reply).0.pc == state.pc || state.react(reply).0.pc == state.pc + 1,
        stays_closed(state.closed, state.react(reply).0.closed),
        state.wait != Wait::Idle ==> (state.react(reply).1 is Perform <==> state.react(reply).0.wait
            != Wait::Idle),
        state.wait != Wait::Idle ==> in_order(state.react(reply).0, state.react(reply).1),
{
    if state.wait != Wait::Idle && state.pc < state.script.len() && !state.closed.blocks(
        state.command(),
    ) {
        let stepped = Progress { pc: state.pc + 1, ..state };
        match state.wait {
            Wait::Idle => {},
            Wait::Ack => {
                lemma_issue(stepped);
            },
            Wait::Value => {
                match reply {
                    ReplyView::Word(v) => {
                        lemma_issue(stepped);
                        lemma_issue(Progress { word: v, ..stepped });
                    },
                    _ => {},
                }
            },
            Wait::Synced => {},
            Wait::OwnerText => {
                match (reply, synced_slot(state.command())) {
                    (ReplyView::Text(t), Some(slot)) => {
                        match owner_in(t) {
                            Ok(found) => {
                                let known = state.with_owner(slot, found);
                                assert(known.script == state.script);
                                assert(known.pc == state.pc);
                                assert(known.closed == state.closed);
                                lemma_issue(Progress { pc: state.pc + 1, ..known });
                            },
                            Err(e) => {},
                        }
                    },
                    _ => {},
                }
            },
            Wait::Data => {
                match reply {
                    ReplyView::Bytes(b) => {
                        lemma_issue(Progress { bytes: b, ..stepped });
                    },
                    _ => {},
                }
            },
        }
    }
}

/// No register outside the window is touched: where every register of the
/// script is aligned and lies inside a window of `page_size` bytes, so does
/// every register that the session names.
pub proof fn lemma_registers_in_window(state: Progress, reply: ReplyView, page_size: usize)
    requires
        state.wait != Wait::Idle,
        script_in_window(state.script, page_size),
    ensures
        (match state.react(reply).1 {
            Step::Perform(Action::ReadReg { bank, index }) => index * 4 + 4 <= page_size,
            Step::Perform(Action::WriteReg { bank, index, value }) => index * 4 + 4 <= page_size,
            _ => true,
        }),
{
    lemma_react(state, reply);
    let (after, step) = state.react(reply);
    if after.pc < after.script.len() {
        assert(register_offset(after.script[after.pc as int]) is Some ==> in_window(
            register_offset(after.script[after.pc as int])->0,
            page_size,
        ));
    }
}

/// No register outside the window is touched at the beginning of a script
/// either.
pub proof fn lemma_first_register_in_window(
    state: Progress,
    script: Seq<Command>,
    payload: Seq<u8>,
    page_size: usize,
)
    requires
        script_in_window(script, page_size),
    ensures
        (match state.begin(script, payload).1 {
            Step::Perform(Action::ReadReg { bank, index }) => index * 4 + 4 <= page_size,
            Step::Perform(Action::WriteReg { bank, index, value }) => index * 4 + 4 <= page_size,
            _ => true,
        }),
{
    if state.wait == Wait::Idle {
        lemma_begin(state, script, payload);
        let (after, step) = state.begin(script, payload);
        lemma_issue(Progress { script, payload, pc: 0, ..state });
        if after.pc < after.script.len() {
            assert(register_offset(after.script[after.pc as int]) is Some ==> in_window(
                register_offset(after.script[after.pc as int])->0,
                page_size,
            ));
        }
    }
}

/// A handover is left behind only when it was confirmed: a session that
/// is at a handover goes on to the next command only when the text of the
/// owner attribute comes back and names the owner that was wanted.
pub proof fn lemma_handover_confirmed(state: Progress, reply: ReplyView)
    requires
        state.wait != Wait::Idle,
        state.pc < state.script.len(),
        state.command() is Transfer,
    ensures
        state.react(reply).0.pc == state.pc + 1 ==> ({
            &&& state.wait == Wait::OwnerText
            &&& reply is Text
            &&& owner_in(reply->Text_0) == Ok::<Owner, Error>(state.command()->Transfer_owner)
            &&& state.react(reply) == (Progress {
                pc: state.pc + 1,
                ..state.with_owner(
                    state.command()->Transfer_slot,
                    state.command()->Transfer_owner,
                )
            }).issue()
        }),
{
    if !state.closed.blocks(state.command()) {
        let slot = state.command()->Transfer_slot;
        match state.wait {
            Wait::OwnerText => {
                match reply {
                    ReplyView::Text(t) => {
                        match owner_in(t) {
                            Ok(found) => {
                                let known = state.with_owner(slot, found);
                                assert(known.pc == state.pc);
                                lemma_issue(Progress { pc: state.pc + 1, ..known });
                            },
                            Err(e) => {},
                        }
                    },
                    _ => {},
                }
            },
            _ => {},
        }
    }
}

/// Bytes are kept only when they are as many as were asked for: a session
/// that is at a copy out of a buffer goes on to the next command only when
/// bytes come back, as many as the command says, and those are then the
/// session's bytes.
pub proof fn lemma_copy_is_whole(state: Progress, reply: ReplyView)
    requires
        state.wait != Wait::Idle,
        state.pc < state.script.len(),
        load_len(state.command(), state.word) is Some,
    ensures
        state.react(reply).0.pc == state.pc + 1 ==> ({
            &&& state.wait == Wait::Data
            &&& reply is Bytes
            &&& reply->Bytes_0.len() == load_len(state.command(), state.word)->0
            &&& state.react(reply).0.bytes == reply->Bytes_0
        }),
{
    if !state.closed.blocks(state.command()) {
        match state.wait {
            Wait::Data => {
                match reply {
                    ReplyView::Bytes(b) => {
                        lemma_issue(Progress { pc: state.pc + 1, bytes: b, ..state });
                    },
                    _ => {},
                }
            },
            Wait::OwnerText => {
                match (reply, synced_slot(state.command())) {
                    (ReplyView::Text(t), Some(slot)) => {
                        match owner_in(t) {
                            Ok(found) => {
                                let known = state.with_owner(slot, found);
                                assert(known.pc == state.pc);
                            },
                            Err(e) => {},
                        }
                    },
                    _ => {},
                }
            },
            _ => {},
        }
    }
}

/// The replies that report `values` as the values of a register, one
/// after another.
pub open spec fn words(values: Seq<u32>) -> Seq<ReplyView> {
    Seq::new(values.len(), |i: int| ReplyView::Word(values[i]))
}

/// A session that waits for bits of a register reads the register again
/// for every value in which they are not all set, and stays as it is.
pub proof fn lemma_waits_while_unset(state: Progress, values: Seq<u32>)
    requires
        state.wait == Wait::Value,
        state.pc < state.script.len(),
        state.command() is WaitSet,
        !state.closed.blocks(state.command()),
        forall|i: int|
            0 <= i < values.len() ==> (#[trigger] values[i]) & state.command()->WaitSet_mask
                != state.command()->WaitSet_mask,
    ensures
        ({
            let again = Step::Perform(
                Action::ReadReg {
                    bank: state.command()->WaitSet_bank,
                    index: word_index(state.command()->WaitSet_offset),
                },
            );
            state.run(again, words(values)) == (state, again)
        }),
    decreases values.len(),
{
    if values.len() > 0 {
        lemma_waits_while_unset(state, values.drop_last());
        assert(words(values).drop_last() =~= words(values.drop_last()));
        assert(words(values).last() == ReplyView::Word(values.last()));
    }
}

/// What holds of the first step of a script: it is in order, so the script
/// begins with a copy into a buffer only where the session knows the CPU
/// to own the buffer; with another owner the copy is refused with an
/// ownership error.
pub proof fn lemma_begin(state: Progress, script: Seq<Command>, payload: Seq<u8>)
    ensures
        state.wait == Wait::Idle ==> in_order(
            state.begin(script, payload).0,
            state.begin(script, payload).1,
        ),
        state.wait == Wait::Idle && script.len() > 0 ==> (match script[0] {
            Command::Store { slot, len } => state.owner(slot) != Owner::Cpu
                && !state.closed.buffer(slot) ==> state.begin(script, payload).1 == Step::Failed(
                Error::OwnershipError,
            ),
            _ => true,
        }),
{
    lemma_issue(Progress { script, payload, pc: 0, ..state });
}

/// A session with the hardware.
#[derive(Debug)]
pub struct Session {
    source: Owner,
    destination: Owner,
    script: Vec<Command>,
    payload: Vec<u8>,
    pc: usize,
    wait: Wait,
    word: u32,
    bytes: Vec<u8>,
    closed: Closed,
}

impl View for Session {
    type V = Progress;

    closed spec fn view(&self) -> Progress {
        Progress {
            source: self.source,
            destination: self.destination,
            script: self.script@,
            payload: self.payload@,
            pc: self.pc as nat,
            wait: self.wait,
            word: self.word,
            bytes: self.bytes@,
            closed: self.closed,
        }
    }
}

impl Session {
    /// The session that begins when the windows and the buffers have been
    /// opened: the CPU owns both buffers, nothing is closed, and no script
    /// is being carried out.
    pub fn new() -> (session: Session)
        ensures
            session@.source == Owner::Cpu,
            session@.destination == Owner::Cpu,
            session@.closed == Closed::none(),
            session@.wait == Wait::Idle,
            session@.script == Seq::<Command>::empty(),
            session@.payload == Seq::<u8>::empty(),
            session@.bytes == Seq::<u8>::empty(),
            session@.pc == 0,
            session@.word == 0,
    {
        Session {
            source: Owner::Cpu,
            destination: Owner::Cpu,
            script: Vec::new(),
            payload: Vec::new(),
            pc: 0,
            wait: Wait::Idle,
            word: 0,
            bytes: Vec::new(),
            closed: Closed::new(),
        }
    }

    /// What has been closed.
    pub fn closed(&self) -> (closed: Closed)
        ensures
            closed == self@.closed,
    {
        self.closed
    }

    /// The owner of the buffer in `slot`, as far as the session knows.
    pub fn owner(&self, slot: Slot) -> (owner: Owner)
        ensures
            owner == self@.owner(slot),
    {
        match slot {
            Slot::Source => self.source,
            Slot::Destination => self.destination,
        }
    }

    /// Whether no script is being carried out.
    pub fn is_idle(&self) -> (idle: bool)
        ensures
            idle == (self@.wait == Wait::Idle),
    {
        self.wait == Wait::Idle
    }

    /// The value that the last `Read` command read.
    pub fn word(&self) -> (word: u32)
        ensures
            word == self@.word,
    {
        self.word
    }

    /// The bytes that `Store` commands copy from.
    pub fn payload(&self) -> (payload: &Vec<u8>)
        ensures
            payload@ == self@.payload,
    {
        &self.payload
    }

    /// The bytes that the last `Load` or `LoadCounted` command copied out.
    pub fn bytes(&self) -> (bytes: &Vec<u8>)
        ensures
            bytes@ == self@.bytes,
    {
        &self.bytes
    }

    /// The first access of a command on a register.
    fn issue_register(&mut self, bank: Bank, offset: usize) -> (step: Step)
        requires
            old(self)@.pc < old(self)@.script.len(),
        ensures
            (final(self)@, step) == old(self)@.issue_register(bank, offset),
    {
        match self.script[self.pc] {
            Command::Write { bank: _, offset: _, value } => {
                self.wait = Wait::Ack;
                Step::Perform(Action::WriteReg { bank, index: offset / 4, value })
            },
            _ => {
                self.wait = Wait::Value;
                Step::Perform(Action::ReadReg { bank, index: offset / 4 })
            },
        }
    }

    /// The first access of a command on the buffer in `slot`.
    fn issue_buffer(&mut self, slot: Slot) -> (step: Step)
        requires
            old(self)@.pc < old(self)@.script.len(),
        ensures
            (final(self)@, step) == old(self)@.issue_buffer(slot),
    {
        match self.script[self.pc] {
            Command::Transfer { slot: _, owner } => {
                if owner == Owner::Device {
                    self.set_owner(slot, Owner::Device);
                }
                self.wait = Wait::Synced;
                Step::Perform(Action::Sync { slot, owner })
            },
            Command::Store { slot: _, len } => {
                if self.owner(slot) != Owner::Cpu {
                    self.fail(Error::OwnershipError)
                } else if len > self.payload.len() {
                    self.fail(Error::SizeExceeded)
                } else {
                    self.wait = Wait::Ack;
                    Step::Perform(Action::CopyIn { slot, len })
                }
            },
            Command::LoadCounted { slot: _, capacity } => {
                if self.word as usize > capacity {
                    self.fail(Error::SizeExceeded)
                } else {
                    self.wait = Wait::Synced;
                    Step::Perform(Action::Sync { slot, owner: Owner::Cpu })
                }
            },
            Command::Load { slot: _, len } => {
                self.wait = Wait::Synced;
                Step::Perform(Action::Sync { slot, owner: Owner::Cpu })
            },
            _ => self.fail(Error::IoError),
        }
    }

    /// The first access of a command that is on no register and no buffer
    /// in use.
    fn issue_rest(&mut self) -> (step: Step)
        requires
            old(self)@.pc < old(self)@.script.len(),
        ensures
            (final(self)@, step) == old(self)@.issue_rest(),
    {
        match self.script[self.pc] {
            Command::Abort { error } => self.fail(error),
            Command::Unmap { bank } => {
                if self.closed.window_closed(bank) {
                    self.fail(Error::ConfigurationError)
                } else {
                    self.close_window(bank);
                    self.wait = Wait::Ack;
                    Step::Perform(Action::Unmap { bank })
                }
            },
            Command::Release { slot } => {
                if self.closed.buffer_closed(slot) {
                    self.fail(Error::ConfigurationError)
                } else {
                    self.close_buffer(slot);
                    self.wait = Wait::Ack;
                    Step::Perform(Action::Release { slot })
                }
            },
            Command::Persist => {
                self.wait = Wait::Ack;
                Step::Perform(Action::Persist)
            },
            _ => self.fail(Error::IoError),
        }
    }

    /// Starts on the command at `pc`.
    fn issue(&mut self) -> (step: Step)
        ensures
            (final(self)@, step) == old(self)@.issue(),
    {
        if self.pc >= self.script.len() {
            self.wait = Wait::Idle;
            return Step::Done;
        }
        let command = self.script[self.pc];
        if self.closed.blocks_command(command) {
            return self.fail(Error::ConfigurationError);
        }
        match command {
            Command::Write { bank, offset, value } => self.issue_register(bank, offset),
            Command::SetBits { bank, offset, mask } => self.issue_register(bank, offset),
            Command::ClearBits { bank, offset, mask } => self.issue_register(bank, offset),
            Command::Read { bank, offset } => self.issue_register(bank, offset),
            Command::WaitSet { bank, offset, mask } => self.issue_register(bank, offset),
            Command::Transfer { slot, owner } => self.issue_buffer(slot),
            Command::Store { slot, len } => self.issue_buffer(slot),
            Command::Load { slot, len } => self.issue_buffer(slot),
            Command::LoadCounted { slot, capacity } => self.issue_buffer(slot),
            _ => self.issue_rest(),
        }
    }

    /// Records that the window of `bank` is closed.
    fn close_window(&mut self, bank: Bank)
        ensures
            final(self)@ == (Progress {
                closed: old(self)@.closed.with_window(bank),
                ..old(self)@
            }),
    {
        match bank {
            Bank::Encoder => {
                self.closed.encoder = true;
            },
            Bank::FrameBuffer => {
                self.closed.frame_buffer = true;
            },
            Bank::Dma => {
                self.closed.dma = true;
            },
        }
    }

    /// Records that the buffer in `slot` is closed.
    fn close_buffer(&mut self, slot: Slot)
        ensures
            final(self)@ == (Progress {
                closed: old(self)@.closed.with_buffer(slot),
                ..old(self)@
            }),
    {
        match slot {
            Slot::Source => {
                self.closed.source = true;
            },
            Slot::Destination => {
                self.closed.destination = true;
            },
        }
    }

    /// Records that the buffer in `slot` belongs to `owner`.
    fn set_owner(&mut self, slot: Slot, owner: Owner)
        ensures
            final(self)@ == old(self)@.with_owner(slot, owner),
    {
        match slot {
            Slot::Source => {
                self.source = owner;
            },
            Slot::Destination => {
                self.destination = owner;
            },
        }
    }

    /// Abandons the script.
    fn fail(&mut self, error: Error) -> (step: Step)
        ensures
            (final(self)@, step) == old(self)@.fail(error),
    {
        self.wait = Wait::Idle;
        Step::Failed(error)
    }

    /// Goes on to the command after the one at `pc`.
    fn next(&mut self) -> (step: Step)
        requires
            old(self)@.pc < old(self)@.script.len(),
        ensures
            (final(self)@, step) == old(self)@.next(),
    {
        assert(self.pc < self.script.len());
        self.pc = self.pc + 1;
        self.issue()
    }

    /// Whether the last access of `command` is one that is only acknowledged.
    fn ends_with_ack(command: Command) -> (ends: bool)
        ensures
            ends == ends_with_ack(command),
    {
        match command {
            Command::Write { bank, offset, value } => true,
            Command::SetBits { bank, offset, mask } => true,
            Command::ClearBits { bank, offset, mask } => true,
            Command::Store { slot, len } => true,
            Command::Persist => true,
            Command::Unmap { bank } => true,
            Command::Release { slot } => true,
            _ => false,
        }
    }

    /// The buffer whose owner `command` changes, if it changes one.
    fn synced_slot(command: Command) -> (slot: Option<Slot>)
        ensures
            slot == synced_slot(command),
    {
        match command {
            Command::Transfer { slot, owner } => Some(slot),
            Command::Load { slot, len } => Some(slot),
            Command::LoadCounted { slot, capacity } => Some(slot),
            _ => None,
        }
    }

    /// The number of bytes that the command at `pc` copies out of a buffer.
    fn load_len(&self) -> (len: Option<usize>)
        requires
            self@.pc < self@.script.len(),
        ensures
            len == load_len(self@.command(), self@.word),
    {
        match self.script[self.pc] {
            Command::Load { slot, len } => Some(len),
            Command::LoadCounted { slot, capacity } => Some(self.word as usize),
            _ => None,
        }
    }

    /// Goes on after the owner attribute of the buffer in `slot` was read.
    fn owner_known(&mut self, slot: Slot, owner: Owner) -> (step: Step)
        requires
            old(self)@.pc < old(self)@.script.len(),
        ensures
            (final(self)@, step) == old(self)@.owner_known(slot, owner),
    {
        match self.script[self.pc] {
            Command::Transfer { slot: _, owner: wanted } => {
                self.set_owner(slot, owner);
                if owner == wanted {
                    self.next()
                } else {
                    self.fail(Error::OwnershipError)
                }
            },
            _ => match self.load_len() {
                Some(len) => {
                    self.set_owner(slot, owner);
                    if owner == Owner::Cpu {
                        self.wait = Wait::Data;
                        Step::Perform(Action::CopyOut { slot, len })
                    } else {
                        self.fail(Error::OwnershipError)
                    }
                },
                None => self.fail(Error::IoError),
            },
        }
    }

    /// Goes on after the acknowledgement of the command's last access.
    fn react_ack(&mut self, reply: Reply) -> (step: Step)
        requires
            old(self)@.pc < old(self)@.script.len(),
        ensures
            (final(self)@, step) == old(self)@.react_ack(reply@),
    {
        match reply {
            Reply::Done => {
                if Session::ends_with_ack(self.script[self.pc]) {
                    self.next()
                } else {
                    self.fail(Error::IoError)
                }
            },
            _ => self.fail(Error::IoError),
        }
    }

    /// Goes on after the value of a register came back.
    fn react_value(&mut self, reply: Reply) -> (step: Step)
        requires
            old(self)@.pc < old(self)@.script.len(),
        ensures
            (final(self)@, step) == old(self)@.react_value(reply@),
    {
        match reply {
            Reply::Word(v) => match self.script[self.pc] {
                Command::SetBits { bank, offset, mask } => {
                    self.wait = Wait::Ack;
                    Step::Perform(Action::WriteReg { bank, index: offset / 4, value: v | mask })
                },
                Command::ClearBits { bank, offset, mask } => {
                    self.wait = Wait::Ack;
                    Step::Perform(Action::WriteReg { bank, index: offset / 4, value: v & !mask })
                },
                Command::Read { bank, offset } => {
                    self.word = v;
                    self.next()
                },
                Command::WaitSet { bank, offset, mask } => {
                    if v & mask == mask {
                        self.next()
                    } else {
                        Step::Perform(Action::ReadReg { bank, index: offset / 4 })
                    }
                },
                _ => self.fail(Error::IoError),
            },
            _ => self.fail(Error::IoError),
        }
    }

    /// Goes on after the acknowledgement of a handover.
    fn react_synced(&mut self, reply: Reply) -> (step: Step)
        requires
            old(self)@.pc < old(self)@.script.len(),
        ensures
            (final(self)@, step) == old(self)@.react_synced(reply@),
    {
        match (reply, Session::synced_slot(self.script[self.pc])) {
            (Reply::Done, Some(slot)) => {
                self.wait = Wait::OwnerText;
                Step::Perform(Action::ReadOwner { slot })
            },
            _ => self.fail(Error::IoError),
        }
    }

    /// Goes on after the text of the owner attribute came back.
    fn react_owner_text(&mut self, reply: Reply) -> (step: Step)
        requires
            old(self)@.pc < old(self)@.script.len(),
        ensures
            (final(self)@, step) == old(self)@.react_owner_text(reply@),
    {
        match (reply, Session::synced_slot(self.script[self.pc])) {
            (Reply::Text(t), Some(slot)) => match Udma::get_owner(t.as_str()) {
                Ok(found) => self.owner_known(slot, found),
                Err(e) => self.fail(e),
            },
            _ => self.fail(Error::IoError),
        }
    }

    /// Goes on after bytes of a buffer came back.
    fn react_data(&mut self, reply: Reply) -> (step: Step)
        requires
            old(self)@.pc < old(self)@.script.len(),
        ensures
            (final(self)@, step) == old(self)@.react_data(reply@),
    {
        match (reply, self.load_len()) {
            (Reply::Bytes(b), Some(len)) => {
                if b.len() == len {
                    self.bytes = b;
                    self.next()
                } else {
                    self.fail(Error::IoError)
                }
            },
            _ => self.fail(Error::IoError),
        }
    }

    /// Takes `script` up, with `payload` for its `Store` commands, and
    /// names its first access. A session that is in the middle of a script
    /// refuses with a configuration error and stays as it is.
    pub fn submit(&mut self, script: Vec<Command>, payload: Vec<u8>) -> (step: Step)
        ensures
            (final(self)@, step) == old(self)@.begin(script@, payload@),
    {
        if self.wait != Wait::Idle {
            return Step::Failed(Error::ConfigurationError);
        }
        self.script = script;
        self.payload = payload;
        self.pc = 0;
        self.issue()
    }

    /// Takes the reply to the outstanding access and names what follows:
    /// the next access, the end of the script, or its failure.
    pub fn resume(&mut self, reply: Reply) -> (step: Step)
        ensures
            (final(self)@, step) == old(self)@.react(reply@),
    {
        if self.wait == Wait::Idle {
            return Step::Failed(Error::ConfigurationError);
        }
        if self.pc >= self.script.len() {
            return self.fail(Error::IoError);
        }
        if self.closed.blocks_command(self.script[self.pc]) {
            return self.fail(Error::ConfigurationError);
        }
        match self.wait {
            Wait::Idle => self.fail(Error::IoError),
            Wait::Ack => self.react_ack(reply),
            Wait::Value => self.react_value(reply),
            Wait::Synced => self.react_synced(reply),
            Wait::OwnerText => self.react_owner_text(reply),
            Wait::Data => self.react_data(reply),
        }
    }
}

} // verus!
