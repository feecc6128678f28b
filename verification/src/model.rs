//! What the commands achieve on a buffer that behaves: one whose owner is
//! whoever was last asked for, and whose bytes nobody changes but the CPU.
//!
//! The buffer here is a model for proofs. The theorems say what a session
//! does when the accesses it names are answered as such a buffer answers.

use crate::command::Action;
use crate::command::ReplyView;
use crate::command::Step;
use crate::session::Progress;
use crate::session::Wait;
use crate::text::all_digits;
use crate::text::digits_value;
use crate::text::number;
use crate::text::trim;
use crate::text::trim_end;
use crate::text::trim_start;
use crate::text::unsigned_digits;
use crate::udma::owner_in;
use crate::udma::Owner;
use crate::udma::Udma;
use vstd::prelude::*;

verus! {

/// A buffer that behaves.
pub struct Buffer {
    /// Who owns the buffer.
    pub owner: Owner,
    /// The bytes of the buffer.
    pub contents: Seq<u8>,
}

/// The text of the owner attribute of a buffer that `owner` owns: the
/// owner's number and a line feed.
pub open spec fn owner_text(owner: Owner) -> Seq<char> {
    match owner {
        Owner::Cpu => seq!['0', '\n'],
        Owner::Device => seq!['1', '\n'],
    }
}

impl Buffer {
    /// The buffer after `action`, and its reply. A handover makes the one
    /// asked for the owner; a copy into the buffer replaces its first
    /// bytes by those of `payload`; reading leaves it as it is.
    pub open spec fn answer(self, action: Action, payload: Seq<u8>) -> (Buffer, ReplyView) {
        match action {
            Action::Sync { slot, owner } => (Buffer { owner, ..self }, ReplyView::Done),
            Action::ReadOwner { slot } => (self, ReplyView::Text(owner_text(self.owner))),
            Action::CopyIn { slot, len } => if len <= payload.len() && len
                <= self.contents.len() {
                (
                    Buffer {
                        contents: payload.take(len as int) + self.contents.skip(len as int),
                        ..self
                    },
                    ReplyView::Done,
                )
            } else {
                (self, ReplyView::Failed)
            },
            Action::CopyOut { slot, len } => if len <= self.contents.len() {
                (self, ReplyView::Bytes(self.contents.take(len as int)))
            } else {
                (self, ReplyView::Failed)
            },
            _ => (self, ReplyView::Failed),
        }
    }
}

/// The session, its last step and the buffer after the buffer has
/// answered the accesses that the session named, at most `limit` of them.
pub open spec fn drive(state: Progress, step: Step, buffer: Buffer, limit: nat) -> (
    Progress,
    Step,
    Buffer,
)
    decreases limit,
{
    match step {
        Step::Perform(action) => if limit > 0 {
            let (after, reply) = buffer.answer(action, state.payload);
            let (next, named) = state.react(reply);
            drive(next, named, after, (limit - 1) as nat)
        } else {
            (state, step, buffer)
        },
        _ => (state, step, buffer),
    }
}

/// The owner attribute of a buffer that behaves names its owner.
pub proof fn lemma_owner_text_names_owner(owner: Owner)
    ensures
        owner_in(owner_text(owner)) == Ok::<Owner, crate::error::Error>(owner),
{
    let text = owner_text(owner);
    let digit = text.drop_last();
    assert(text[0] == '0' || text[0] == '1');
    assert(trim_start(text) == text);
    assert(text.last() == '\n');
    assert(trim_end(text) == trim_end(digit));
    assert(digit.last() == text[0]);
    assert(trim_end(digit) == digit);
    assert(trim(text) == digit);
    assert(unsigned_digits(digit) == digit);
    assert(all_digits(digit, 10));
    assert(digit.drop_last().len() == 0);
    assert(digits_value(digit.drop_last(), 10) == 0);
    assert(digits_value(digit, 10) == owner.code()) by {
        assert(digits_value(digit, 10) == digits_value(digit.drop_last(), 10) * 10
            + crate::text::digit_of(digit.last()));
    }
    assert(number(digit, 10, u32::MAX as nat) == Some(owner.code() as nat));
}

/// Handing a buffer that behaves to `owner` succeeds and leaves both the
/// buffer and the session's books with that owner.
pub proof fn lemma_change_owner(buf: Udma, owner: Owner, idle: Progress, buffer: Buffer)
    requires
        idle.wait == Wait::Idle,
        !idle.closed.buffer(buf.slot),
    ensures
        ({
            let (begun, first) = idle.begin(buf.change_owner_script(owner), Seq::empty());
            let (end, last, after) = drive(begun, first, buffer, 2);
            &&& last == Step::Done
            &&& end.wait == Wait::Idle
            &&& end.closed == idle.closed
            &&& end.owner(buf.slot) == owner
            &&& after == (Buffer { owner, ..buffer })
        }),
{
    let (begun, first) = idle.begin(buf.change_owner_script(owner), Seq::empty());
    let (synced, reply) = buffer.answer(first->Perform_0, begun.payload);
    let (asked, second) = begun.react(reply);
    let (read, text) = synced.answer(second->Perform_0, asked.payload);
    lemma_owner_text_names_owner(owner);
    let (end, last) = asked.react(text);
    assert(drive(end, last, read, 0) == (end, last, read));
    assert(drive(asked, second, synced, 1) == (end, last, read));
    assert(drive(begun, first, buffer, 2) == (end, last, read));
}

/// Asking twice for the same owner is asking once: the second request
/// succeeds and changes neither the buffer nor who the session holds to be
/// the owner.
pub proof fn lemma_change_owner_again(buf: Udma, owner: Owner, idle: Progress, buffer: Buffer)
    requires
        idle.wait == Wait::Idle,
        !idle.closed.buffer(buf.slot),
    ensures
        ({
            let (begun, first) = idle.begin(buf.change_owner_script(owner), Seq::empty());
            let (once, last, after) = drive(begun, first, buffer, 2);
            let (again, second) = once.begin(buf.change_owner_script(owner), Seq::empty());
            let (twice, end, then) = drive(again, second, after, 2);
            &&& last == Step::Done
            &&& end == Step::Done
            &&& then == after
            &&& then.owner == owner
            &&& twice.source == once.source
            &&& twice.destination == once.destination
            &&& twice.owner(buf.slot) == owner
        }),
{
    lemma_change_owner(buf, owner, idle, buffer);
    let (begun, first) = idle.begin(buf.change_owner_script(owner), Seq::empty());
    let (once, last, after) = drive(begun, first, buffer, 2);
    lemma_change_owner(buf, owner, once, after);
    let (again, second) = once.begin(buf.change_owner_script(owner), Seq::empty());
    let (synced, reply) = after.answer(second->Perform_0, again.payload);
    let (asked, third) = again.react(reply);
    let (read, text) = synced.answer(third->Perform_0, asked.payload);
    lemma_owner_text_names_owner(owner);
    let (twice, end) = asked.react(text);
    assert(drive(twice, end, read, 0) == (twice, end, read));
    assert(drive(asked, third, synced, 1) == (twice, end, read));
    assert(drive(again, second, after, 2) == (twice, end, read));
}

/// Bytes written to a buffer that behaves are the bytes read back: with
/// the CPU as owner, `write_to_buf` of `data` and then `read_from_buf` of
/// as many bytes both succeed, and the session's bytes are `data`.
pub proof fn lemma_write_then_read(buf: Udma, data: Seq<u8>, idle: Progress, buffer: Buffer)
    requires
        idle.wait == Wait::Idle,
        !idle.closed.buffer(buf.slot),
        idle.owner(buf.slot) == Owner::Cpu,
        buffer.contents.len() == buf.size,
        data.len() <= buf.size,
    ensures
        ({
            let len = data.len() as usize;
            let (begun, first) = idle.begin(buf.write_script(len), data);
            let (written, stored, filled) = drive(begun, first, buffer, 1);
            let (again, second) = written.begin(buf.read_script(len), Seq::empty());
            let (end, last, after) = drive(again, second, filled, 3);
            &&& stored == Step::Done
            &&& last == Step::Done
            &&& end.bytes == data
            &&& after.contents == filled.contents
        }),
{
    let len = data.len() as usize;
    let (begun, first) = idle.begin(buf.write_script(len), data);
    assert(first == Step::Perform(Action::CopyIn { slot: buf.slot, len }));
    let (filled, copied) = buffer.answer(first->Perform_0, begun.payload);
    let (written, stored) = begun.react(copied);
    assert(drive(written, stored, filled, 0) == (written, stored, filled));
    assert(drive(begun, first, buffer, 1) == (written, stored, filled));
    assert(filled.contents.take(len as int) =~= data);

    let (again, second) = written.begin(buf.read_script(len), Seq::empty());
    let (synced, reply) = filled.answer(second->Perform_0, again.payload);
    let (asked, third) = again.react(reply);
    let (read, text) = synced.answer(third->Perform_0, asked.payload);
    lemma_owner_text_names_owner(Owner::Cpu);
    let (copying, fourth) = asked.react(text);
    assert(fourth == Step::Perform(Action::CopyOut { slot: buf.slot, len }));
    let (kept, bytes) = read.answer(fourth->Perform_0, copying.payload);
    let (end, last) = copying.react(bytes);
    assert(drive(end, last, kept, 0) == (end, last, kept));
    assert(drive(copying, fourth, read, 1) == (end, last, kept));
    assert(drive(asked, third, synced, 2) == (end, last, kept));
    assert(drive(again, second, filled, 3) == (end, last, kept));
}

} // verus!
