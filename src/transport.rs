//! The decisions of one send to the journal socket.
//!
//! A payload is first sent as one datagram. Only when the kernel refuses it
//! as too long is it written to a memory file instead, which is sealed and
//! then handed over as a file descriptor on an empty datagram. The caller
//! performs each action that [`PayloadSend::step`] asks for and reports how it
//! went; this module only decides what comes next.
use vstd::prelude::*;

verus! {

/// Relies on `rustix::io::Errno::MSGSIZE` and `Errno::raw_os_error`: the
/// (positive) OS error code with which the kernel refuses a datagram over its
/// size limit.
#[verifier::external_body]
fn message_too_long_code() -> (r: i32)
    ensures
        r > 0,
{
    rustix::io::Errno::MSGSIZE.raw_os_error()
}

/// Where a send stands.
#[derive(Clone, Copy, Debug, PartialEq, Eq, Structural)]
pub enum SendStage {
    /// The payload is being sent as one datagram.
    Direct,
    /// A sealable memory file is being created.
    CreatingBuffer,
    /// The payload is being written to the memory file.
    WritingBuffer,
    /// The memory file is being sealed.
    Sealing,
    /// The sealed file's descriptor is being sent.
    SendingDescriptor,
    /// The send is over.
    Finished,
}

/// What the caller reports after performing an action.
#[derive(Clone, Copy, Debug, PartialEq, Eq, Structural)]
pub enum SendEvent {
    /// The action succeeded; for a send, with the number of bytes the kernel
    /// took.
    Completed(usize),
    /// The action failed with this OS error code (0 when the failure carries
    /// none).
    Failed(i32),
}

/// What the caller is to do next.
#[derive(Clone, Copy, Debug, PartialEq, Eq, Structural)]
pub enum SendAction {
    /// Send the payload as one datagram to the journal socket.
    SendDirect,
    /// Create an anonymous, sealable memory file.
    CreateBuffer,
    /// Write the whole payload to the memory file.
    WriteBuffer,
    /// Seal the memory file against writing, growing, shrinking and further
    /// sealing.
    SealBuffer,
    /// Send an empty datagram that carries the memory file's descriptor.
    SendDescriptor,
    /// The send succeeded; the kernel took this many bytes of datagram body.
    Succeed(usize),
    /// The send failed with this error code.
    Fail(i32),
}

/// The next stage and action after `event`, in `stage`, where `too_long` is
/// the error code of an oversized datagram.
pub open spec fn next_step(stage: SendStage, event: SendEvent, too_long: i32) -> (SendStage, SendAction) {
    match event {
        SendEvent::Completed(n) => match stage {
            SendStage::Direct => (SendStage::Finished, SendAction::Succeed(n)),
            SendStage::CreatingBuffer => (SendStage::WritingBuffer, SendAction::WriteBuffer),
            SendStage::WritingBuffer => (SendStage::Sealing, SendAction::SealBuffer),
            SendStage::Sealing => (SendStage::SendingDescriptor, SendAction::SendDescriptor),
            SendStage::SendingDescriptor => (SendStage::Finished, SendAction::Succeed(n)),
            SendStage::Finished => (SendStage::Finished, SendAction::Succeed(n)),
        },
        SendEvent::Failed(code) => if stage == SendStage::Direct && code == too_long {
            (SendStage::CreatingBuffer, SendAction::CreateBuffer)
        } else {
            (SendStage::Finished, SendAction::Fail(code))
        },
    }
}

/// The state of one send.
pub struct PayloadSend {
    stage: SendStage,
    too_long: i32,
}

impl PayloadSend {
    /// Where the send stands.
    pub closed spec fn stage(&self) -> SendStage {
        self.stage
    }

    /// The error code that triggers the fallback through a memory file.
    pub closed spec fn too_long(&self) -> i32 {
        self.too_long
    }

    /// Starts a send: its first action is always a direct send.
    pub fn new() -> (r: (PayloadSend, SendAction))
        ensures
            r.0.stage() == SendStage::Direct,
            r.0.too_long() > 0,
            r.1 == SendAction::SendDirect,
    {
        (PayloadSend { stage: SendStage::Direct, too_long: message_too_long_code() }, SendAction::SendDirect)
    }

    /// Whether the send is over.
    pub fn is_finished(&self) -> (r: bool)
        ensures
            r == (self.stage() == SendStage::Finished),
    {
        self.stage == SendStage::Finished
    }

    /// Takes the outcome of the last action and returns the next one.
    pub fn step(&mut self, event: SendEvent) -> (action: SendAction)
        requires
            old(self).stage() != SendStage::Finished,
        ensures
            (final(self).stage(), action) == next_step(old(self).stage(), event, old(self).too_long()),
            final(self).too_long() == old(self).too_long(),
    {
        let (stage, action) = match event {
            SendEvent::Completed(n) => match self.stage {
                SendStage::Direct => (SendStage::Finished, SendAction::Succeed(n)),
                SendStage::CreatingBuffer => (SendStage::WritingBuffer, SendAction::WriteBuffer),
                SendStage::WritingBuffer => (SendStage::Sealing, SendAction::SealBuffer),
                SendStage::Sealing => (SendStage::SendingDescriptor, SendAction::SendDescriptor),
                SendStage::SendingDescriptor => (SendStage::Finished, SendAction::Succeed(n)),
                SendStage::Finished => (SendStage::Finished, SendAction::Succeed(n)),
            },
            SendEvent::Failed(code) => if self.stage == SendStage::Direct && code == self.too_long {
                (SendStage::CreatingBuffer, SendAction::CreateBuffer)
            } else {
                (SendStage::Finished, SendAction::Fail(code))
            },
        };
        self.stage = stage;
        action
    }
}

/// The actions that follow `events`, reported one after another from
/// `stage`, up to the end of the send.
pub open spec fn actions_after(stage: SendStage, too_long: i32, events: Seq<SendEvent>) -> Seq<
    SendAction,
>
    decreases events.len(),
{
    if events.len() == 0 || stage == SendStage::Finished {
        Seq::empty()
    } else {
        let (next, action) = next_step(stage, events[0], too_long);
        seq![action] + actions_after(next, too_long, events.drop_first())
    }
}

/// The outcome of sending a payload of `len` bytes as one datagram to a
/// kernel whose datagrams hold at most `limit` bytes.
pub open spec fn direct_send_outcome(len: nat, limit: nat, too_long: i32) -> SendEvent {
    if len <= limit {
        SendEvent::Completed(len as usize)
    } else {
        SendEvent::Failed(too_long)
    }
}

proof fn lemma_send_descriptor_step(stage: SendStage, too_long: i32, events: Seq<SendEvent>, i: int)
    requires
        0 <= i < actions_after(stage, too_long, events).len(),
        actions_after(stage, too_long, events)[i] == SendAction::SendDescriptor,
    ensures
        i < events.len(),
        events[i] is Completed,
        i == 0 ==> stage == SendStage::Sealing,
        i > 0 ==> actions_after(stage, too_long, events)[i - 1] == SendAction::SealBuffer,
    decreases events.len(),
{
    let (next, action) = next_step(stage, events[0], too_long);
    let rest = events.drop_first();
    if i > 0 {
        lemma_send_descriptor_step(next, too_long, rest, i - 1);
        if i == 1 {
            assert(next == SendStage::Sealing);
        }
    }
}

/// A memory file's descriptor is only ever sent right after the file was
/// sealed, and only when sealing succeeded.
pub proof fn lemma_descriptor_only_after_seal(too_long: i32, events: Seq<SendEvent>, i: int)
    requires
        0 <= i < actions_after(SendStage::Direct, too_long, events).len(),
        actions_after(SendStage::Direct, too_long, events)[i] == SendAction::SendDescriptor,
    ensures
        i > 0,
        actions_after(SendStage::Direct, too_long, events)[i - 1] == SendAction::SealBuffer,
        events[i] is Completed,
{
    lemma_send_descriptor_step(SendStage::Direct, too_long, events, i);
}

proof fn lemma_no_buffer_after_direct(stage: SendStage, too_long: i32, events: Seq<SendEvent>, i: int)
    requires
        stage != SendStage::Direct,
        0 <= i < actions_after(stage, too_long, events).len(),
    ensures
        actions_after(stage, too_long, events)[i] != SendAction::CreateBuffer,
    decreases events.len(),
{
    if i > 0 {
        let (next, action) = next_step(stage, events[0], too_long);
        lemma_no_buffer_after_direct(next, too_long, events.drop_first(), i - 1);
    }
}

/// A memory file is only created when the direct send failed as too long.
pub proof fn lemma_buffer_only_on_oversize(too_long: i32, events: Seq<SendEvent>, i: int)
    requires
        0 <= i < actions_after(SendStage::Direct, too_long, events).len(),
        actions_after(SendStage::Direct, too_long, events)[i] == SendAction::CreateBuffer,
    ensures
        i == 0,
        events[0] == SendEvent::Failed(too_long),
{
    if i > 0 {
        let (next, action) = next_step(SendStage::Direct, events[0], too_long);
        lemma_no_buffer_after_direct(next, too_long, events.drop_first(), i - 1);
    }
}

/// A payload that fits in one datagram is sent directly: the send succeeds
/// at once and no memory file is created.
pub proof fn lemma_small_payload_sent_directly(
    len: nat,
    limit: nat,
    too_long: i32,
    events: Seq<SendEvent>,
)
    requires
        len <= limit,
        events.len() > 0,
        events[0] == direct_send_outcome(len, limit, too_long),
    ensures
        actions_after(SendStage::Direct, too_long, events) == seq![SendAction::Succeed(len as usize)],
        forall|i: int|
            0 <= i < actions_after(SendStage::Direct, too_long, events).len() ==> #[trigger] actions_after(
                SendStage::Direct,
                too_long,
                events,
            )[i] != SendAction::CreateBuffer,
{
    assert(actions_after(SendStage::Finished, too_long, events.drop_first()) =~= Seq::empty());
    assert(actions_after(SendStage::Direct, too_long, events) =~= seq![
        SendAction::Succeed(len as usize),
    ]);
}

/// A payload too long for one datagram goes through a memory file: when
/// creating, writing, sealing and the descriptor's send succeed, the send
/// succeeds, having created, written and sealed the file before its
/// descriptor was sent.
pub proof fn lemma_large_payload_sent_through_buffer(
    len: nat,
    limit: nat,
    too_long: i32,
    events: Seq<SendEvent>,
    sent: usize,
)
    requires
        len > limit,
        events.len() == 5,
        events[0] == direct_send_outcome(len, limit, too_long),
        events[1] is Completed,
        events[2] is Completed,
        events[3] is Completed,
        events[4] == SendEvent::Completed(sent),
    ensures
        actions_after(SendStage::Direct, too_long, events) == seq![
            SendAction::CreateBuffer,
            SendAction::WriteBuffer,
            SendAction::SealBuffer,
            SendAction::SendDescriptor,
            SendAction::Succeed(sent),
        ],
{
    let e1 = events.drop_first();
    let e2 = e1.drop_first();
    let e3 = e2.drop_first();
    let e4 = e3.drop_first();
    let e5 = e4.drop_first();
    assert(actions_after(SendStage::Finished, too_long, e5) =~= Seq::empty());
    assert(actions_after(SendStage::SendingDescriptor, too_long, e4) =~= seq![SendAction::Succeed(sent)]);
    assert(actions_after(SendStage::Sealing, too_long, e3) =~= seq![
        SendAction::SendDescriptor,
        SendAction::Succeed(sent),
    ]);
    assert(actions_after(SendStage::WritingBuffer, too_long, e2) =~= seq![
        SendAction::SealBuffer,
        SendAction::SendDescriptor,
        SendAction::Succeed(sent),
    ]);
    assert(actions_after(SendStage::CreatingBuffer, too_long, e1) =~= seq![
        SendAction::WriteBuffer,
        SendAction::SealBuffer,
        SendAction::SendDescriptor,
        SendAction::Succeed(sent),
    ]);
    assert(actions_after(SendStage::Direct, too_long, events) =~= seq![
        SendAction::CreateBuffer,
        SendAction::WriteBuffer,
        SendAction::SealBuffer,
        SendAction::SendDescriptor,
        SendAction::Succeed(sent),
    ]);
}

} // verus!
