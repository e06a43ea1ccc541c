//! Envelopes, mailbox handles and the bounded queues behind them.
use vstd::prelude::*;

verus! {

/// tokio's bounded mpsc sender, carried as an opaque value.
#[verifier::external_type_specification]
#[verifier::external_body]
#[verifier::reject_recursive_types(T)]
pub struct ExSender<T>(tokio::sync::mpsc::Sender<T>);

/// tokio's bounded mpsc receiver, carried as an opaque value.
#[verifier::external_type_specification]
#[verifier::external_body]
#[verifier::reject_recursive_types(T)]
pub struct ExReceiver<T>(tokio::sync::mpsc::Receiver<T>);

/// Relies on tokio's `Sender::clone`: another sender onto the same queue.
pub assume_specification<T>[ <tokio::sync::mpsc::Sender<T> as Clone>::clone ](
    s: &tokio::sync::mpsc::Sender<T>,
) -> tokio::sync::mpsc::Sender<T>;

/// The largest capacity a mailbox may be created with (the queue allows up to
/// `usize::MAX >> 3`, which is at least this on every target).
pub const MAX_CAPACITY: usize = 0x1fff_ffff;

/// The capacity units ask for when they request a mailbox.
pub const DEFAULT_CHANNEL_SIZE: usize = 32;

/// An envelope: who sent it, and what it carries.
#[derive(Debug)]
pub struct Message<P> {
    pub source_id: u16,
    pub payload: P,
}

impl<P> Message<P> {
    pub fn new(source_id: u16, payload: P) -> (r: Self)
        ensures
            r.source_id == source_id,
            r.payload == payload,
    {
        Self { source_id, payload }
    }

    pub fn source_id(&self) -> (r: u16)
        ensures
            r == self.source_id,
    {
        self.source_id
    }
}

/// A frame of bytes passed between processes; this core does not read it.
#[derive(Debug)]
pub struct RawPayload {
    pub to: u16,
    pub from: u16,
    pub payload: Vec<u8>,
}

/// Marks the type a unit's dispatch accepts: one variant per mailbox kind it listens on.
pub trait MessageSet {}

/// Why a message could not be queued; either way the envelope comes back untouched.
#[derive(Debug)]
pub enum TrySendError<P> {
    /// The queue holds as many messages as it was created for.
    Full(Message<P>),
    /// The receive end is gone.
    Closed(Message<P>),
}

impl<P> TrySendError<P> {
    pub open spec fn message(self) -> Message<P> {
        match self {
            TrySendError::Full(m) => m,
            TrySendError::Closed(m) => m,
        }
    }

    /// The envelope that was refused.
    pub fn into_message(self) -> (r: Message<P>)
        ensures
            r == self.message(),
    {
        match self {
            TrySendError::Full(m) => m,
            TrySendError::Closed(m) => m,
        }
    }
}

/// The sending side of a bounded queue of envelopes.
pub trait MessageSender: Sized {
    type PayloadType;
    type ReceiverType;

    /// Queues `msg` without waiting; on failure the envelope is handed back as it was.
    fn try_send(&self, msg: Message<Self::PayloadType>) -> (r: Result<(), TrySendError<Self::PayloadType>>)
        ensures
            r matches Err(e) ==> e.message() == msg,
    ;

    /// A new queue with room for `size` envelopes.
    fn create_channel(size: usize) -> (r: (Self, Self::ReceiverType))
        requires
            0 < size <= MAX_CAPACITY,
    ;

    /// Another sender onto the same queue.
    fn duplicate(&self) -> (r: Self);
}

/// Relies on tokio's `Sender::try_send`, which hands the value back inside either error.
#[verifier::external_body]
fn queue_try_send<P>(sender: &tokio::sync::mpsc::Sender<Message<P>>, msg: Message<P>) -> (r: Result<(), TrySendError<P>>)
    ensures
        r matches Err(e) ==> e.message() == msg,
{
    match sender.try_send(msg) {
        Ok(()) => Ok(()),
        Err(tokio::sync::mpsc::error::TrySendError::Full(m)) => Err(TrySendError::Full(m)),
        Err(tokio::sync::mpsc::error::TrySendError::Closed(m)) => Err(TrySendError::Closed(m)),
    }
}

/// Relies on tokio's `mpsc::channel`, which panics only on a capacity of zero or above
/// `usize::MAX >> 3`.
#[verifier::external_body]
fn queue_channel<P>(size: usize) -> (r: (tokio::sync::mpsc::Sender<Message<P>>, tokio::sync::mpsc::Receiver<Message<P>>))
    requires
        0 < size <= MAX_CAPACITY,
{
    tokio::sync::mpsc::channel(size)
}

impl<P> MessageSender for tokio::sync::mpsc::Sender<Message<P>> {
    type PayloadType = P;
    type ReceiverType = tokio::sync::mpsc::Receiver<Message<P>>;

    fn try_send(&self, msg: Message<P>) -> (r: Result<(), TrySendError<P>>) {
        queue_try_send(self, msg)
    }

    fn create_channel(size: usize) -> (r: (Self, Self::ReceiverType)) {
        queue_channel(size)
    }

    fn duplicate(&self) -> (r: Self) {
        self.clone()
    }
}

/// The send capability of one mailbox, tagged with the mailbox's identity.
/// Two handles are equal when their identities are.
#[derive(Debug)]
pub struct Handle<S> {
    pub dest_id: u16,
    pub sender: S,
}

impl<S: MessageSender> Handle<S> {
    pub fn new(dest_id: u16, sender: S) -> (r: Self)
        ensures
            r.dest_id == dest_id,
            r.sender == sender,
    {
        Self { dest_id, sender }
    }

    pub fn dest_id(&self) -> (r: u16)
        ensures
            r == self.dest_id,
    {
        self.dest_id
    }

    /// Queues `msg` on this mailbox without waiting.
    pub fn try_send(&self, msg: Message<S::PayloadType>) -> (r: Result<(), TrySendError<S::PayloadType>>)
        ensures
            r matches Err(e) ==> e.message() == msg,
    {
        self.sender.try_send(msg)
    }

    /// Hands `msg` to this mailbox, dropping it if refused, and records the hand-over in
    /// `log` as this mailbox's identity with the envelope.
    pub fn send_logged(&self, msg: Message<S::PayloadType>, log: &mut Ghost<Seq<(u16, Message<S::PayloadType>)>>)
        ensures
            final(log)@ == old(log)@.push((self.dest_id, msg)),
    {
        let ghost m = msg;
        let _ = self.try_send(msg);
        *log = Ghost(log@.push((self.dest_id, m)));
    }

    /// A new mailbox with identity `id` and room for `size` envelopes: its handle and
    /// its receive end.
    pub fn create_channel_with_size(id: u16, size: usize) -> (r: (Self, S::ReceiverType))
        requires
            0 < size <= MAX_CAPACITY,
        ensures
            r.0.dest_id == id,
    {
        let (sender, receiver) = S::create_channel(size);
        (Handle { dest_id: id, sender }, receiver)
    }

}

impl<S: MessageSender> Clone for Handle<S> {
    /// Another handle onto the same mailbox.
    fn clone(&self) -> (r: Self)
        ensures
            r.dest_id == self.dest_id,
    {
        Handle { dest_id: self.dest_id, sender: self.sender.duplicate() }
    }
}

impl<S> PartialEq for Handle<S> {
    fn eq(&self, other: &Self) -> (r: bool) {
        self.dest_id == other.dest_id
    }
}

impl<S> Eq for Handle<S> {

}

impl<S> vstd::std_specs::cmp::PartialEqSpecImpl for Handle<S> {
    open spec fn obeys_eq_spec() -> bool {
        true
    }

    open spec fn eq_spec(&self, other: &Self) -> bool {
        self.dest_id == other.dest_id
    }
}

/// The sending side of a unit's standard mailbox (a tokio mpsc sender). Kept opaque because
/// the payloads it carries hold such senders in turn, a recursion the declared sender type
/// cannot take.
#[verifier::external_body]
#[derive(Debug)]
pub struct StandardSender(pub tokio::sync::mpsc::Sender<Message<StandardPayload>>);

/// The receive end of a unit's standard mailbox.
#[verifier::external_body]
#[derive(Debug)]
pub struct StandardReceiver(pub tokio::sync::mpsc::Receiver<Message<StandardPayload>>);

/// A handle onto a unit's standard mailbox.
pub type StandardHandle = Handle<StandardSender>;

/// The control messages every unit accepts on its standard mailbox.
#[derive(Debug)]
pub enum StandardPayload {
    Shutdown,
    PollHandle,
    /// The answer to `PollHandle`: a handle onto the unit's standard mailbox.
    Handle(StandardHandle),
    PollState,
    /// The answer to `PollState`: the name of the unit's current state.
    State(Box<String>),
    Error(Box<String>),
    /// A freshly minted mailbox: its handle and its receive end.
    StandardChannel(StandardHandle, StandardReceiver),
    /// Bytes that came from another process: the peer's identity and the frame.
    RawInbound(u16, Vec<u8>),
    /// Bytes to go to another process: the peer's identity and the frame.
    RawOutbound(u16, Vec<u8>),
}

/// Relies on tokio's `Sender::try_send`, which hands the value back inside either error.
#[verifier::external_body]
fn standard_try_send(sender: &StandardSender, msg: Message<StandardPayload>) -> (r: Result<
    (),
    TrySendError<StandardPayload>,
>)
    ensures
        r matches Err(e) ==> e.message() == msg,
{
    match sender.0.try_send(msg) {
        Ok(()) => Ok(()),
        Err(tokio::sync::mpsc::error::TrySendError::Full(m)) => Err(TrySendError::Full(m)),
        Err(tokio::sync::mpsc::error::TrySendError::Closed(m)) => Err(TrySendError::Closed(m)),
    }
}

/// Which queue a standard sender feeds (tokio's `Sender::same_channel` tells two apart).
pub uninterp spec fn standard_queue(s: StandardSender) -> int;

/// Which queue a standard receive end drains.
pub uninterp spec fn standard_receiver_queue(r: StandardReceiver) -> int;

/// The bound the queue behind a standard sender was made with (tokio's `max_capacity`).
pub uninterp spec fn standard_bound(s: StandardSender) -> nat;

/// Relies on tokio's `mpsc::channel`, which panics only on a capacity of zero or above
/// `usize::MAX >> 3`, and returns the two ends of one new queue of bound `size`.
#[verifier::external_body]
pub(crate) fn standard_channel(size: usize) -> (r: (StandardSender, StandardReceiver))
    requires
        0 < size <= MAX_CAPACITY,
    ensures
        standard_queue(r.0) == standard_receiver_queue(r.1),
        standard_bound(r.0) == size,
{
    let (tx, rx) = tokio::sync::mpsc::channel(size);
    (StandardSender(tx), StandardReceiver(rx))
}

/// Relies on tokio's `Sender::clone`: another sender onto the same queue.
#[verifier::external_body]
pub(crate) fn standard_sender_clone(sender: &StandardSender) -> (r: StandardSender)
    ensures
        standard_queue(r) == standard_queue(*sender),
        standard_bound(r) == standard_bound(*sender),
{
    StandardSender(sender.0.clone())
}

impl MessageSender for StandardSender {
    type PayloadType = StandardPayload;
    type ReceiverType = StandardReceiver;

    fn try_send(&self, msg: Message<StandardPayload>) -> (r: Result<(), TrySendError<StandardPayload>>) {
        standard_try_send(self, msg)
    }

    fn create_channel(size: usize) -> (r: (Self, Self::ReceiverType)) {
        standard_channel(size)
    }

    fn duplicate(&self) -> (r: Self) {
        standard_sender_clone(self)
    }
}

} // verus!
