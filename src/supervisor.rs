//! The supervisor: the unit that keeps the registry of standard mailboxes, mints new ones on
//! request and launches new units.
use crate::messaging::{
    standard_channel, standard_queue, standard_receiver_queue, standard_bound,
    standard_sender_clone, Handle, Message, MessageSet, StandardHandle, StandardPayload,
    StandardReceiver, MAX_CAPACITY,
};
use crate::runtime::Runtime;
use crate::state_machine::{
    agree_from, can_leave, exits, exits_ok, lemma_can_leave_below_root, path, Components,
    ExtendedState, State, StateEnum, Transition,
};
use vstd::prelude::*;

verus! {

/// Identity→standard handle registry, kept in a hash map.
#[verifier::external_body]
pub struct Registry {
    map: hashbrown::HashMap<u16, StandardHandle>,
}

/// The registry's entries: each identity with the identity of the handle stored under it.
pub uninterp spec fn registry_view(r: Registry) -> Map<u16, u16>;

/// The registry's entries: each identity with the queue the handle stored under it feeds.
pub uninterp spec fn registry_queues(r: Registry) -> Map<u16, int>;

impl Registry {
    /// Relies on hashbrown's `HashMap::new`: an empty map.
    #[verifier::external_body]
    fn new() -> (r: Self)
        ensures
            registry_view(r).dom().is_empty(),
            registry_queues(r).dom().is_empty(),
    {
        Registry { map: hashbrown::HashMap::new() }
    }

    /// Relies on hashbrown's `HashMap::insert`: `id` maps to `handle` afterwards, replacing
    /// any earlier entry, and nothing else changes.
    #[verifier::external_body]
    fn insert(&mut self, id: u16, handle: StandardHandle)
        ensures
            registry_view(*final(self)) == registry_view(*old(self)).insert(id, handle.dest_id),
            registry_queues(*final(self)) == registry_queues(*old(self)).insert(
                id,
                standard_queue(handle.sender),
            ),
    {
        self.map.insert(id, handle);
    }

    /// Relies on hashbrown's `HashMap::get`: the entry under `id`, if any.
    #[verifier::external_body]
    fn get(&self, id: u16) -> (r: Option<&StandardHandle>)
        ensures
            r is Some == registry_view(*self).contains_key(id),
            r matches Some(h) ==> h.dest_id == registry_view(*self)[id] && standard_queue(h.sender)
                == registry_queues(*self)[id],
    {
        self.map.get(&id)
    }
}

/// Requests the supervisor serves.
#[derive(Debug)]
pub enum SupervisorPayload<W> {
    /// Start this work on the scheduler.
    Spawn(W),
    /// Mint a standard mailbox with this capacity for the sender.
    RequestNewStandardHandle(usize),
    Error(Box<String>),
}

/// Requests for a scheduler whose work stays on one thread.
#[derive(Debug)]
pub enum SupervisorLocalPayload<W> {
    SpawnLocal(W),
    RequestNewStandardHandle(usize),
    Error(Box<String>),
}

/// The sending side of the supervisor's own mailbox.
pub type SupervisorSender<R> = tokio::sync::mpsc::Sender<
    Message<SupervisorPayload<<R as Runtime>::Work>>,
>;

/// A handle onto the supervisor's own mailbox.
pub type SupervisorHandle<R> = Handle<SupervisorSender<R>>;

/// What the supervisor's dispatch accepts.
pub enum SupervisorMessageSet<R: Runtime> {
    StandardMessage(Message<StandardPayload>),
    SupervisorMessage(Message<SupervisorPayload<R::Work>>),
}

impl<R: Runtime> MessageSet for SupervisorMessageSet<R> {

}

/// The supervisor's handles onto its own mailboxes.
pub struct SupervisorHandles<R: Runtime> {
    pub standard_handle: StandardHandle,
    pub supervisor_handle: SupervisorHandle<R>,
}

/// The receive ends of the supervisor's mailboxes.
pub struct SupervisorReceivers<R: Runtime> {
    pub standard_receiver: StandardReceiver,
    pub supervisor_receiver: tokio::sync::mpsc::Receiver<Message<SupervisorPayload<R::Work>>>,
}

/// What the supervisor is started with: the first unit's standard handle and the work that
/// runs that unit.
pub struct SupervisorInitArgs<R: Runtime> {
    pub root_standard_handle: StandardHandle,
    pub root_future: R::Work,
}

/// The supervisor's context: the registry, the next identity to hand out, and the work that
/// starts the first unit until it has been launched; with a record of every message it has
/// handed to a mailbox (the mailbox's identity and the envelope) and of the work it has
/// handed to the scheduler, in order.
pub struct SupervisorExtendedState<R: Runtime> {
    pub blox: Registry,
    pub next_id: u16,
    pub root_future: Option<R::Work>,
    pub replies: Ghost<Seq<(u16, Message<StandardPayload>)>>,
    pub spawned: Ghost<Seq<R::Work>>,
}

/// The identity after `id`, or the last one when `id` is the last.
pub open spec fn identity_after(id: u16) -> u16 {
    if id < 2 {
        2
    } else if id < u16::MAX {
        (id + 1) as u16
    } else {
        u16::MAX
    }
}

/// Mailbox `h` was minted: it got the next identity, under which the registry now holds a
/// handle onto the same queue; nothing was sent or launched.
pub open spec fn minted<R: Runtime>(
    before: SupervisorExtendedState<R>,
    after: SupervisorExtendedState<R>,
    h: StandardHandle,
) -> bool {
    &&& before.next_id < u16::MAX
    &&& h.dest_id == before.next_id
    &&& after.next_id == h.dest_id + 1
    &&& registry_view(after.blox) == registry_view(before.blox).insert(h.dest_id, h.dest_id)
    &&& registry_queues(after.blox) == registry_queues(before.blox).insert(
        h.dest_id,
        standard_queue(h.sender),
    )
    &&& after.root_future == before.root_future
    &&& after.replies == before.replies
    &&& after.spawned == before.spawned
}

/// Whether a request for a mailbox with `capacity` can be met from `before`.
pub open spec fn can_mint<R: Runtime>(before: SupervisorExtendedState<R>, capacity: usize) -> bool {
    0 < capacity <= MAX_CAPACITY && before.next_id < u16::MAX
}

impl<R: Runtime> SupervisorExtendedState<R> {
    /// Every registered identity lies below the next one to be handed out, and each entry
    /// holds the handle of its own identity.
    pub open spec fn wf(self) -> bool {
        forall|id: u16| #[trigger]
            registry_view(self.blox).contains_key(id) ==> id < self.next_id
                && registry_view(self.blox)[id] == id
    }

    /// Mints a mailbox with the next identity and room for `queue_size` envelopes, and
    /// registers it. Nothing happens when the capacity is zero or too large, or when the
    /// identities are used up.
    pub fn request_new_standard_handle(&mut self, queue_size: usize) -> (r: Option<
        (StandardHandle, StandardReceiver),
    >)
        ensures
            r is Some == can_mint(*old(self), queue_size),
            r matches Some(p) ==> {
                &&& minted(*old(self), *final(self), p.0)
                &&& standard_receiver_queue(p.1) == standard_queue(p.0.sender)
                &&& standard_bound(p.0.sender) == queue_size
            },
            r is None ==> *final(self) == *old(self),
            old(self).wf() ==> final(self).wf(),
    {
        if queue_size == 0 || queue_size > MAX_CAPACITY || self.next_id == u16::MAX {
            return None;
        }
        let id = self.next_id;
        let (sender, rx) = standard_channel(queue_size);
        let handle = Handle { dest_id: id, sender };
        self.blox.insert(id, Handle { dest_id: id, sender: standard_sender_clone(&handle.sender) });
        self.next_id = id + 1;
        Some((handle, rx))
    }

    /// Hands `work` to the scheduler, and records it.
    pub fn spawn(&mut self, work: R::Work)
        ensures
            *final(self) == (SupervisorExtendedState {
                spawned: Ghost(old(self).spawned@.push(work)),
                ..*old(self)
            }),
    {
        let ghost w = work;
        R::spawn(work);
        self.spawned = Ghost(self.spawned@.push(w));
    }

    /// Takes the work that starts the first unit out of its slot.
    pub fn take_root_work(&mut self) -> (r: Option<R::Work>)
        ensures
            r == old(self).root_future,
            *final(self) == (SupervisorExtendedState { root_future: None, ..*old(self) }),
    {
        self.root_future.take()
    }

    /// The handle registered under `id`, if any.
    pub fn handle_for(&self, id: u16) -> (r: Option<&StandardHandle>)
        ensures
            r is Some == registry_view(self.blox).contains_key(id),
            r matches Some(h) ==> h.dest_id == registry_view(self.blox)[id] && standard_queue(
                h.sender,
            ) == registry_queues(self.blox)[id],
    {
        self.blox.get(id)
    }
}

impl<R: Runtime> ExtendedState for SupervisorExtendedState<R> {
    type InitArgs = SupervisorInitArgs<R>;

    open spec fn built_from(args: SupervisorInitArgs<R>, r: Self) -> bool {
        let id = args.root_standard_handle.dest_id;
        &&& registry_view(r.blox) == Map::<u16, u16>::empty().insert(id, id)
        &&& r.next_id == identity_after(id)
        &&& registry_queues(r.blox) == Map::<u16, int>::empty().insert(
            id,
            standard_queue(args.root_standard_handle.sender),
        )
        &&& r.root_future == Some(args.root_future)
        &&& r.replies@ == Seq::<(u16, Message<StandardPayload>)>::empty()
        &&& r.spawned@ == Seq::<R::Work>::empty()
    }

    /// Registers the first unit's handle; identities after it are handed out from 2 on
    /// (0 is the supervisor's, 1 the first unit's).
    fn new(args: SupervisorInitArgs<R>) -> (r: Self) {
        let id = args.root_standard_handle.dest_id;
        let mut blox = Registry::new();
        assert(registry_view(blox) =~= Map::<u16, u16>::empty());
        assert(registry_queues(blox) =~= Map::<u16, int>::empty());
        blox.insert(id, args.root_standard_handle);
        let next_id = if id < 2 {
            2
        } else if id < u16::MAX {
            id + 1
        } else {
            u16::MAX
        };
        SupervisorExtendedState {
            blox,
            next_id,
            root_future: Some(args.root_future),
            replies: Ghost(Seq::empty()),
            spawned: Ghost(Seq::empty()),
        }
    }
}

/// The supervisor's first state, and the root of its hierarchy. Leaving it launches the
/// first unit.
#[derive(Clone, Copy, PartialEq, Eq, Structural, Debug)]
pub struct Uninit;

/// The supervisor serving requests.
#[derive(Clone, Copy, PartialEq, Eq, Structural, Debug)]
pub struct Running;

/// The supervisor after a failure: it ignores every message.
#[derive(Clone, Copy, PartialEq, Eq, Structural, Debug)]
pub struct Error;

/// The supervisor's states: `Running` and `Error` sit below `Uninit`.
#[derive(Clone, Copy, PartialEq, Eq, Structural, Debug)]
pub enum SupervisorStateEnum {
    Uninit(Uninit),
    Running(Running),
    Error(Error),
}

/// Leaving `Uninit`: the work in the slot is handed to the scheduler and the slot is
/// emptied. Leaving it with an empty slot (a second start) is not allowed: the exit hook
/// requires a filled slot.
pub open spec fn launched_root<R: Runtime>(
    before: SupervisorExtendedState<R>,
    after: SupervisorExtendedState<R>,
) -> bool {
    &&& before.root_future is Some
    &&& after == (SupervisorExtendedState {
        root_future: None,
        spawned: Ghost(before.spawned@.push(before.root_future->Some_0)),
        ..before
    })
}

impl Uninit {
    /// Launches the work that runs the first unit, once: the slot is empty afterwards.
    pub fn on_exit<R: Runtime>(&self, ext: &mut SupervisorExtendedState<R>)
        requires
            old(ext).root_future is Some,
        ensures
            launched_root(*old(ext), *final(ext)),
    {
        let work = ext.take_root_work().unwrap();
        ext.spawn(work);
    }
}

/// The reply to a mailbox request: the new handle and its receive end, from `from`.
pub open spec fn channel_reply(from: u16, h: StandardHandle, rx: StandardReceiver) -> Message<
    StandardPayload,
> {
    Message { source_id: from, payload: StandardPayload::StandardChannel(h, rx) }
}

/// What the running supervisor, whose standard mailbox has identity `from`, does with a
/// message. `Spawn` hands its work to the scheduler. `RequestNewStandardHandle` mints a
/// mailbox of the requested capacity when it can, and, when the requester is registered,
/// hands the new handle and its receive end to the requester's registered handle. Nothing
/// else is sent or launched.
pub open spec fn serves<R: Runtime>(
    from: u16,
    before: SupervisorExtendedState<R>,
    msg: SupervisorMessageSet<R>,
    after: SupervisorExtendedState<R>,
) -> bool {
    match msg {
        SupervisorMessageSet::SupervisorMessage(m) => match m.payload {
            SupervisorPayload::Spawn(w) => after == (SupervisorExtendedState {
                spawned: Ghost(before.spawned@.push(w)),
                ..before
            }),
            SupervisorPayload::RequestNewStandardHandle(capacity) => if can_mint(before, capacity) {
                exists|mid: SupervisorExtendedState<R>, nh: StandardHandle, rx: StandardReceiver|
                    #![trigger minted(before, mid, nh), standard_receiver_queue(rx)]
                    {
                        &&& minted(before, mid, nh)
                        &&& standard_receiver_queue(rx) == standard_queue(nh.sender)
                        &&& standard_bound(nh.sender) == capacity
                        &&& if registry_view(mid.blox).contains_key(m.source_id) {
                            after == (SupervisorExtendedState {
                                replies: Ghost(
                                    mid.replies@.push(
                                        (
                                            registry_view(mid.blox)[m.source_id],
                                            channel_reply(from, nh, rx),
                                        ),
                                    ),
                                ),
                                ..mid
                            })
                        } else {
                            after == mid
                        }
                    }
            } else {
                after == before
            },
            SupervisorPayload::Error(_) => after == before,
        },
        _ => after == before,
    }
}

impl Running {
    /// Serves a request: `Spawn` hands the work to the scheduler; `RequestNewStandardHandle`
    /// mints a mailbox and sends it, as a `StandardChannel`, to the requester's standard
    /// mailbox when the requester is registered. Failed sends are dropped. Other messages are
    /// ignored. The supervisor never changes state here.
    pub fn handle_message<R: Runtime>(
        &self,
        ext: &mut SupervisorExtendedState<R>,
        h: &SupervisorHandles<R>,
        msg: SupervisorMessageSet<R>,
    )
        ensures
            serves(h.standard_handle.dest_id, *old(ext), msg, *final(ext)),
    {
        let from = h.standard_handle.dest_id;
        match msg {
            SupervisorMessageSet::SupervisorMessage(message) => {
                let source = message.source_id;
                match message.payload {
                    SupervisorPayload::Spawn(work) => ext.spawn(work),
                    SupervisorPayload::RequestNewStandardHandle(queue_size) => {
                        match ext.request_new_standard_handle(queue_size) {
                            Some((new_handle, rx)) => {
                                let ghost mid = *ext;
                                let ghost nh = new_handle;
                                let ghost grx = rx;
                                match ext.blox.get(source) {
                                    Some(requester) => {
                                        let reply = Message::new(
                                            from,
                                            StandardPayload::StandardChannel(new_handle, rx),
                                        );
                                        requester.send_logged(reply, &mut ext.replies);
                                    },
                                    None => {},
                                }
                                assert(minted(*old(ext), mid, nh));
                                assert(standard_receiver_queue(grx) == standard_queue(nh.sender));
                            },
                            None => {},
                        }
                    },
                    SupervisorPayload::Error(_) => {},
                }
            },
            SupervisorMessageSet::StandardMessage(_) => {},
        }
    }
}

impl StateEnum for SupervisorStateEnum {
    open spec fn parent_of(self) -> Self {
        SupervisorStateEnum::Uninit(Uninit)
    }

    open spec fn depth(self) -> nat {
        match self {
            SupervisorStateEnum::Uninit(_) => 0,
            _ => 1,
        }
    }

    open spec fn initial() -> Self {
        SupervisorStateEnum::Uninit(Uninit)
    }

    proof fn lemma_parent_depth(self) {
    }

    fn new() -> (r: Self) {
        SupervisorStateEnum::Uninit(Uninit)
    }

    fn parent(&self) -> (r: Self) {
        SupervisorStateEnum::Uninit(Uninit)
    }

    fn same(&self, other: &Self) -> (r: bool) {
        *self == *other
    }
}

/// The supervisor's types.
pub struct SupervisorComponents<R: Runtime> {
    pub runtime: core::marker::PhantomData<R>,
}

impl<R: Runtime> Components for SupervisorComponents<R> {
    type States = SupervisorStateEnum;
    type ExtendedState = SupervisorExtendedState<R>;
    type MessageSet = SupervisorMessageSet<R>;
    type Handles = SupervisorHandles<R>;
    type Receivers = SupervisorReceivers<R>;
}

impl<R: Runtime> State<SupervisorComponents<R>> for SupervisorStateEnum {
    open spec fn entry_rel(
        self,
        h: SupervisorHandles<R>,
        before: SupervisorExtendedState<R>,
        after: SupervisorExtendedState<R>,
    ) -> bool {
        after == before
    }

    open spec fn exit_rel(
        self,
        h: SupervisorHandles<R>,
        before: SupervisorExtendedState<R>,
        after: SupervisorExtendedState<R>,
    ) -> bool {
        match self {
            SupervisorStateEnum::Uninit(_) => launched_root(before, after),
            _ => after == before,
        }
    }

    open spec fn exit_ok(self, h: SupervisorHandles<R>, e: SupervisorExtendedState<R>) -> bool {
        match self {
            SupervisorStateEnum::Uninit(_) => e.root_future is Some,
            _ => true,
        }
    }

    open spec fn handle_rel(
        self,
        h: SupervisorHandles<R>,
        before: SupervisorExtendedState<R>,
        msg: SupervisorMessageSet<R>,
        after: SupervisorExtendedState<R>,
        t: Option<Transition<SupervisorStateEnum, SupervisorMessageSet<R>>>,
    ) -> bool {
        &&& t is None
        &&& match self {
            SupervisorStateEnum::Running(_) => serves(h.standard_handle.dest_id, before, msg, after),
            _ => after == before,
        }
    }

    fn on_entry(&self, ext: &mut SupervisorExtendedState<R>, h: &SupervisorHandles<R>) {
    }

    fn on_exit(&self, ext: &mut SupervisorExtendedState<R>, h: &SupervisorHandles<R>) {
        match self {
            SupervisorStateEnum::Uninit(s) => s.on_exit(ext),
            _ => {},
        }
    }

    fn handle_message(
        &self,
        ext: &mut SupervisorExtendedState<R>,
        h: &SupervisorHandles<R>,
        msg: SupervisorMessageSet<R>,
    ) -> (r: Option<Transition<SupervisorStateEnum, SupervisorMessageSet<R>>>) {
        match self {
            SupervisorStateEnum::Running(s) => s.handle_message(ext, h, msg),
            _ => {},
        }
        None
    }
}

/// Identities handed out one after another strictly increase and none is handed out twice:
/// each new identity was absent from the registry before, and both stay registered.
pub proof fn lemma_identities_never_reused<R: Runtime>(
    e0: SupervisorExtendedState<R>,
    e1: SupervisorExtendedState<R>,
    e2: SupervisorExtendedState<R>,
    h1: StandardHandle,
    h2: StandardHandle,
)
    requires
        e0.wf(),
        minted(e0, e1, h1),
        minted(e1, e2, h2),
    ensures
        h1.dest_id < h2.dest_id,
        !registry_view(e0.blox).contains_key(h1.dest_id),
        !registry_view(e1.blox).contains_key(h2.dest_id),
        registry_view(e2.blox).contains_key(h1.dest_id),
        registry_view(e2.blox).contains_key(h2.dest_id),
        e1.wf(),
        e2.wf(),
{
    assert(e1.wf());
    assert(e2.wf());
}

/// Every supervisor state's root path starts at `Uninit`.
pub proof fn lemma_supervisor_root(s: SupervisorStateEnum)
    ensures
        path(s)[0] == SupervisorStateEnum::Uninit(Uninit),
        path(SupervisorStateEnum::Uninit(Uninit)) == seq![SupervisorStateEnum::Uninit(Uninit)],
{
    let u = SupervisorStateEnum::Uninit(Uninit);
    assert(path(u) == seq![u]);
    if s != u {
        assert(path(s) == path(u).push(s));
    }
}

/// Starting the supervisor exits nothing but `Uninit` (whose slot is checked by its own
/// exit precondition), and once it runs, every move may run its exit hooks.
pub proof fn lemma_supervisor_start<R: Runtime>(h: SupervisorHandles<R>)
    ensures
        exits(SupervisorStateEnum::Uninit(Uninit), SupervisorStateEnum::Running(Running)).len() == 0,
        forall|e: SupervisorExtendedState<R>| #[trigger] exits_ok::<SupervisorComponents<R>>(
            exits(SupervisorStateEnum::Uninit(Uninit), SupervisorStateEnum::Running(Running)),
            h,
            e,
        ),
        can_leave::<SupervisorComponents<R>>(SupervisorStateEnum::Running(Running), h),
{
    let u = SupervisorStateEnum::Uninit(Uninit);
    let run = SupervisorStateEnum::Running(Running);
    lemma_supervisor_root(run);
    assert(path(run) == seq![u, run]);
    assert(agree_from(path(u), path(run), 1) == 1);
    assert(agree_from(path(u), path(run), 0) == 1);
    assert(exits(u, run) =~= Seq::<SupervisorStateEnum>::empty());
    assert forall|d: SupervisorStateEnum| #[trigger] path(d)[0] == path(run)[0] by {
        lemma_supervisor_root(d);
    }
    lemma_can_leave_below_root::<SupervisorComponents<R>>(run, h);
}

} // verus!
