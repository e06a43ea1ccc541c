//! The hierarchical state machine: states form a tree through `parent`, messages bubble up
//! the tree, and a transition exits and enters states around the lowest common ancestor.
use vstd::prelude::*;

verus! {

/// The types that make up one unit: its states, its private context, the messages its
/// dispatch accepts, the handles it owns and the receive ends of its mailboxes.
pub trait Components: Sized {
    type States: StateEnum;
    type ExtendedState;
    type MessageSet;
    type Handles;
    type Receivers;
}

/// A unit's closed set of states, arranged in a tree. The root is its own parent; every
/// other state's parent is one level closer to the root.
pub trait StateEnum: Sized + Copy {
    /// The parent of `self` in the hierarchy.
    spec fn parent_of(self) -> Self;

    /// How many steps separate `self` from the root.
    spec fn depth(self) -> nat;

    /// The state a new machine starts in.
    spec fn initial() -> Self;

    proof fn lemma_parent_depth(self)
        ensures
            (self.parent_of() == self) == (self.depth() == 0),
            self.depth() > 0 ==> self.parent_of().depth() + 1 == self.depth(),
    ;

    /// The state a new machine starts in.
    fn new() -> (r: Self)
        ensures
            r == Self::initial(),
    ;

    fn parent(&self) -> (r: Self)
        ensures
            r == self.parent_of(),
    ;

    fn same(&self, other: &Self) -> (r: bool)
        ensures
            r == (*self == *other),
    ;
}

/// What a handler asks for after a message: move to a state (which may be the current one),
/// or hand the message to the parent state.
pub enum Transition<T, M> {
    To(T),
    Parent(M),
}

/// The behaviour of a unit's states: entry and exit hooks and the message handler, each
/// described by a relation between the unit's context before and after.
pub trait State<C: Components>: StateEnum {

    spec fn entry_rel(self, h: C::Handles, before: C::ExtendedState, after: C::ExtendedState) -> bool;

    spec fn exit_rel(self, h: C::Handles, before: C::ExtendedState, after: C::ExtendedState) -> bool;

    /// When the state may be left: its exit hook requires this of the context.
    spec fn exit_ok(self, h: C::Handles, e: C::ExtendedState) -> bool;

    spec fn handle_rel(
        self,
        h: C::Handles,
        before: C::ExtendedState,
        msg: C::MessageSet,
        after: C::ExtendedState,
        t: Option<Transition<C::States, C::MessageSet>>,
    ) -> bool;

    fn on_entry(&self, ext: &mut C::ExtendedState, h: &C::Handles)
        ensures
            self.entry_rel(*h, *old(ext), *final(ext)),
    ;

    fn on_exit(&self, ext: &mut C::ExtendedState, h: &C::Handles)
        requires
            self.exit_ok(*h, *old(ext)),
        ensures
            self.exit_rel(*h, *old(ext), *final(ext)),
    ;

    fn handle_message(&self, ext: &mut C::ExtendedState, h: &C::Handles, msg: C::MessageSet) -> (r: Option<
        Transition<C::States, C::MessageSet>,
    >)
        ensures
            self.handle_rel(*h, *old(ext), msg, *final(ext), r),
    ;
}

/// Builds a unit's context from the arguments it is started with.
pub trait ExtendedState: Sized {
    type InitArgs;

    spec fn built_from(args: Self::InitArgs, r: Self) -> bool;

    fn new(args: Self::InitArgs) -> (r: Self)
        ensures
            Self::built_from(args, r),
    ;
}

/// The states from the root down to `s`, both included.
pub open spec fn path<S: StateEnum>(s: S) -> Seq<S>
    decreases s.depth(),
{
    if s.depth() == 0 || s.parent_of().depth() >= s.depth() {
        seq![s]
    } else {
        path(s.parent_of()).push(s)
    }
}

/// The first index, from `i` on, where `p` and `q` differ (or one of them ends).
pub open spec fn agree_from<S>(p: Seq<S>, q: Seq<S>, i: int) -> int
    decreases p.len() - i,
{
    if 0 <= i && i < p.len() && i < q.len() && p[i] == q[i] {
        agree_from(p, q, i + 1)
    } else {
        i
    }
}

/// How many states the two root paths share: the depth just below their lowest common
/// ancestor.
pub open spec fn lca_index<S>(p: Seq<S>, q: Seq<S>) -> int {
    agree_from(p, q, 0)
}

/// The index in both paths from which states are exited and entered. A move to the current
/// state itself exits and re-enters that state.
pub open spec fn divergence<S: StateEnum>(cur: S, dest: S) -> int {
    let k = lca_index(path(cur), path(dest));
    if k == path(cur).len() && k == path(dest).len() {
        k - 1
    } else {
        k
    }
}

/// The states left on a move from `cur` to `dest`, leaf first.
pub open spec fn exits<S: StateEnum>(cur: S, dest: S) -> Seq<S> {
    path(cur).subrange(divergence(cur, dest), path(cur).len() as int).reverse()
}

/// The states entered on a move from `cur` to `dest`, outermost first.
pub open spec fn entries<S: StateEnum>(cur: S, dest: S) -> Seq<S> {
    path(dest).subrange(divergence(cur, dest), path(dest).len() as int)
}

/// The exit hooks of `xs` may run one after another from context `e`: each state's exit
/// precondition holds on whatever context the hooks before it leave.
pub open spec fn exits_ok<C: Components>(xs: Seq<C::States>, h: C::Handles, e: C::ExtendedState) -> bool
    where
        C::States: State<C>,
    decreases xs.len(),
{
    if xs.len() == 0 {
        true
    } else {
        &&& xs[0].exit_ok(h, e)
        &&& forall|e2: C::ExtendedState| #[trigger]
            xs[0].exit_rel(h, e, e2) ==> exits_ok::<C>(xs.drop_first(), h, e2)
    }
}

/// Every move out of `cur` may run its exit hooks, whatever the context.
pub open spec fn can_leave<C: Components>(cur: C::States, h: C::Handles) -> bool
    where
        C::States: State<C>,
{
    forall|d: C::States, e: C::ExtendedState| #[trigger] exits_ok::<C>(exits(cur, d), h, e)
}

/// One hook call.
pub ghost enum Hook<S> {
    Exit(S),
    Entry(S),
}

/// The hooks a move from `cur` to `dest` runs, in order.
pub open spec fn transition_hooks<S: StateEnum>(cur: S, dest: S) -> Seq<Hook<S>> {
    exits(cur, dest).map_values(|s: S| Hook::Exit(s)) + entries(cur, dest).map_values(
        |s: S| Hook::Entry(s),
    )
}

pub open spec fn hook_holds<C: Components>(
    hook: Hook<C::States>,
    h: C::Handles,
    before: C::ExtendedState,
    after: C::ExtendedState,
) -> bool
    where
        C::States: State<C>,
{
    match hook {
        Hook::Exit(s) => s.exit_rel(h, before, after),
        Hook::Entry(s) => s.entry_rel(h, before, after),
    }
}

/// `trace` lists the context before each hook and after the last one.
pub open spec fn trace_follows<C: Components>(
    hooks: Seq<Hook<C::States>>,
    h: C::Handles,
    trace: Seq<C::ExtendedState>,
) -> bool
    where
        C::States: State<C>,
{
    &&& trace.len() == hooks.len() + 1
    &&& forall|i: int|
        0 <= i < hooks.len() ==> #[trigger] hook_holds::<C>(hooks[i], h, trace[i], trace[i + 1])
}

/// Running `hooks` in order takes the context from `before` to `after`.
pub open spec fn hooks_ran<C: Components>(
    hooks: Seq<Hook<C::States>>,
    h: C::Handles,
    before: C::ExtendedState,
    after: C::ExtendedState,
) -> bool
    where
        C::States: State<C>,
{
    exists|trace: Seq<C::ExtendedState>|
        {
            &&& #[trigger] trace_follows::<C>(hooks, h, trace)
            &&& trace[0] == before
            &&& trace[hooks.len() as int] == after
        }
}

/// The outcomes of dispatching `msg` against state `s`: its handler runs; a transition is
/// carried out; a message handed up is dispatched against the parent, and handed back as
/// an error when `s` is the root.
pub open spec fn dispatched<C: Components>(
    s: C::States,
    h: C::Handles,
    before: C::ExtendedState,
    msg: C::MessageSet,
    cur: C::States,
    after: C::ExtendedState,
    cur_after: C::States,
    r: Result<(), C::MessageSet>,
) -> bool
    where
        C::States: State<C>,
    decreases s.depth(),
{
    exists|mid: C::ExtendedState, t: Option<Transition<C::States, C::MessageSet>>|
        {
            &&& #[trigger] s.handle_rel(h, before, msg, mid, t)
            &&& match t {
                None => after == mid && cur_after == cur && r is Ok,
                Some(Transition::To(dest)) => {
                    &&& cur_after == dest
                    &&& hooks_ran::<C>(transition_hooks(cur, dest), h, mid, after)
                    &&& r is Ok
                },
                Some(Transition::Parent(m)) => {
                    if s.depth() == 0 || s.parent_of().depth() >= s.depth() {
                        after == mid && cur_after == cur && r == Err::<(), C::MessageSet>(m)
                    } else {
                        dispatched::<C>(s.parent_of(), h, mid, m, cur, after, cur_after, r)
                    }
                },
            }
        }
}

/// A unit's state machine: exactly one current state, the unit's context, and its own handles.
pub struct StateMachine<C: Components> {
    pub current_state: C::States,
    pub extended_state: C::ExtendedState,
    pub self_handles: C::Handles,
}

impl<C: Components> StateMachine<C> where C::States: State<C> {
    /// A machine in the initial state.
    pub fn new(extended_state: C::ExtendedState, self_handles: C::Handles) -> (r: Self)
        ensures
            r.current_state == C::States::initial(),
            r.extended_state == extended_state,
            r.self_handles == self_handles,
    {
        StateMachine { current_state: C::States::new(), extended_state, self_handles }
    }

    /// The states from the root down to `s`.
    fn build_state_path(s: C::States) -> (r: Vec<C::States>)
        ensures
            r@ == path(s),
        decreases s.depth(),
    {
        let p = s.parent();
        proof {
            s.lemma_parent_depth();
        }
        if p.same(&s) {
            vec![s]
        } else {
            let mut v = Self::build_state_path(p);
            v.push(s);
            v
        }
    }

    /// How many leading states the two paths share.
    fn find_lca_index(current_path: &Vec<C::States>, dest_path: &Vec<C::States>) -> (r: usize)
        ensures
            r == lca_index(current_path@, dest_path@),
            r <= current_path.len(),
            r <= dest_path.len(),
    {
        let mut lca: usize = 0;
        while lca < current_path.len() && lca < dest_path.len() && current_path[lca].same(
            &dest_path[lca],
        )
            invariant
                lca <= current_path.len(),
                lca <= dest_path.len(),
                agree_from(current_path@, dest_path@, 0) == agree_from(
                    current_path@,
                    dest_path@,
                    lca as int,
                ),
            decreases current_path.len() - lca,
        {
            lca = lca + 1;
        }
        lca
    }

    /// Leaves the initial state: runs `uninit`'s exit hook, then moves to `entry_point`, so the
    /// entry hooks of every ancestor of the entry point run once.
    pub fn init(&mut self, uninit: &C::States, entry_point: &C::States)
        requires
            uninit.exit_ok(old(self).self_handles, old(self).extended_state),
            forall|e: C::ExtendedState| #[trigger]
                exits_ok::<C>(exits(old(self).current_state, *entry_point), old(self).self_handles, e),
        ensures
            final(self).current_state == *entry_point,
            final(self).self_handles == old(self).self_handles,
            exists|mid: C::ExtendedState|
                {
                    &&& #[trigger] uninit.exit_rel(old(self).self_handles, old(self).extended_state, mid)
                    &&& hooks_ran::<C>(
                        transition_hooks(old(self).current_state, *entry_point),
                        old(self).self_handles,
                        mid,
                        final(self).extended_state,
                    )
                },
    {
        uninit.on_exit(&mut self.extended_state, &self.self_handles);
        let ghost mid = self.extended_state;
        self.change_state(*entry_point);
        assert(uninit.exit_rel(old(self).self_handles, old(self).extended_state, mid));
    }

    /// Hands `message` to `state`'s handler and acts on what it asks for: nothing, a
    /// transition, or a new dispatch against the parent state. A message handed up from the
    /// root comes back as the error.
    pub fn dispatch(&mut self, message: C::MessageSet, state: &C::States) -> (r: Result<(), C::MessageSet>)
        requires
            can_leave::<C>(old(self).current_state, old(self).self_handles),
        ensures
            final(self).self_handles == old(self).self_handles,
            dispatched::<C>(
                *state,
                old(self).self_handles,
                old(self).extended_state,
                message,
                old(self).current_state,
                final(self).extended_state,
                final(self).current_state,
                r,
            ),
        decreases state.depth(),
    {
        let ghost before = self.extended_state;
        let t = state.handle_message(&mut self.extended_state, &self.self_handles, message);
        let ghost mid = self.extended_state;
        let ghost cur = self.current_state;
        proof {
            state.lemma_parent_depth();
        }
        match t {
            None => {
                assert(state.handle_rel(self.self_handles, before, message, mid, t));
                Ok(())
            },
            Some(Transition::To(new_state)) => {
                self.change_state(new_state);
                assert(state.handle_rel(self.self_handles, before, message, mid, t));
                Ok(())
            },
            Some(Transition::Parent(m)) => {
                let p = state.parent();
                if p.same(state) {
                    assert(state.handle_rel(self.self_handles, before, message, mid, t));
                    Err(m)
                } else {
                    let r = self.dispatch(m, &p);
                    assert(state.handle_rel(self.self_handles, before, message, mid, t));
                    r
                }
            },
        }
    }

    /// Dispatches `message` against the current state.
    pub fn deliver(&mut self, message: C::MessageSet) -> (r: Result<(), C::MessageSet>)
        requires
            can_leave::<C>(old(self).current_state, old(self).self_handles),
        ensures
            final(self).self_handles == old(self).self_handles,
            dispatched::<C>(
                old(self).current_state,
                old(self).self_handles,
                old(self).extended_state,
                message,
                old(self).current_state,
                final(self).extended_state,
                final(self).current_state,
                r,
            ),
    {
        let state = self.current_state;
        self.dispatch(message, &state)
    }

    /// Moves to `new_state`: exits the current state and its ancestors below the lowest common
    /// ancestor, leaf first, then enters the destination's ancestors below it, outermost first.
    pub fn change_state(&mut self, new_state: C::States)
        requires
            exits_ok::<C>(
                exits(old(self).current_state, new_state),
                old(self).self_handles,
                old(self).extended_state,
            ),
        ensures
            final(self).current_state == new_state,
            final(self).self_handles == old(self).self_handles,
            hooks_ran::<C>(
                transition_hooks(old(self).current_state, new_state),
                old(self).self_handles,
                old(self).extended_state,
                final(self).extended_state,
            ),
    {
        let current_path = Self::build_state_path(self.current_state);
        let dest_path = Self::build_state_path(new_state);
        let mut k = Self::find_lca_index(&current_path, &dest_path);
        proof {
            lemma_path_ends_at(self.current_state);
            lemma_path_ends_at(new_state);
        }
        if k == current_path.len() && k == dest_path.len() {
            k = k - 1;
        }
        let ghost cur = self.current_state;
        let ghost h = self.self_handles;
        let ghost start = self.extended_state;
        let ghost hooks = transition_hooks(cur, new_state);
        let ghost n_exit = current_path.len() - k;
        assert(k == divergence(cur, new_state));
        assert(hooks.len() == n_exit + (dest_path.len() - k));
        let ghost mut trace: Seq<C::ExtendedState> = seq![start];
        let mut i = current_path.len();
        assert(exits(cur, new_state).skip(0) =~= exits(cur, new_state));
        while i > k
            invariant
                k <= i <= current_path.len(),
                current_path@ == path(cur),
                k == divergence(cur, new_state),
                hooks == transition_hooks(cur, new_state),
                n_exit == current_path.len() - k,
                self.self_handles == h,
                self.current_state == cur,
                trace.len() == current_path.len() - i + 1,
                exits_ok::<C>(
                    exits(cur, new_state).skip(current_path.len() - i),
                    h,
                    self.extended_state,
                ),
                trace[0] == start,
                trace[trace.len() - 1] == self.extended_state,
                forall|j: int|
                    0 <= j < current_path.len() - i ==> #[trigger] hook_holds::<C>(
                        hooks[j],
                        h,
                        trace[j],
                        trace[j + 1],
                    ),
            decreases i,
        {
            i = i - 1;
            let ghost j = current_path.len() - 1 - i;
            assert(hooks[j] == Hook::Exit(current_path@[i as int]));
            let ghost rest = exits(cur, new_state).skip(j);
            assert(rest[0] == current_path@[i as int]);
            let ghost before = self.extended_state;
            current_path[i].on_exit(&mut self.extended_state, &self.self_handles);
            proof {
                trace = trace.push(self.extended_state);
                assert(rest[0].exit_rel(h, before, self.extended_state));
                assert(rest.drop_first() =~= exits(cur, new_state).skip(j + 1));
            }
        }
        let mut j = k;
        while j < dest_path.len()
            invariant
                k <= j <= dest_path.len(),
                dest_path@ == path(new_state),
                k == divergence(cur, new_state),
                hooks == transition_hooks(cur, new_state),
                n_exit == current_path.len() - k,
                hooks.len() == n_exit + (dest_path.len() - k),
                self.self_handles == h,
                trace.len() == n_exit + (j - k) + 1,
                trace[0] == start,
                trace[trace.len() - 1] == self.extended_state,
                forall|m: int|
                    0 <= m < n_exit + (j - k) ==> #[trigger] hook_holds::<C>(
                        hooks[m],
                        h,
                        trace[m],
                        trace[m + 1],
                    ),
            decreases dest_path.len() - j,
        {
            assert(hooks[n_exit + (j - k)] == Hook::Entry(dest_path@[j as int]));
            dest_path[j].on_entry(&mut self.extended_state, &self.self_handles);
            proof {
                trace = trace.push(self.extended_state);
            }
            j = j + 1;
        }
        assert(trace_follows::<C>(hooks, h, trace));
        self.current_state = new_state;
    }
}

/// A root path is never empty and ends at the state itself.
pub proof fn lemma_path_ends_at<S: StateEnum>(s: S)
    ensures
        path(s).len() >= 1,
        path(s).last() == s,
{
}

/// `agree_from` stops at the first index where the sequences differ.
proof fn lemma_agree<T>(p: Seq<T>, q: Seq<T>, m: int)
    requires
        0 <= m <= p.len(),
        m <= q.len(),
    ensures
        m <= agree_from(p, q, m) <= p.len(),
        agree_from(p, q, m) <= q.len(),
        forall|l: int| m <= l < agree_from(p, q, m) ==> p[l] == q[l],
        agree_from(p, q, m) < p.len() && agree_from(p, q, m) < q.len() ==> p[agree_from(p, q, m)]
            != q[agree_from(p, q, m)],
    decreases p.len() - m,
{
    if m < p.len() && m < q.len() && p[m] == q[m] {
        lemma_agree(p, q, m + 1);
    }
}

/// Sequences that agree from `m` through `i` agree beyond `i`.
proof fn lemma_agree_beyond<T>(p: Seq<T>, q: Seq<T>, m: int, i: int)
    requires
        0 <= m <= i,
        i < p.len(),
        i < q.len(),
        forall|l: int| m <= l <= i ==> p[l] == q[l],
    ensures
        agree_from(p, q, m) > i,
    decreases i - m,
{
    if m < i {
        lemma_agree_beyond(p, q, m + 1, i);
    } else {
        lemma_agree(p, q, m + 1);
    }
}

/// Each state on a root path has, as its own root path, the part of it that ends there.
pub proof fn lemma_path_prefix<S: StateEnum>(s: S, i: int)
    requires
        0 <= i < path(s).len(),
    ensures
        path(path(s)[i]) == path(s).take(i + 1),
    decreases s.depth(),
{
    if s.depth() == 0 || s.parent_of().depth() >= s.depth() {
        assert(path(s).take(1) =~= path(s));
    } else {
        let p = s.parent_of();
        if i == path(s).len() - 1 {
            assert(path(s).take(i + 1) =~= path(s));
        } else {
            lemma_path_prefix(p, i);
            assert(path(s).take(i + 1) =~= path(p).take(i + 1));
        }
    }
}

/// Along a root path, each state is the parent of the next.
pub proof fn lemma_path_parent<S: StateEnum>(s: S, i: int)
    requires
        1 <= i < path(s).len(),
    ensures
        path(s)[i].parent_of() == path(s)[i - 1],
{
    let y = path(s)[i];
    lemma_path_prefix(s, i);
    assert(path(y).len() == i + 1);
    lemma_path_ends_at(y.parent_of());
    assert(path(y.parent_of()) =~= path(y).drop_last());
    assert(path(y).drop_last().last() == path(s)[i - 1]);
}

/// A state stands at the same depth on every root path that holds it, and the two paths
/// agree down to it.
pub proof fn lemma_path_same_index<S: StateEnum>(a: S, b: S, i: int, j: int)
    requires
        0 <= i < path(a).len(),
        0 <= j < path(b).len(),
        path(a)[i] == path(b)[j],
    ensures
        i == j,
        forall|l: int| 0 <= l <= i ==> path(a)[l] == path(b)[l],
{
    lemma_path_prefix(a, i);
    lemma_path_prefix(b, j);
    assert(path(a).take(i + 1).len() == i + 1);
    assert forall|l: int| 0 <= l <= i implies path(a)[l] == path(b)[l] by {
        assert(path(a).take(i + 1)[l] == path(b).take(j + 1)[l]);
    }
}

/// On a move between two different states, the states exited are exactly the ancestors of
/// the source (the source included) that are not ancestors of the destination: each once,
/// leaf first, each followed by its parent. The states entered are exactly the ancestors of
/// the destination (the destination included) that are not ancestors of the source: each
/// once, outermost first, each followed by a child, the destination last. Common ancestors
/// are neither exited nor entered.
pub proof fn lemma_transition_hooks<S: StateEnum>(a: S, b: S)
    requires
        a != b,
    ensures
        transition_hooks(a, b) == exits(a, b).map_values(|s: S| Hook::Exit(s)) + entries(
            a,
            b,
        ).map_values(|s: S| Hook::Entry(s)),
        exits(a, b).no_duplicates(),
        entries(a, b).no_duplicates(),
        forall|x: S| #[trigger]
            exits(a, b).contains(x) <==> path(a).contains(x) && !path(b).contains(x),
        forall|x: S| #[trigger]
            entries(a, b).contains(x) <==> path(b).contains(x) && !path(a).contains(x),
        forall|i: int|
            0 <= i < exits(a, b).len() - 1 ==> (#[trigger] exits(a, b)[i]).parent_of() == exits(
                a,
                b,
            )[i + 1],
        forall|i: int|
            0 <= i < entries(a, b).len() - 1 ==> (#[trigger] entries(a, b)[i + 1]).parent_of()
                == entries(a, b)[i],
        exits(a, b).len() > 0 ==> exits(a, b)[0] == a,
        entries(a, b).len() > 0 ==> entries(a, b).last() == b,
{
    let pa = path(a);
    let pb = path(b);
    lemma_path_ends_at(a);
    lemma_path_ends_at(b);
    lemma_agree(pa, pb, 0);
    let k = lca_index(pa, pb);
    if k == pa.len() && k == pb.len() {
        assert(pa[k - 1] == pb[k - 1]);
    }
    assert(divergence(a, b) == k);
    let ex = exits(a, b);
    let en = entries(a, b);
    assert(ex.len() == pa.len() - k);
    assert(en.len() == pb.len() - k);
    assert forall|n: int| 0 <= n < ex.len() implies #[trigger] ex[n] == pa[pa.len() - 1 - n] by {}
    assert forall|n: int| 0 <= n < en.len() implies #[trigger] en[n] == pb[k + n] by {}
    assert forall|x: int, y: int| 0 <= x < ex.len() && 0 <= y < ex.len() && x != y implies ex[x]
        != ex[y] by {
        if ex[x] == ex[y] {
            lemma_path_same_index(a, a, pa.len() - 1 - x, pa.len() - 1 - y);
        }
    }
    assert forall|x: int, y: int| 0 <= x < en.len() && 0 <= y < en.len() && x != y implies en[x]
        != en[y] by {
        if en[x] == en[y] {
            lemma_path_same_index(b, b, k + x, k + y);
        }
    }
    assert forall|x: S| #[trigger] ex.contains(x) <==> pa.contains(x) && !pb.contains(x) by {
        if ex.contains(x) {
            let n = choose|n: int| 0 <= n < ex.len() && ex[n] == x;
            let i = pa.len() - 1 - n;
            assert(pa[i] == x);
            if pb.contains(x) {
                let j = choose|j: int| 0 <= j < pb.len() && pb[j] == x;
                lemma_path_same_index(a, b, i, j);
                lemma_agree_beyond(pa, pb, 0, i);
            }
        }
        if pa.contains(x) && !pb.contains(x) {
            let i = choose|i: int| 0 <= i < pa.len() && pa[i] == x;
            if i < k {
                assert(pb[i] == x);
            }
            assert(ex[pa.len() - 1 - i] == x);
        }
    }
    assert forall|x: S| #[trigger] en.contains(x) <==> pb.contains(x) && !pa.contains(x) by {
        if en.contains(x) {
            let n = choose|n: int| 0 <= n < en.len() && en[n] == x;
            let j = k + n;
            assert(pb[j] == x);
            if pa.contains(x) {
                let i = choose|i: int| 0 <= i < pa.len() && pa[i] == x;
                lemma_path_same_index(a, b, i, j);
                lemma_agree_beyond(pa, pb, 0, i);
            }
        }
        if pb.contains(x) && !pa.contains(x) {
            let j = choose|j: int| 0 <= j < pb.len() && pb[j] == x;
            if j < k {
                assert(pa[j] == x);
            }
            assert(en[j - k] == x);
        }
    }
    assert forall|i: int| 0 <= i < ex.len() - 1 implies (#[trigger] ex[i]).parent_of() == ex[i
        + 1] by {
        lemma_path_parent(a, pa.len() - 1 - i);
    }
    assert forall|i: int| 0 <= i < en.len() - 1 implies (#[trigger] en[i + 1]).parent_of()
        == en[i] by {
        lemma_path_parent(b, k + i + 1);
    }
}

/// A move from a state to itself exits that state and enters it again, and runs no other hook.
pub proof fn lemma_self_transition<S: StateEnum>(a: S)
    ensures
        transition_hooks(a, a) == seq![Hook::Exit(a), Hook::Entry(a)],
{
    let pa = path(a);
    lemma_path_ends_at(a);
    lemma_agree(pa, pa, 0);
    assert(lca_index(pa, pa) == pa.len());
    assert(exits(a, a) =~= seq![a]);
    assert(entries(a, a) =~= seq![a]);
    assert(transition_hooks(a, a) =~= seq![Hook::Exit(a), Hook::Entry(a)]);
}

/// Delegation is transitive: when a state hands a message to its parent and the parent hands
/// it on, every outcome of dispatching what the parent handed on against the grandparent is
/// an outcome of dispatching the first message against the state; when the parent is the
/// root, the dispatch fails and hands back what the root handed on.
pub proof fn lemma_delegation_transitive<C: Components>(
    a: C::States,
    h: C::Handles,
    e0: C::ExtendedState,
    msg: C::MessageSet,
    e1: C::ExtendedState,
    m1: C::MessageSet,
    e2: C::ExtendedState,
    m2: C::MessageSet,
    cur: C::States,
    after: C::ExtendedState,
    cur_after: C::States,
    r: Result<(), C::MessageSet>,
)
    where
        C::States: State<C>,
    requires
        a.parent_of() != a,
        a.handle_rel(h, e0, msg, e1, Some(Transition::Parent(m1))),
        a.parent_of().handle_rel(h, e1, m1, e2, Some(Transition::Parent(m2))),
        a.parent_of().parent_of() == a.parent_of() ==> after == e2 && cur_after == cur && r == Err::<
            (),
            C::MessageSet,
        >(m2),
        a.parent_of().parent_of() != a.parent_of() ==> dispatched::<C>(
            a.parent_of().parent_of(),
            h,
            e2,
            m2,
            cur,
            after,
            cur_after,
            r,
        ),
    ensures
        dispatched::<C>(a, h, e0, msg, cur, after, cur_after, r),
{
    let p = a.parent_of();
    a.lemma_parent_depth();
    p.lemma_parent_depth();
    assert(dispatched::<C>(p, h, e1, m1, cur, after, cur_after, r));
}

/// A dispatch fails only at the root: the message it hands back is one that the root state's
/// own handler handed up, and the current state is left as it was.
pub proof fn lemma_dispatch_fails_only_at_root<C: Components>(
    s: C::States,
    h: C::Handles,
    before: C::ExtendedState,
    msg: C::MessageSet,
    cur: C::States,
    after: C::ExtendedState,
    cur_after: C::States,
    m: C::MessageSet,
)
    where
        C::States: State<C>,
    requires
        dispatched::<C>(s, h, before, msg, cur, after, cur_after, Err(m)),
    ensures
        cur_after == cur,
        exists|e: C::ExtendedState, m0: C::MessageSet| #[trigger]
            path(s)[0].handle_rel(h, e, m0, after, Some(Transition::Parent(m))),
    decreases s.depth(),
{
    let (mid, t) = choose|mid: C::ExtendedState, t: Option<Transition<C::States, C::MessageSet>>|
        {
            &&& #[trigger] s.handle_rel(h, before, msg, mid, t)
            &&& match t {
                None => after == mid && cur_after == cur && Err::<(), C::MessageSet>(m) is Ok,
                Some(Transition::To(dest)) => {
                    &&& cur_after == dest
                    &&& hooks_ran::<C>(transition_hooks(cur, dest), h, mid, after)
                    &&& Err::<(), C::MessageSet>(m) is Ok
                },
                Some(Transition::Parent(m1)) => {
                    if s.depth() == 0 || s.parent_of().depth() >= s.depth() {
                        after == mid && cur_after == cur && Err::<(), C::MessageSet>(m) == Err::<
                            (),
                            C::MessageSet,
                        >(m1)
                    } else {
                        dispatched::<C>(s.parent_of(), h, mid, m1, cur, after, cur_after, Err(m))
                    }
                },
            }
        };
    s.lemma_parent_depth();
    match t {
        Some(Transition::Parent(m1)) => {
            if s.depth() == 0 || s.parent_of().depth() >= s.depth() {
                assert(path(s)[0] == s);
                assert(s.handle_rel(h, before, msg, after, Some(Transition::Parent(m))));
            } else {
                let p = s.parent_of();
                lemma_dispatch_fails_only_at_root::<C>(p, h, mid, m1, cur, after, cur_after, m);
                lemma_path_ends_at(p);
                assert(path(s)[0] == path(p)[0]);
            }
        },
        _ => {},
    }
}

/// A run of exit hooks whose states may always be left may always run.
pub proof fn lemma_exits_ok_when_free<C: Components>(
    xs: Seq<C::States>,
    h: C::Handles,
    e: C::ExtendedState,
)
    where
        C::States: State<C>,
    requires
        forall|i: int, e1: C::ExtendedState| 0 <= i < xs.len() ==> #[trigger] xs[i].exit_ok(h, e1),
    ensures
        exits_ok::<C>(xs, h, e),
    decreases xs.len(),
{
    if xs.len() > 0 {
        assert forall|e2: C::ExtendedState| #[trigger]
            xs[0].exit_rel(h, e, e2) implies exits_ok::<C>(xs.drop_first(), h, e2) by {
            assert forall|i: int, e1: C::ExtendedState|
                0 <= i < xs.drop_first().len() implies #[trigger] xs.drop_first()[i].exit_ok(h, e1) by {
                assert(xs.drop_first()[i] == xs[i + 1]);
            }
            lemma_exits_ok_when_free::<C>(xs.drop_first(), h, e2);
        }
    }
}

/// In a hierarchy with one root, a move out of a state other than the root never exits the
/// root.
pub proof fn lemma_exits_spare_root<S: StateEnum>(cur: S, d: S)
    requires
        cur.depth() > 0,
        path(d)[0] == path(cur)[0],
    ensures
        !exits(cur, d).contains(path(cur)[0]),
{
    cur.lemma_parent_depth();
    lemma_path_ends_at(cur);
    lemma_path_ends_at(d);
    lemma_path_ends_at(cur.parent_of());
    let pc = path(cur);
    let pd = path(d);
    assert(pc.len() >= 2);
    lemma_agree(pc, pd, 0);
    lemma_agree_beyond(pc, pd, 0, 0);
    let k = divergence(cur, d);
    assert(k >= 1);
    if exits(cur, d).contains(pc[0]) {
        let n = choose|n: int| 0 <= n < exits(cur, d).len() && exits(cur, d)[n] == pc[0];
        let i = pc.len() - 1 - n;
        assert(exits(cur, d)[n] == pc[i]);
        lemma_path_same_index(cur, cur, i, 0);
    }
}

/// In a hierarchy with one root whose exit is the only one with a precondition, every state
/// but the root may always be left.
pub proof fn lemma_can_leave_below_root<C: Components>(cur: C::States, h: C::Handles)
    where
        C::States: State<C>,
    requires
        cur.depth() > 0,
        forall|d: C::States| #[trigger] path(d)[0] == path(cur)[0],
        forall|x: C::States, e: C::ExtendedState| x != path(cur)[0] ==> #[trigger] x.exit_ok(h, e),
    ensures
        can_leave::<C>(cur, h),
{
    assert forall|d: C::States, e: C::ExtendedState| #[trigger] exits_ok::<C>(exits(cur, d), h, e) by {
        assert(path(d)[0] == path(cur)[0]);
        lemma_exits_spare_root(cur, d);
        let xs = exits(cur, d);
        assert forall|i: int, e1: C::ExtendedState| 0 <= i < xs.len() implies #[trigger] xs[i].exit_ok(h, e1) by {
            assert(xs.contains(xs[i]));
        }
        lemma_exits_ok_when_free::<C>(xs, h, e);
    }
}

/// The state `i` steps above `s`.
pub open spec fn ancestor<S: StateEnum>(s: S, i: nat) -> S
    decreases i,
{
    if i == 0 {
        s
    } else {
        ancestor(s.parent_of(), (i - 1) as nat)
    }
}

/// Delegation along a chain of any length: when `s` and the `n - 1` states above it each
/// hand the message on to their parent (the `i`-th taking context `es[i]` to `es[i + 1]`
/// and handing `ms[i + 1]` up), and none of them is the root, then every outcome of
/// dispatching `ms[n]` at the state `n` steps above `s` is an outcome of dispatching `ms[0]`
/// at `s`. Each handler on the way runs once, bottom up, with what the one below handed up.
pub proof fn lemma_delegation_chain<C: Components>(
    s: C::States,
    h: C::Handles,
    es: Seq<C::ExtendedState>,
    ms: Seq<C::MessageSet>,
    n: nat,
    cur: C::States,
    after: C::ExtendedState,
    cur_after: C::States,
    r: Result<(), C::MessageSet>,
)
    where
        C::States: State<C>,
    requires
        es.len() == n + 1,
        ms.len() == n + 1,
        forall|i: int|
            0 <= i < n ==> (#[trigger] ancestor(s, i as nat)).depth() > 0 && ancestor(
                s,
                i as nat,
            ).handle_rel(h, es[i], ms[i], es[i + 1], Some(Transition::Parent(ms[i + 1]))),
        dispatched::<C>(ancestor(s, n), h, es[n as int], ms[n as int], cur, after, cur_after, r),
    ensures
        dispatched::<C>(s, h, es[0], ms[0], cur, after, cur_after, r),
    decreases n,
{
    if n > 0 {
        let p = s.parent_of();
        assert forall|i: int| 0 <= i < n - 1 implies (#[trigger] ancestor(p, i as nat)).depth() > 0
            && ancestor(p, i as nat).handle_rel(
            h,
            es.drop_first()[i],
            ms.drop_first()[i],
            es.drop_first()[i + 1],
            Some(Transition::Parent(ms.drop_first()[i + 1])),
        ) by {
            assert(ancestor(s, (i + 1) as nat) == ancestor(p, i as nat));
        }
        assert(ancestor(s, n) == ancestor(p, (n - 1) as nat));
        lemma_delegation_chain::<C>(
            p,
            h,
            es.drop_first(),
            ms.drop_first(),
            (n - 1) as nat,
            cur,
            after,
            cur_after,
            r,
        );
        let z: int = 0;
        assert(ancestor(s, z as nat) == s);
        assert(ancestor(s, z as nat).depth() > 0);
        s.lemma_parent_depth();
        assert(s.handle_rel(h, es[0], ms[0], es[1], Some(Transition::Parent(ms[1]))));
    }
}

} // verus!
