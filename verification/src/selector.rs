//! Interactive source selector: a state machine that loops through
//! listing the candidates, prompting, and rebinding. Every selection
//! that touches the route first issues the backend's reset — the
//! canonical unbind, idempotent when nothing is bound — so no two bind
//! operations ever run without an intervening unbind; a rescan issues
//! nothing and leaves the binding untouched. The terminal cursor flag
//! the prompt disturbs is restored on every exit path.

use vstd::prelude::*;
use crate::streams::StreamEntry;
use vstd::string::StringSliceAdditionalSpecFns;
use crate::text::copy_bytes;

verus! {

/// What the selector remembers of a bound source: the mixing server's
/// numeric stream id, or the graph client's name prefix.
pub enum SourceRef {
    Stream(u64),
    Client(Vec<u8>),
}

/// Mathematical image of a `SourceRef`.
#[verifier::ext_equal]
pub enum SourceRefV {
    Stream(u64),
    Client(Seq<u8>),
}

impl DeepView for SourceRef {
    type V = SourceRefV;

    open spec fn deep_view(&self) -> SourceRefV {
        match self {
            SourceRef::Stream(id) => SourceRefV::Stream(*id),
            SourceRef::Client(name) => SourceRefV::Client(name@),
        }
    }
}

/// Copies a source reference.
pub fn copy_source_ref(s: &SourceRef) -> (r: SourceRef)
    ensures
        r.deep_view() == s.deep_view(),
{
    match s {
        SourceRef::Stream(id) => SourceRef::Stream(*id),
        SourceRef::Client(name) => SourceRef::Client(copy_bytes(name.as_slice())),
    }
}

/// One discoverable source candidate: the backend reference used to
/// bind it and the label shown in the menu. Candidates are valid only
/// until the next enumeration.
pub struct Candidate {
    pub key: SourceRef,
    pub label: Vec<u8>,
}

/// Mathematical image of a `Candidate`.
#[verifier::ext_equal]
pub struct CandidateV {
    pub key: SourceRefV,
    pub label: Seq<u8>,
}

impl DeepView for Candidate {
    type V = CandidateV;

    open spec fn deep_view(&self) -> CandidateV {
        CandidateV { key: self.key.deep_view(), label: self.label@ }
    }
}

/// The mixing flavor's candidates: one per discovered stream.
pub fn candidates_from_streams(entries: &Vec<StreamEntry>) -> (r: Vec<Candidate>)
    ensures
        r@.len() == entries@.len(),
        forall|k: int|
            0 <= k < r@.len() ==> r@[k].key.deep_view() == SourceRefV::Stream(entries@[k].id)
                && r@[k].label@ == entries@[k].label@,
{
    let n: usize = entries.len();
    let mut r: Vec<Candidate> = Vec::new();
    let mut i: usize = 0;
    while i < n
        invariant
            n == entries@.len(),
            0 <= i <= n,
            r@.len() == i,
            forall|k: int|
                0 <= k < i ==> r@[k].key.deep_view() == SourceRefV::Stream(entries@[k].id)
                    && r@[k].label@ == entries@[k].label@,
        decreases n - i,
    {
        let key = SourceRef::Stream(entries[i].id);
        let label = copy_bytes(entries[i].label.as_slice());
        r.push(Candidate { key, label });
        i += 1;
    }
    r
}

/// The graph flavor's candidates: one per discovered client, labelled
/// by its own name.
pub fn candidates_from_clients(clients: &Vec<Vec<u8>>) -> (r: Vec<Candidate>)
    ensures
        r@.len() == clients@.len(),
        forall|k: int|
            0 <= k < r@.len() ==> r@[k].key.deep_view() == SourceRefV::Client(clients@[k]@)
                && r@[k].label@ == clients@[k]@,
{
    let n: usize = clients.len();
    let mut r: Vec<Candidate> = Vec::new();
    let mut i: usize = 0;
    while i < n
        invariant
            n == clients@.len(),
            0 <= i <= n,
            r@.len() == i,
            forall|k: int|
                0 <= k < i ==> r@[k].key.deep_view() == SourceRefV::Client(clients@[k]@)
                    && r@[k].label@ == clients@[k]@,
        decreases n - i,
    {
        let key = SourceRef::Client(copy_bytes(clients[i].as_slice()));
        let label = copy_bytes(clients[i].as_slice());
        r.push(Candidate { key, label });
        i += 1;
    }
    r
}

/// The menu shown for a candidate list: every candidate's label, then
/// the two synthetic choices `none` and `rescan`, always in that order
/// at the end, so their positions are stable across rescans.
pub fn menu_labels(cands: &Vec<Candidate>) -> (r: Vec<Vec<u8>>)
    ensures
        r@.len() == cands@.len() + 2,
        forall|k: int| 0 <= k < cands@.len() ==> r@[k]@ == cands@[k].label@,
        r@[cands@.len() as int]@ == "none".spec_bytes(),
        r@[cands@.len() as int + 1]@ == "rescan".spec_bytes(),
{
    let n: usize = cands.len();
    let mut r: Vec<Vec<u8>> = Vec::new();
    let mut i: usize = 0;
    while i < n
        invariant
            n == cands@.len(),
            0 <= i <= n,
            r@.len() == i,
            forall|k: int| 0 <= k < i ==> r@[k]@ == cands@[k].label@,
        decreases n - i,
    {
        r.push(copy_bytes(cands[i].label.as_slice()));
        i += 1;
    }
    r.push(copy_bytes("none".as_bytes()));
    r.push(copy_bytes("rescan".as_bytes()));
    r
}

/// What the prompt reported: a menu index, a cancellation, or a
/// failure of the prompt itself. Failure is cleaned up exactly like
/// cancellation.
#[derive(Clone, Copy, PartialEq, Eq, Structural)]
pub enum Selection {
    Picked(usize),
    Cancelled,
    Failed,
}

/// One routing operation the selector asks the backend adapter to
/// perform. `Reset` is the canonical unbind: revert any redirect,
/// disconnect every capture input; a no-op when nothing is routed.
pub enum RouteOp {
    Reset,
    Bind(SourceRef),
}

/// Mathematical image of a `RouteOp`.
#[verifier::ext_equal]
pub enum RouteOpV {
    Reset,
    Bind(SourceRefV),
}

impl DeepView for RouteOp {
    type V = RouteOpV;

    open spec fn deep_view(&self) -> RouteOpV {
        match self {
            RouteOp::Reset => RouteOpV::Reset,
            RouteOp::Bind(s) => RouteOpV::Bind(s.deep_view()),
        }
    }
}

/// The selector's states.
#[derive(Clone, Copy, PartialEq, Eq, Structural)]
pub enum SelState {
    Idle,
    Listing,
    AwaitingChoice,
    Rebinding,
    Cancelled,
}

/// The selector: the current state, the current binding — the only
/// place that mutates it — and the shared terminal cursor flag.
pub struct Selector {
    pub state: SelState,
    pub bound: Option<SourceRef>,
    pub cursor_visible: bool,
}

/// The binding as a mathematical value.
pub open spec fn bound_view(b: Option<SourceRef>) -> Option<SourceRefV> {
    match b {
        Some(s) => Some(s.deep_view()),
        None => None,
    }
}

/// The routing operations one selection demands of the adapter, given
/// the candidate keys on offer: a candidate or `none` or a
/// cancellation first resets the route — before the new choice takes
/// effect, so a cancelled selection is never left routed into the
/// capture point — and a chosen candidate is then bound; a rescan
/// demands nothing.
pub open spec fn step_ops(keys: Seq<SourceRefV>, sel: Selection) -> Seq<RouteOpV> {
    match sel {
        Selection::Picked(i) => {
            if (i as int) < keys.len() {
                seq![RouteOpV::Reset, RouteOpV::Bind(keys[i as int])]
            } else if i as int == keys.len() {
                seq![RouteOpV::Reset]
            } else {
                Seq::empty()
            }
        },
        Selection::Cancelled => seq![RouteOpV::Reset],
        Selection::Failed => seq![RouteOpV::Reset],
    }
}

/// The binding after one selection: a chosen candidate becomes the
/// binding, `none` and cancellation clear it, a rescan keeps it.
pub open spec fn step_bound(
    keys: Seq<SourceRefV>,
    sel: Selection,
    bound: Option<SourceRefV>,
) -> Option<SourceRefV> {
    match sel {
        Selection::Picked(i) => {
            if (i as int) < keys.len() {
                Some(keys[i as int])
            } else if i as int == keys.len() {
                None
            } else {
                bound
            }
        },
        Selection::Cancelled => None,
        Selection::Failed => None,
    }
}

/// The state after one selection: a rescan goes straight back to
/// listing, a route-touching choice goes to rebinding, a cancellation
/// or prompt failure is terminal.
pub open spec fn step_state(keys: Seq<SourceRefV>, sel: Selection) -> SelState {
    match sel {
        Selection::Picked(i) => {
            if i as int == keys.len() + 1 {
                SelState::Listing
            } else {
                SelState::Rebinding
            }
        },
        Selection::Cancelled => SelState::Cancelled,
        Selection::Failed => SelState::Cancelled,
    }
}

/// The candidate keys of a candidate list.
pub open spec fn keys_of(cands: Seq<CandidateV>) -> Seq<SourceRefV> {
    cands.map_values(|c: CandidateV| c.key)
}

/// A fresh selector: nothing bound, cursor visible.
pub fn selector_new() -> (s: Selector)
    ensures
        s.state == SelState::Idle,
        s.bound is None,
        s.cursor_visible == true,
{
    Selector { state: SelState::Idle, bound: None, cursor_visible: true }
}

/// Starts the selection loop.
pub fn start(s: &mut Selector)
    requires
        old(s).state == SelState::Idle,
    ensures
        final(s).state == SelState::Listing,
        final(s).bound == old(s).bound,
        final(s).cursor_visible == old(s).cursor_visible,
{
    s.state = SelState::Listing;
}

/// Enters the choice prompt. Showing the menu may disturb the shared
/// terminal cursor flag; the selector records it as hidden until the
/// prompt scope is left.
pub fn present(s: &mut Selector)
    requires
        old(s).state == SelState::Listing,
    ensures
        final(s).state == SelState::AwaitingChoice,
        final(s).bound == old(s).bound,
        final(s).cursor_visible == false,
{
    s.state = SelState::AwaitingChoice;
    s.cursor_visible = false;
}

/// Leaves the choice prompt with what the prompt reported, restoring
/// the cursor on every path, and returns the routing operations the
/// adapter must perform, in order. A rescan performs none and keeps
/// the binding; everything else resets the route first.
pub fn resolve(s: &mut Selector, cands: &Vec<Candidate>, sel: Selection) -> (ops: Vec<RouteOp>)
    requires
        old(s).state == SelState::AwaitingChoice,
        sel matches Selection::Picked(i) ==> i as int <= cands@.len() + 1,
    ensures
        final(s).cursor_visible == true,
        final(s).state == step_state(keys_of(cands.deep_view()), sel),
        ops.deep_view() == step_ops(keys_of(cands.deep_view()), sel),
        bound_view(final(s).bound) == step_bound(
            keys_of(cands.deep_view()),
            sel,
            bound_view(old(s).bound),
        ),
{
    let ghost keys = keys_of(cands.deep_view());
    proof {
        assert(keys.len() == cands@.len());
    }
    s.cursor_visible = true;
    let mut ops: Vec<RouteOp> = Vec::new();
    match sel {
        Selection::Picked(i) => {
            if i < cands.len() {
                proof {
                    assert(keys[i as int] == cands.deep_view()[i as int].key);
                    assert(cands.deep_view()[i as int] == cands@[i as int].deep_view());
                }
                ops.push(RouteOp::Reset);
                ops.push(RouteOp::Bind(copy_source_ref(&cands[i].key)));
                s.bound = Some(copy_source_ref(&cands[i].key));
                s.state = SelState::Rebinding;
                assert(ops.deep_view() =~~= step_ops(keys, sel));
            } else if i == cands.len() {
                ops.push(RouteOp::Reset);
                s.bound = None;
                s.state = SelState::Rebinding;
                assert(ops.deep_view() =~~= step_ops(keys, sel));
            } else {
                s.state = SelState::Listing;
                assert(ops.deep_view() =~~= step_ops(keys, sel));
            }
        },
        Selection::Cancelled => {
            ops.push(RouteOp::Reset);
            s.bound = None;
            s.state = SelState::Cancelled;
            assert(ops.deep_view() =~~= step_ops(keys, sel));
        },
        Selection::Failed => {
            ops.push(RouteOp::Reset);
            s.bound = None;
            s.state = SelState::Cancelled;
            assert(ops.deep_view() =~~= step_ops(keys, sel));
        },
    }
    ops
}

/// Returns to listing once the adapter has performed the operations.
pub fn rebound(s: &mut Selector)
    requires
        old(s).state == SelState::Rebinding,
    ensures
        final(s).state == SelState::Listing,
        final(s).bound == old(s).bound,
        final(s).cursor_visible == old(s).cursor_visible,
{
    s.state = SelState::Listing;
}

/// One prompt round of the loop, for stating properties over whole
/// selection histories: the candidate keys that were on offer and what
/// the prompt reported.
pub struct RoundV {
    pub keys: Seq<SourceRefV>,
    pub sel: Selection,
}

/// A round whose reported index is within the menu.
pub open spec fn round_wf(r: RoundV) -> bool {
    r.sel matches Selection::Picked(i) ==> i as int <= r.keys.len() + 1
}

/// A cancellation or prompt failure ends the loop.
pub open spec fn ends_loop(sel: Selection) -> bool {
    sel == Selection::Cancelled || sel == Selection::Failed
}

/// A round that attempts a binding transition: everything except a
/// rescan.
pub open spec fn is_transition_round(r: RoundV) -> bool {
    !(r.sel matches Selection::Picked(i) && i as int == r.keys.len() + 1)
}

/// The full operation trace of a selection history, stopping at a
/// cancellation.
pub open spec fn run_trace(rounds: Seq<RoundV>, bound: Option<SourceRefV>) -> Seq<RouteOpV>
    decreases rounds.len(),
{
    if rounds.len() == 0 {
        Seq::empty()
    } else {
        let r0 = rounds.first();
        let ops = step_ops(r0.keys, r0.sel);
        if ends_loop(r0.sel) {
            ops
        } else {
            ops + run_trace(rounds.drop_first(), step_bound(r0.keys, r0.sel, bound))
        }
    }
}

/// Number of reset (unbind) operations in a trace.
pub open spec fn count_resets(t: Seq<RouteOpV>) -> int
    decreases t.len(),
{
    if t.len() == 0 {
        0
    } else {
        (if t.first() == RouteOpV::Reset {
            1int
        } else {
            0int
        }) + count_resets(t.drop_first())
    }
}

/// Number of binding transitions a selection history attempts,
/// stopping at a cancellation.
pub open spec fn count_transitions(rounds: Seq<RoundV>) -> int
    decreases rounds.len(),
{
    if rounds.len() == 0 {
        0
    } else {
        let c: int = if is_transition_round(rounds.first()) {
            1
        } else {
            0
        };
        if ends_loop(rounds.first().sel) {
            c
        } else {
            c + count_transitions(rounds.drop_first())
        }
    }
}

proof fn lemma_count_resets_concat(a: Seq<RouteOpV>, b: Seq<RouteOpV>)
    ensures
        count_resets(a + b) == count_resets(a) + count_resets(b),
    decreases a.len(),
{
    if a.len() == 0 {
        assert(a + b =~= b);
    } else {
        assert((a + b).first() == a.first());
        assert((a + b).drop_first() =~= a.drop_first() + b);
        lemma_count_resets_concat(a.drop_first(), b);
    }
}

/// Rebind safety: over any selection history, the number of unbind
/// (reset) operations equals the number of binding transitions
/// attempted, and no two bind operations occur without an intervening
/// unbind — every bind is immediately preceded by a reset, and a
/// non-empty trace opens with one.
pub proof fn lemma_rebind_safety(rounds: Seq<RoundV>, bound: Option<SourceRefV>)
    requires
        forall|j: int| 0 <= j < rounds.len() ==> round_wf(rounds[j]),
    ensures
        count_resets(run_trace(rounds, bound)) == count_transitions(rounds),
        forall|j: int|
            0 <= j < run_trace(rounds, bound).len() && #[trigger] run_trace(rounds, bound)[j]
                is Bind ==> j > 0 && run_trace(rounds, bound)[j - 1] == RouteOpV::Reset,
        run_trace(rounds, bound).len() > 0 ==> run_trace(rounds, bound)[0] == RouteOpV::Reset,
    decreases rounds.len(),
{
    if rounds.len() > 0 {
        let r0 = rounds.first();
        let ops = step_ops(r0.keys, r0.sel);
        let t = run_trace(rounds, bound);
        assert(round_wf(r0));
        if ends_loop(r0.sel) {
            assert(count_resets(ops) == 1) by {
                reveal_with_fuel(count_resets, 3);
            }
        } else {
            let rest = run_trace(rounds.drop_first(), step_bound(r0.keys, r0.sel, bound));
            assert(forall|j: int|
                0 <= j < rounds.drop_first().len() ==> round_wf(rounds.drop_first()[j]));
            lemma_rebind_safety(rounds.drop_first(), step_bound(r0.keys, r0.sel, bound));
            lemma_count_resets_concat(ops, rest);
            assert(count_resets(ops) == (if is_transition_round(r0) {
                1int
            } else {
                0int
            })) by {
                reveal_with_fuel(count_resets, 3);
            }
            assert(t == ops + rest);
            assert forall|j: int| 0 <= j < t.len() && #[trigger] t[j] is Bind implies j > 0 && t[j
                - 1] == RouteOpV::Reset by {
                if j < ops.len() {
                    assert(ops.len() == 2 && j == 1);
                    assert(t[0] == RouteOpV::Reset);
                } else {
                    assert(t[j] == rest[j - ops.len()]);
                    if j - ops.len() == 0 {
                        assert(rest[0] is Bind);
                        assert(rest.len() > 0 ==> rest[0] == RouteOpV::Reset);
                        assert(false);
                    } else {
                        assert(rest[j - ops.len() - 1] == RouteOpV::Reset);
                        assert(t[j - 1] == rest[j - ops.len() - 1]);
                    }
                }
            }
            if t.len() > 0 {
                if ops.len() > 0 {
                    assert(t[0] == ops[0]);
                } else {
                    assert(t[0] == rest[0]);
                }
            }
        }
    }
}

/// Between any two bind operations of a selection history's trace
/// there is an unbind: binds are never stacked.
pub proof fn lemma_no_stacked_binds(rounds: Seq<RoundV>, bound: Option<SourceRefV>)
    requires
        forall|j: int| 0 <= j < rounds.len() ==> round_wf(rounds[j]),
    ensures
        forall|i: int, j: int|
            0 <= i < j < run_trace(rounds, bound).len() && #[trigger] run_trace(rounds, bound)[i]
                is Bind && #[trigger] run_trace(rounds, bound)[j] is Bind ==> exists|k: int|
                i < k < j && #[trigger] run_trace(rounds, bound)[k] == RouteOpV::Reset,
{
    lemma_rebind_safety(rounds, bound);
    let t = run_trace(rounds, bound);
    assert forall|i: int, j: int|
        0 <= i < j < t.len() && #[trigger] t[i] is Bind && #[trigger] t[j] is Bind implies exists|
        k: int|
        i < k < j && #[trigger] t[k] == RouteOpV::Reset by {
        assert(t[j - 1] == RouteOpV::Reset);
        assert(i < j - 1 < j);
    }
}

/// Rescan non-destructiveness: a rescan issues no unbind and no bind
/// and leaves the binding unchanged.
pub proof fn lemma_rescan_nondestructive(
    keys: Seq<SourceRefV>,
    i: usize,
    bound: Option<SourceRefV>,
)
    requires
        i as int == keys.len() + 1,
    ensures
        step_ops(keys, Selection::Picked(i)) == Seq::<RouteOpV>::empty(),
        step_bound(keys, Selection::Picked(i), bound) == bound,
        step_state(keys, Selection::Picked(i)) == SelState::Listing,
{
}

} // verus!
