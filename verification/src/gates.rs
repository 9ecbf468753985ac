//! The dispatch of a received message along a chain of message gates.
//!
//! A chain holds gates in order. Each gate is first asked whether it can proceed a
//! message of the given topic. A gate that is not interested passes the message to the
//! next gate. Otherwise that gate proceeds the message and answers whether the flow
//! terminates there or the message passes on to the next gate.
//!
//! The gates answer asynchronously, so the chain is driven from outside: [GateDispatch]
//! names the next call to make and takes each answer in turn.
use vstd::prelude::*;

verus! {

/// The next call that the dispatch of a message asks for.
#[derive(PartialEq, Eq, Structural, Clone, Copy, Debug)]
pub enum GateAction {
    /// Ask gate number `i` whether it can proceed the message's topic.
    AskCanProceed(usize),
    /// Hand the message to gate number `i`.
    Proceed(usize),
    /// The dispatch of this message is over.
    Finish,
}

/// Where the dispatch stands.
#[derive(PartialEq, Eq, Structural, Clone, Copy, Debug)]
pub enum DispatchPhase {
    /// Waiting for the current gate's answer to `can_proceed`.
    Asking,
    /// Waiting for the current gate's answer to `proceed`.
    Proceeding,
    /// No gate is asked anything more.
    Done,
}

/// The abstract state of a dispatch: the number of gates, the index of the current gate
/// and what is awaited from it.
pub struct DispatchView {
    pub count: nat,
    pub current: nat,
    pub phase: DispatchPhase,
}

/// A dispatch awaits an answer only from a gate of the chain.
pub open spec fn dispatch_wf(v: DispatchView) -> bool {
    v.phase != DispatchPhase::Done ==> v.current < v.count
}

/// The state in which the dispatch of a message along `count` gates begins.
pub open spec fn start_state(count: nat) -> DispatchView {
    if count == 0 {
        DispatchView { count, current: 0, phase: DispatchPhase::Done }
    } else {
        DispatchView { count, current: 0, phase: DispatchPhase::Asking }
    }
}

/// The state after passing the message on from the current gate to the next one.
pub open spec fn pass_on(v: DispatchView) -> DispatchView {
    if v.current + 1 < v.count {
        DispatchView { count: v.count, current: v.current + 1, phase: DispatchPhase::Asking }
    } else {
        DispatchView { count: v.count, current: v.current + 1, phase: DispatchPhase::Done }
    }
}

/// The state after the awaited answer.
pub open spec fn next_state(v: DispatchView, answer: bool) -> DispatchView {
    match v.phase {
        DispatchPhase::Asking => if answer {
            DispatchView { phase: DispatchPhase::Proceeding, ..v }
        } else {
            pass_on(v)
        },
        DispatchPhase::Proceeding => if answer {
            DispatchView { phase: DispatchPhase::Done, ..v }
        } else {
            pass_on(v)
        },
        DispatchPhase::Done => v,
    }
}

/// The call that a state asks for.
pub open spec fn action_of(v: DispatchView) -> GateAction {
    match v.phase {
        DispatchPhase::Asking => GateAction::AskCanProceed(v.current as usize),
        DispatchPhase::Proceeding => GateAction::Proceed(v.current as usize),
        DispatchPhase::Done => GateAction::Finish,
    }
}

/// The dispatch of one message along a chain of gates.
pub struct GateDispatch {
    gate_count: usize,
    current: usize,
    phase: DispatchPhase,
}

impl View for GateDispatch {
    type V = DispatchView;

    closed spec fn view(&self) -> DispatchView {
        DispatchView { count: self.gate_count as nat, current: self.current as nat, phase: self.phase }
    }
}

impl GateDispatch {
    #[verifier::type_invariant]
    closed spec fn inv(self) -> bool {
        dispatch_wf(self@) && self.current <= self.gate_count
    }

    /// Begins the dispatch of a message along a chain of `gate_count` gates.
    pub fn start(gate_count: usize) -> (d: GateDispatch)
        ensures
            d@ == start_state(gate_count as nat),
    {
        if gate_count == 0 {
            GateDispatch { gate_count, current: 0, phase: DispatchPhase::Done }
        } else {
            GateDispatch { gate_count, current: 0, phase: DispatchPhase::Asking }
        }
    }

    /// The call to make next.
    pub fn action(&self) -> (a: GateAction)
        ensures
            a == action_of(self@),
            dispatch_wf(self@),
            self@.count <= usize::MAX,
    {
        proof { use_type_invariant(self); }
        match self.phase {
            DispatchPhase::Asking => GateAction::AskCanProceed(self.current),
            DispatchPhase::Proceeding => GateAction::Proceed(self.current),
            DispatchPhase::Done => GateAction::Finish,
        }
    }

    /// Takes the answer to the call that [GateDispatch::action] asked for: whether the
    /// gate can proceed the message, or whether it terminates the flow.
    pub fn on_answer(&mut self, answer: bool)
        ensures
            final(self)@ == next_state(old(self)@, answer),
    {
        proof { use_type_invariant(&*self); }
        match self.phase {
            DispatchPhase::Asking => {
                if answer {
                    self.phase = DispatchPhase::Proceeding;
                } else {
                    self.pass_on();
                }
            },
            DispatchPhase::Proceeding => {
                if answer {
                    self.phase = DispatchPhase::Done;
                } else {
                    self.pass_on();
                }
            },
            DispatchPhase::Done => {},
        }
    }

    fn pass_on(&mut self)
        requires
            old(self).phase != DispatchPhase::Done,
        ensures
            final(self)@ == pass_on(old(self)@),
    {
        proof { use_type_invariant(&*self); }
        let next = self.current + 1;
        if next < self.gate_count {
            *self = GateDispatch { gate_count: self.gate_count, current: next, phase: DispatchPhase::Asking };
        } else {
            *self = GateDispatch { gate_count: self.gate_count, current: next, phase: DispatchPhase::Done };
        }
    }
}

/// The answer that gates answering `can_proceed` with `can` and `proceed` with `proceed`
/// (one entry per gate) give to the call that `v` awaits.
pub open spec fn answer_in(v: DispatchView, can: Seq<bool>, proceed: Seq<bool>) -> bool {
    if v.phase == DispatchPhase::Asking {
        can[v.current as int]
    } else {
        proceed[v.current as int]
    }
}

/// How many answers a dispatch can still await, at most.
pub open spec fn pending_answers(v: DispatchView) -> nat {
    if v.phase == DispatchPhase::Done || v.current >= v.count {
        0
    } else if v.phase == DispatchPhase::Asking {
        (2 * (v.count - v.current) + 1) as nat
    } else {
        (2 * (v.count - v.current)) as nat
    }
}

/// The calls that a dispatch in state `v` asks for, one after the other, when the gates
/// answer with `can` and `proceed`; the last one is [GateAction::Finish].
pub open spec fn calls_from(v: DispatchView, can: Seq<bool>, proceed: Seq<bool>) -> Seq<GateAction>
    decreases pending_answers(v),
{
    if v.phase == DispatchPhase::Done || v.current >= v.count {
        seq![GateAction::Finish]
    } else {
        seq![action_of(v)] + calls_from(next_state(v, answer_in(v, can, proceed)), can, proceed)
    }
}

/// The calls that the chain makes, gate after gate from gate `i` on: each gate is asked
/// whether it can proceed; the message is handed to each gate that can; the flow ends at
/// the first gate that proceeds the message and terminates it, or after the last gate.
pub open spec fn chain_calls(can: Seq<bool>, proceed: Seq<bool>, i: nat) -> Seq<GateAction>
    decreases can.len() - i,
{
    if i >= can.len() {
        seq![GateAction::Finish]
    } else if can[i as int] {
        if proceed[i as int] {
            seq![
                GateAction::AskCanProceed(i as usize),
                GateAction::Proceed(i as usize),
                GateAction::Finish,
            ]
        } else {
            seq![GateAction::AskCanProceed(i as usize), GateAction::Proceed(i as usize)]
                + chain_calls(can, proceed, i + 1)
        }
    } else {
        seq![GateAction::AskCanProceed(i as usize)] + chain_calls(can, proceed, i + 1)
    }
}

/// No gate before gate `i` terminated the flow.
pub open spec fn reaches_gate(can: Seq<bool>, proceed: Seq<bool>, i: int) -> bool {
    forall|j: int| 0 <= j < i ==> !(#[trigger] can[j] && proceed[j])
}

proof fn lemma_calls_from_gate(can: Seq<bool>, proceed: Seq<bool>, i: nat)
    requires
        can.len() == proceed.len(),
        i < can.len(),
    ensures
        calls_from(
            DispatchView { count: can.len(), current: i, phase: DispatchPhase::Asking },
            can,
            proceed,
        ) == chain_calls(can, proceed, i),
    decreases can.len() - i,
{
    let n = can.len();
    let v = DispatchView { count: n, current: i, phase: DispatchPhase::Asking };
    let p = DispatchView { count: n, current: i, phase: DispatchPhase::Proceeding };
    let after = pass_on(v);
    if i + 1 < n {
        lemma_calls_from_gate(can, proceed, i + 1);
    } else {
        assert(calls_from(after, can, proceed) == seq![GateAction::Finish]);
        assert(chain_calls(can, proceed, i + 1) == seq![GateAction::Finish]);
    }
    assert(calls_from(after, can, proceed) == chain_calls(can, proceed, i + 1));
    if can[i as int] {
        assert(next_state(v, true) == p);
        assert(pass_on(p) == after);
        if proceed[i as int] {
            let done = DispatchView { count: n, current: i, phase: DispatchPhase::Done };
            assert(next_state(p, true) == done);
            assert(calls_from(done, can, proceed) == seq![GateAction::Finish]);
            assert(calls_from(p, can, proceed) == seq![GateAction::Proceed(i as usize)] + seq![
                GateAction::Finish,
            ]);
            assert(calls_from(v, can, proceed) == seq![GateAction::AskCanProceed(i as usize)]
                + calls_from(p, can, proceed));
            assert(calls_from(v, can, proceed) =~= chain_calls(can, proceed, i));
        } else {
            assert(calls_from(p, can, proceed) == seq![GateAction::Proceed(i as usize)]
                + calls_from(after, can, proceed));
            assert(calls_from(v, can, proceed) == seq![GateAction::AskCanProceed(i as usize)]
                + calls_from(p, can, proceed));
            assert(calls_from(v, can, proceed) =~= chain_calls(can, proceed, i));
        }
    } else {
        assert(calls_from(v, can, proceed) == seq![GateAction::AskCanProceed(i as usize)]
            + calls_from(after, can, proceed));
    }
}

/// A dispatch asks for exactly the calls of the chain: when the gates answer `can_proceed`
/// with `can` and `proceed` with `proceed`, the dispatch that begins on them asks each gate
/// in order whether it can proceed, hands the message to each gate that can, and stops at
/// the first gate that terminates the flow.
pub proof fn lemma_dispatch_follows_chain(can: Seq<bool>, proceed: Seq<bool>)
    requires
        can.len() == proceed.len(),
    ensures
        calls_from(start_state(can.len()), can, proceed) == chain_calls(can, proceed, 0),
{
    if can.len() == 0 {
        assert(calls_from(start_state(0), can, proceed) == seq![GateAction::Finish]);
    } else {
        lemma_calls_from_gate(can, proceed, 0);
    }
}

proof fn lemma_concat_contains<A>(a: Seq<A>, b: Seq<A>, x: A)
    ensures
        (a + b).contains(x) <==> (a.contains(x) || b.contains(x)),
{
    if (a + b).contains(x) {
        let k = choose|k: int| 0 <= k < (a + b).len() && (a + b)[k] == x;
        if k < a.len() {
            assert(a[k] == x);
        } else {
            assert(b[k - a.len()] == x);
        }
    }
    if a.contains(x) {
        let k = choose|k: int| 0 <= k < a.len() && a[k] == x;
        assert((a + b)[k] == x);
    }
    if b.contains(x) {
        let k = choose|k: int| 0 <= k < b.len() && b[k] == x;
        assert((a + b)[k + a.len()] == x);
    }
}

proof fn lemma_chain_calls_from(can: Seq<bool>, proceed: Seq<bool>, k: nat, i: int)
    requires
        can.len() == proceed.len(),
        can.len() <= usize::MAX,
        k <= i < can.len(),
    ensures
        chain_calls(can, proceed, k).contains(GateAction::AskCanProceed(i as usize)) <==> (forall|
            j: int,
        | k <= j < i ==> !(#[trigger] can[j] && proceed[j])),
        chain_calls(can, proceed, k).contains(GateAction::Proceed(i as usize)) <==> (can[i]
            && forall|j: int| k <= j < i ==> !(#[trigger] can[j] && proceed[j])),
    decreases can.len() - k,
{
    let ask = GateAction::AskCanProceed(i as usize);
    let give = GateAction::Proceed(i as usize);
    let here_ask = GateAction::AskCanProceed(k as usize);
    let here_give = GateAction::Proceed(k as usize);
    let rest = chain_calls(can, proceed, k + 1);
    if k == i {
        if can[i] {
            if proceed[i] {
                assert(chain_calls(can, proceed, k)[0] == ask);
                assert(chain_calls(can, proceed, k)[1] == give);
            } else {
                lemma_concat_contains(seq![here_ask, here_give], rest, ask);
                lemma_concat_contains(seq![here_ask, here_give], rest, give);
                assert(seq![here_ask, here_give][0] == ask);
                assert(seq![here_ask, here_give][1] == give);
            }
        } else {
            lemma_concat_contains(seq![here_ask], rest, ask);
            lemma_concat_contains(seq![here_ask], rest, give);
            assert(seq![here_ask][0] == ask);
            if k + 1 < can.len() {
                lemma_chain_calls_absent(can, proceed, k + 1, i);
            } else {
                assert(rest == seq![GateAction::Finish]);
                assert(!rest.contains(give));
            }
            assert(!seq![here_ask].contains(give));
        }
    } else {
        lemma_chain_calls_from(can, proceed, k + 1, i);
        assert(here_ask != ask && here_ask != give);
        assert(here_give != ask && here_give != give);
        if can[k as int] {
            if proceed[k as int] {
                let all = seq![here_ask, here_give, GateAction::Finish];
                assert(chain_calls(can, proceed, k) == all);
                assert(!all.contains(ask));
                assert(!all.contains(give));
                assert(!(forall|j: int| k <= j < i ==> !(#[trigger] can[j] && proceed[j]))) by {
                    assert(can[k as int] && proceed[k as int]);
                }
            } else {
                let front = seq![here_ask, here_give];
                lemma_concat_contains(front, rest, ask);
                lemma_concat_contains(front, rest, give);
                assert(!front.contains(ask));
                assert(!front.contains(give));
                assert((forall|j: int| k <= j < i ==> !(#[trigger] can[j] && proceed[j])) <==> (
                forall|j: int| k + 1 <= j < i ==> !(#[trigger] can[j] && proceed[j])));
            }
        } else {
            let front = seq![here_ask];
            lemma_concat_contains(front, rest, ask);
            lemma_concat_contains(front, rest, give);
            assert(!front.contains(ask));
            assert(!front.contains(give));
            assert((forall|j: int| k <= j < i ==> !(#[trigger] can[j] && proceed[j])) <==> (
            forall|j: int| k + 1 <= j < i ==> !(#[trigger] can[j] && proceed[j])));
        }
    }
}

proof fn lemma_chain_calls_absent(can: Seq<bool>, proceed: Seq<bool>, k: nat, i: int)
    requires
        can.len() == proceed.len(),
        can.len() <= usize::MAX,
        0 <= i < k,
    ensures
        !chain_calls(can, proceed, k).contains(GateAction::Proceed(i as usize)),
        !chain_calls(can, proceed, k).contains(GateAction::AskCanProceed(i as usize)),
    decreases can.len() - k,
{
    let give = GateAction::Proceed(i as usize);
    let ask = GateAction::AskCanProceed(i as usize);
    if k >= can.len() {
        assert(chain_calls(can, proceed, k) == seq![GateAction::Finish]);
    } else {
        lemma_chain_calls_absent(can, proceed, k + 1, i);
        let here_ask = GateAction::AskCanProceed(k as usize);
        let here_give = GateAction::Proceed(k as usize);
        let rest = chain_calls(can, proceed, k + 1);
        if can[k as int] {
            if proceed[k as int] {
                let all = seq![here_ask, here_give, GateAction::Finish];
                assert(!all.contains(give));
                assert(!all.contains(ask));
            } else {
                lemma_concat_contains(seq![here_ask, here_give], rest, give);
                lemma_concat_contains(seq![here_ask, here_give], rest, ask);
            }
        } else {
            lemma_concat_contains(seq![here_ask], rest, give);
            lemma_concat_contains(seq![here_ask], rest, ask);
        }
    }
}

/// Which gates a message reaches: along a chain whose gates answer `can_proceed` with
/// `can` and `proceed` with `proceed`, gate `i` is asked whether it can proceed the message
/// exactly when no gate before it terminated the flow, and it is handed the message
/// exactly when, besides, it can proceed it.
pub proof fn lemma_gates_reached(can: Seq<bool>, proceed: Seq<bool>, i: int)
    requires
        can.len() == proceed.len(),
        can.len() <= usize::MAX,
        0 <= i < can.len(),
    ensures
        calls_from(start_state(can.len()), can, proceed).contains(
            GateAction::AskCanProceed(i as usize),
        ) <==> reaches_gate(can, proceed, i),
        calls_from(start_state(can.len()), can, proceed).contains(GateAction::Proceed(i as usize))
            <==> (can[i] && reaches_gate(can, proceed, i)),
{
    lemma_dispatch_follows_chain(can, proceed);
    lemma_chain_calls_from(can, proceed, 0, i);
}

/// Some gate from gate `i` up to (not including) gate `n` terminated the flow.
pub open spec fn terminated_between(can: Seq<bool>, proceed: Seq<bool>, i: int, n: int) -> bool {
    exists|j: int| i <= j < n && #[trigger] can[j] && proceed[j]
}

proof fn lemma_chain_calls_not_empty(can: Seq<bool>, proceed: Seq<bool>, i: nat)
    ensures
        chain_calls(can, proceed, i).len() >= 1,
{
}

proof fn lemma_chain_append_from(can: Seq<bool>, proceed: Seq<bool>, c: bool, p: bool, i: nat)
    requires
        can.len() == proceed.len(),
        i <= can.len(),
    ensures
        terminated_between(can, proceed, i as int, can.len() as int) ==> chain_calls(
            can.push(c),
            proceed.push(p),
            i,
        ) == chain_calls(can, proceed, i),
        !terminated_between(can, proceed, i as int, can.len() as int) ==> chain_calls(
            can.push(c),
            proceed.push(p),
            i,
        ) == chain_calls(can, proceed, i).drop_last() + chain_calls(
            can.push(c),
            proceed.push(p),
            can.len(),
        ),
    decreases can.len() - i,
{
    let n = can.len();
    let can2 = can.push(c);
    let proceed2 = proceed.push(p);
    if i == n {
        assert(chain_calls(can, proceed, i) == seq![GateAction::Finish]);
        assert(chain_calls(can, proceed, i).drop_last() =~= Seq::<GateAction>::empty());
        assert(chain_calls(can2, proceed2, n) =~= Seq::<GateAction>::empty() + chain_calls(
            can2,
            proceed2,
            n,
        ));
    } else {
        assert(can2[i as int] == can[i as int]);
        assert(proceed2[i as int] == proceed[i as int]);
        lemma_chain_append_from(can, proceed, c, p, i + 1);
        lemma_chain_calls_not_empty(can, proceed, i + 1);
        let ask = GateAction::AskCanProceed(i as usize);
        let give = GateAction::Proceed(i as usize);
        let rest = chain_calls(can, proceed, i + 1);
        let rest2 = chain_calls(can2, proceed2, i + 1);
        let tail = chain_calls(can2, proceed2, n);
        if can[i as int] && proceed[i as int] {
            assert(terminated_between(can, proceed, i as int, n as int));
        } else {
            let front = if can[i as int] {
                seq![ask, give]
            } else {
                seq![ask]
            };
            assert(chain_calls(can, proceed, i) == front + rest);
            assert(chain_calls(can2, proceed2, i) == front + rest2);
            assert(terminated_between(can, proceed, i as int, n as int) <==> terminated_between(
                can,
                proceed,
                (i + 1) as int,
                n as int,
            )) by {
                if terminated_between(can, proceed, i as int, n as int) {
                    let j = choose|j: int| i <= j < n && #[trigger] can[j] && proceed[j];
                    assert(j != i);
                    assert(i + 1 <= j < n && can[j] && proceed[j]);
                }
                if terminated_between(can, proceed, (i + 1) as int, n as int) {
                    let j = choose|j: int| i + 1 <= j < n && #[trigger] can[j] && proceed[j];
                    assert(i <= j < n && can[j] && proceed[j]);
                }
            }
            if !terminated_between(can, proceed, i as int, n as int) {
                assert((front + rest).drop_last() + tail =~= front + (rest.drop_last() + tail));
            }
        }
    }
}

/// Appending a gate to a chain: the calls of the longer chain are those of the shorter one
/// where a gate of it terminated the flow; otherwise they are those of the shorter one up to
/// its end, then the question to the new gate whether it can proceed the message and, where
/// it can, the hand-over of the message to it, then the end of the flow.
pub proof fn lemma_chain_append(can: Seq<bool>, proceed: Seq<bool>, c: bool, p: bool)
    requires
        can.len() == proceed.len(),
    ensures
        terminated_between(can, proceed, 0, can.len() as int) ==> calls_from(
            start_state(can.len() + 1),
            can.push(c),
            proceed.push(p),
        ) == calls_from(start_state(can.len()), can, proceed),
        !terminated_between(can, proceed, 0, can.len() as int) ==> calls_from(
            start_state(can.len() + 1),
            can.push(c),
            proceed.push(p),
        ) == calls_from(start_state(can.len()), can, proceed).drop_last() + (if c {
            seq![GateAction::AskCanProceed(can.len() as usize), GateAction::Proceed(can.len() as usize)]
        } else {
            seq![GateAction::AskCanProceed(can.len() as usize)]
        }) + seq![GateAction::Finish],
{
    let n = can.len();
    let can2 = can.push(c);
    let proceed2 = proceed.push(p);
    lemma_dispatch_follows_chain(can, proceed);
    lemma_dispatch_follows_chain(can2, proceed2);
    lemma_chain_append_from(can, proceed, c, p, 0);
    assert(can2[n as int] == c);
    assert(proceed2[n as int] == p);
    assert(chain_calls(can2, proceed2, n + 1) == seq![GateAction::Finish]);
    let ask = GateAction::AskCanProceed(n as usize);
    let give = GateAction::Proceed(n as usize);
    if c {
        if p {
            assert(chain_calls(can2, proceed2, n) =~= seq![ask, give] + seq![GateAction::Finish]);
        } else {
            assert(chain_calls(can2, proceed2, n) =~= seq![ask, give] + seq![GateAction::Finish]);
        }
    } else {
        assert(chain_calls(can2, proceed2, n) =~= seq![ask] + seq![GateAction::Finish]);
    }
    if !terminated_between(can, proceed, 0, n as int) {
        let base = chain_calls(can, proceed, 0).drop_last();
        if c {
            assert(base + chain_calls(can2, proceed2, n) =~= base + seq![ask, give] + seq![
                GateAction::Finish,
            ]);
        } else {
            assert(base + chain_calls(can2, proceed2, n) =~= base + seq![ask] + seq![
                GateAction::Finish,
            ]);
        }
    }
}

} // verus!
