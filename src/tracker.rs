use crate::event::Event;
use crate::node::FetchError;
use vstd::prelude::*;

verus! {

/// Where a subscription's tracking stands.
#[derive(Clone, Copy, Debug, PartialEq, Eq, Structural)]
pub enum Phase {
    /// Waiting for the node's head level.
    AwaitHead,
    /// Waiting out the fixed interval before the next head query.
    Sleeping,
    /// Sweeping up to `head`: waiting for the block at the cursor.
    AwaitBlock { head: u64 },
    /// Sweeping up to `head`: waiting for the cursor's events to be sent.
    AwaitSend { head: u64 },
    /// Done for good.
    Stopped,
}

/// One subscription's tracking state: `cursor` is the next level to deliver.
#[derive(Clone, Copy, Debug, PartialEq, Eq, Structural)]
pub struct Tracker {
    pub cursor: u64,
    pub phase: Phase,
}

/// What the outside world reports back to the tracker.
#[derive(Debug)]
pub enum Input {
    /// The answer to a head query.
    Head(Result<u64, FetchError>),
    /// The events of the block that was asked for, or why they could not be had.
    Block(Result<Vec<Event>, FetchError>),
    /// All events of the last `Send` reached the subscriber.
    Delivered,
    /// Sending to the subscriber failed.
    SinkClosed,
    /// The sleep is over.
    Woke,
}

/// What the tracker asks the outside world to do next.
#[derive(Debug)]
pub enum Action {
    QueryHead,
    /// Wait the fixed interval, then report `Woke`.
    Sleep,
    FetchBlock(u64),
    /// Send these events to the subscriber, in order.
    Send(Vec<Event>),
    Stop,
}

impl Tracker {
    /// The cursor lies within the sweep under way.
    pub open spec fn wf(&self) -> bool {
        match self.phase {
            Phase::AwaitBlock { head } => self.cursor <= head,
            Phase::AwaitSend { head } => self.cursor <= head,
            _ => true,
        }
    }
}

/// The tracker's transition: its next state and action on input `i`. An input
/// that does not answer the tracker's last action stops it.
pub open spec fn next(t: Tracker, i: Input) -> (Tracker, Action) {
    match (t.phase, i) {
        (Phase::AwaitHead, Input::Head(Ok(h))) => if h < t.cursor {
            (Tracker { cursor: t.cursor, phase: Phase::Sleeping }, Action::Sleep)
        } else {
            (Tracker { cursor: t.cursor, phase: Phase::AwaitBlock { head: h } }, Action::FetchBlock(t.cursor))
        },
        (Phase::Sleeping, Input::Woke) => (
            Tracker { cursor: t.cursor, phase: Phase::AwaitHead },
            Action::QueryHead,
        ),
        (Phase::AwaitBlock { head }, Input::Block(Ok(evs))) => (
            Tracker { cursor: t.cursor, phase: Phase::AwaitSend { head } },
            Action::Send(evs),
        ),
        (Phase::AwaitBlock { head }, Input::Block(Err(_))) => (
            Tracker { cursor: t.cursor, phase: Phase::Sleeping },
            Action::Sleep,
        ),
        (Phase::AwaitSend { head }, Input::Delivered) => if t.cursor == u64::MAX {
            (Tracker { cursor: t.cursor, phase: Phase::Stopped }, Action::Stop)
        } else if t.cursor == head {
            (Tracker { cursor: (t.cursor + 1) as u64, phase: Phase::AwaitHead }, Action::QueryHead)
        } else {
            (
                Tracker { cursor: (t.cursor + 1) as u64, phase: Phase::AwaitBlock { head } },
                Action::FetchBlock((t.cursor + 1) as u64),
            )
        },
        _ => (Tracker { cursor: t.cursor, phase: Phase::Stopped }, Action::Stop),
    }
}

impl Tracker {
    /// A tracker at level 0; its first action is `QueryHead`.
    pub fn new() -> (t: Tracker)
        ensures
            t.cursor == 0,
            t.phase == Phase::AwaitHead,
            t.wf(),
    {
        Tracker { cursor: 0, phase: Phase::AwaitHead }
    }

    /// Takes in what came back from the last action and says what to do next.
    pub fn step(&mut self, i: Input) -> (a: Action)
        requires
            old(self).wf(),
        ensures
            (*final(self), a) == next(*old(self), i),
            final(self).wf(),
    {
        let cursor = self.cursor;
        let (phase, action) = match (&self.phase, i) {
            (Phase::AwaitHead, Input::Head(Ok(h))) => if h < cursor {
                (Phase::Sleeping, Action::Sleep)
            } else {
                (Phase::AwaitBlock { head: h }, Action::FetchBlock(cursor))
            },
            (Phase::Sleeping, Input::Woke) => (Phase::AwaitHead, Action::QueryHead),
            (Phase::AwaitBlock { head }, Input::Block(Ok(evs))) => (
                Phase::AwaitSend { head: *head },
                Action::Send(evs),
            ),
            (Phase::AwaitBlock { .. }, Input::Block(Err(_))) => (Phase::Sleeping, Action::Sleep),
            (Phase::AwaitSend { head }, Input::Delivered) => if cursor == u64::MAX {
                (Phase::Stopped, Action::Stop)
            } else if cursor == *head {
                self.cursor = cursor + 1;
                (Phase::AwaitHead, Action::QueryHead)
            } else {
                self.cursor = cursor + 1;
                (Phase::AwaitBlock { head: *head }, Action::FetchBlock(cursor + 1))
            },
            _ => (Phase::Stopped, Action::Stop),
        };
        self.phase = phase;
        action
    }
}

/// The state and the actions after feeding `ins` to `t` in order.
pub open spec fn run(t: Tracker, ins: Seq<Input>) -> (Tracker, Seq<Action>)
    decreases ins.len(),
{
    if ins.len() == 0 {
        (t, Seq::empty())
    } else {
        let (t1, acts) = run(t, ins.drop_last());
        let (t2, a) = next(t1, ins.last());
        (t2, acts.push(a))
    }
}

/// The inputs of a sweep in which every block is fetched and delivered:
/// `blocks[k]` holds the events of the k-th level of the sweep.
pub open spec fn deliveries(blocks: Seq<Vec<Event>>) -> Seq<Input>
    decreases blocks.len(),
{
    if blocks.len() == 0 {
        Seq::empty()
    } else {
        deliveries(blocks.drop_last()) + seq![Input::Block(Ok(blocks.last())), Input::Delivered]
    }
}

proof fn lemma_run_two(t: Tracker, s: Seq<Input>, a: Input, b: Input)
    ensures
        ({
            let (t1, acts1) = run(t, s);
            let (t2, x) = next(t1, a);
            let (t3, y) = next(t2, b);
            run(t, s + seq![a, b]) == (t3, acts1.push(x).push(y))
        }),
{
    let s2 = s + seq![a, b];
    assert(s2.drop_last() =~= s.push(a));
    assert(s.push(a).drop_last() =~= s);
    assert(s2.last() == b);
    assert(s.push(a).last() == a);
    let (t1, acts1) = run(t, s);
    let (t2, x) = next(t1, a);
    assert(run(t, s.push(a)) == (t2, acts1.push(x)));
}

/// What follows the delivery of `level` in a sweep up to `head`.
pub open spec fn after_level(level: int, head: u64) -> Action {
    if level < head {
        Action::FetchBlock((level + 1) as u64)
    } else {
        Action::QueryHead
    }
}

/// `acts` are the actions of the first `j` levels of a sweep up to `head`
/// from `t`, each fetched and delivered, and `t2` is the state after them.
pub open spec fn swept(t: Tracker, head: u64, blocks: Seq<Vec<Event>>, j: int, t2: Tracker, acts: Seq<Action>) -> bool {
    &&& acts.len() == 2 * j + 1
    &&& acts[0] == Action::FetchBlock(t.cursor)
    &&& forall|k: int| 0 <= k < j ==> #[trigger] acts[2 * k + 1] == Action::Send(blocks[k])
    &&& forall|k: int| 0 <= k < j ==> #[trigger] acts[2 * k + 2] == after_level(t.cursor + k, head)
    &&& t2 == (if j < blocks.len() {
        Tracker { cursor: (t.cursor + j) as u64, phase: Phase::AwaitBlock { head } }
    } else {
        Tracker { cursor: (head + 1) as u64, phase: Phase::AwaitHead }
    })
}

#[verifier::spinoff_prover]
proof fn lemma_sweep_prefix(t: Tracker, head: u64, blocks: Seq<Vec<Event>>, j: int)
    requires
        t.phase == Phase::AwaitHead,
        t.cursor <= head < u64::MAX,
        blocks.len() == head - t.cursor + 1,
        0 <= j <= blocks.len(),
    ensures
        swept(
            t,
            head,
            blocks,
            j,
            run(t, seq![Input::Head(Ok(head))] + deliveries(blocks.take(j))).0,
            run(t, seq![Input::Head(Ok(head))] + deliveries(blocks.take(j))).1,
        ),
    decreases j,
{
    let first = seq![Input::Head(Ok(head))];
    if j == 0 {
        assert(blocks.take(0) =~= Seq::<Vec<Event>>::empty());
        assert(first + deliveries(blocks.take(0)) =~= first);
        assert(first.drop_last() =~= Seq::<Input>::empty());
        assert(first.last() == Input::Head(Ok(head)));
        assert(run(t, Seq::<Input>::empty()) == (t, Seq::<Action>::empty()));
        assert(run(t, first).1 =~= seq![Action::FetchBlock(t.cursor)]);
    } else {
        lemma_sweep_prefix(t, head, blocks, j - 1);
        assert(blocks.take(j).drop_last() =~= blocks.take(j - 1));
        let prev = first + deliveries(blocks.take(j - 1));
        let blk = Input::Block(Ok(blocks[j - 1]));
        assert(first + deliveries(blocks.take(j)) =~= prev + seq![blk, Input::Delivered]);
        lemma_run_two(t, prev, blk, Input::Delivered);
        let (t1, acts1) = run(t, prev);
        let (t2, x) = next(t1, blk);
        let (t3, y) = next(t2, Input::Delivered);
        let acts = acts1.push(x).push(y);
        assert(swept(t, head, blocks, j - 1, t1, acts1));
        assert(t1 == Tracker { cursor: (t.cursor + j - 1) as u64, phase: Phase::AwaitBlock { head } });
        assert(t2 == Tracker { cursor: t1.cursor, phase: Phase::AwaitSend { head } });
        if j < blocks.len() {
            assert(t3 == Tracker { cursor: (t.cursor + j) as u64, phase: Phase::AwaitBlock { head } });
        } else {
            assert(t3 == Tracker { cursor: (head + 1) as u64, phase: Phase::AwaitHead });
        }
        assert forall|k: int| 0 <= k < j implies #[trigger] acts[2 * k + 1] == Action::Send(blocks[k]) by {
            if k < j - 1 {
                assert(acts[2 * k + 1] == acts1[2 * k + 1]);
            }
        }
        assert forall|k: int| 0 <= k < j implies #[trigger] acts[2 * k + 2] == after_level(t.cursor + k, head) by {
            if k < j - 1 {
                assert(acts[2 * k + 2] == acts1[2 * k + 2]);
            }
        }
        assert(acts.len() == 2 * j + 1);
        assert(acts[0] == acts1[0]);
        assert(t3 == (if j < blocks.len() {
            Tracker { cursor: (t.cursor + j) as u64, phase: Phase::AwaitBlock { head } }
        } else {
            Tracker { cursor: (head + 1) as u64, phase: Phase::AwaitHead }
        }));
        assert(swept(t, head, blocks, j, t3, acts));
    }
}

/// A sweep from an idle tracker whose head query answers `head`, with every
/// block fetched and delivered, fetches the levels from the cursor up to
/// `head` one after the other, sends the events of each level before the
/// next level is even fetched, and ends at `head + 1`, querying the head again.
pub proof fn sweep_visits_levels_in_order(t: Tracker, head: u64, blocks: Seq<Vec<Event>>)
    requires
        t.phase == Phase::AwaitHead,
        t.cursor <= head < u64::MAX,
        blocks.len() == head - t.cursor + 1,
    ensures
        swept(
            t,
            head,
            blocks,
            blocks.len() as int,
            run(t, seq![Input::Head(Ok(head))] + deliveries(blocks)).0,
            run(t, seq![Input::Head(Ok(head))] + deliveries(blocks)).1,
        ),
        run(t, seq![Input::Head(Ok(head))] + deliveries(blocks)).0 == (Tracker {
            cursor: (head + 1) as u64,
            phase: Phase::AwaitHead,
        }),
{
    lemma_sweep_prefix(t, head, blocks, blocks.len() as int);
    assert(blocks.take(blocks.len() as int) =~= blocks);
}

/// A block fetch that fails does not move the cursor: after the sleep and a
/// head query that reaches the cursor, the same level is fetched again.
pub proof fn failed_fetch_retries_same_level(t: Tracker, e: FetchError, head: u64)
    requires
        t.phase is AwaitBlock,
        t.cursor <= head,
    ensures
        run(t, seq![Input::Block(Err(e)), Input::Woke, Input::Head(Ok(head))]) == (
            Tracker { cursor: t.cursor, phase: Phase::AwaitBlock { head } },
            seq![Action::Sleep, Action::QueryHead, Action::FetchBlock(t.cursor)],
        ),
{
    let ins = seq![Input::Block(Err(e)), Input::Woke, Input::Head(Ok(head))];
    let s1 = seq![Input::Block(Err(e))];
    let s2 = seq![Input::Block(Err(e)), Input::Woke];
    assert(s1.drop_last() =~= Seq::<Input>::empty());
    assert(s2.drop_last() =~= s1);
    assert(ins.drop_last() =~= s2);
    let t1 = Tracker { cursor: t.cursor, phase: Phase::Sleeping };
    let t2 = Tracker { cursor: t.cursor, phase: Phase::AwaitHead };
    assert(run(t, Seq::<Input>::empty()) == (t, Seq::<Action>::empty()));
    assert(run(t, s1) == (t1, seq![Action::Sleep]));
    assert(run(t, s2) == (t2, seq![Action::Sleep].push(Action::QueryHead)));
    assert(seq![Action::Sleep].push(Action::QueryHead).push(Action::FetchBlock(t.cursor))
        =~= seq![Action::Sleep, Action::QueryHead, Action::FetchBlock(t.cursor)]);
}

/// The cursor never moves back, and moves only when the events of the level
/// at the cursor have been delivered, by exactly one. Events are handed out
/// only as the answer to a block fetch.
pub proof fn cursor_advances_only_on_delivery(t: Tracker, i: Input)
    requires
        t.wf(),
    ensures
        ({
            let (t2, a) = next(t, i);
            &&& t2.cursor == t.cursor || (t.phase is AwaitSend && i is Delivered && t2.cursor
                == t.cursor + 1)
            &&& a is Send ==> t.phase is AwaitBlock && i is Block
        }),
{
}

/// A head query that answers a level below the cursor leads to a sleep and to
/// no block fetch.
pub proof fn head_behind_cursor_only_sleeps(t: Tracker, head: u64)
    requires
        t.phase == Phase::AwaitHead,
        head < t.cursor,
    ensures
        next(t, Input::Head(Ok(head))) == (
            Tracker { cursor: t.cursor, phase: Phase::Sleeping },
            Action::Sleep,
        ),
{
}

} // verus!
