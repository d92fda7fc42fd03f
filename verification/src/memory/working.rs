//! Working memory: the ring buffer of recent conversation turns.
use std::collections::VecDeque;

use vstd::prelude::*;
use vstd::string::*;

use crate::types::{
    role_name, Episode, MemoryMetadata, MemoryTier, RetrievedMemory, FULL_SCORE_BITS,
};

verus! {

/// Strategy applied when the ring buffer is full and a new episode arrives.
#[derive(Debug, Clone, Copy, PartialEq, Eq, Structural)]
pub enum OverflowStrategy {
    /// Drop the oldest episode unconditionally.
    DropOldest,
    /// Summarize the oldest episodes before dropping.
    ///
    /// No summarizer is wired in yet: the oldest episode is dropped as with
    /// `DropOldest`.
    SummarizeOldest,
}

impl Default for OverflowStrategy {
    fn default() -> (s: Self)
        ensures
            s == OverflowStrategy::DropOldest,
    {
        OverflowStrategy::DropOldest
    }
}

/// The buffer after `e` arrives at a buffer holding `s` with room for
/// `max_turns` episodes: the oldest is dropped first when it is full.
pub open spec fn push_window(s: Seq<Episode>, e: Episode, max_turns: nat) -> Seq<Episode> {
    if s.len() >= max_turns {
        s.drop_first().push(e)
    } else {
        s.push(e)
    }
}

/// The buffer after the episodes `es` arrive one after another, oldest first.
pub open spec fn push_all(s: Seq<Episode>, es: Seq<Episode>, max_turns: nat) -> Seq<Episode>
    decreases es.len(),
{
    if es.len() == 0 {
        s
    } else {
        push_window(push_all(s, es.drop_last(), max_turns), es.last(), max_turns)
    }
}

/// The last `n` elements of `s` (all of `s` when it is shorter).
pub open spec fn last_n(s: Seq<Episode>, n: nat) -> Seq<Episode> {
    if s.len() <= n {
        s
    } else {
        s.subrange(s.len() - n, s.len() as int)
    }
}

/// The entry that a scan yields for the buffered episode `ep`.
pub open spec fn is_working_entry(r: RetrievedMemory, ep: Episode) -> bool {
    &&& r.id == ep.id
    &&& r.content@ == ep.content@
    &&& r.score == FULL_SCORE_BITS
    &&& r.tier == MemoryTier::Working
    &&& r.timestamp_ms == ep.timestamp_ms
    &&& r.metadata.members() == Some(
        seq![("role"@, role_name(ep.role)), ("session_id"@, ep.session_id@)],
    )
}

/// In-process ring buffer of recent conversation turns.
///
/// Always included in the assembled context to anchor recency before the
/// ANN search results. Thread-safety is the caller's concern.
pub struct WorkingMemory {
    buffer: VecDeque<Episode>,
    max_turns: usize,
    overflow: OverflowStrategy,
}

impl View for WorkingMemory {
    type V = Seq<Episode>;

    /// The buffered episodes, oldest first.
    closed spec fn view(&self) -> Seq<Episode> {
        self.buffer@
    }
}

impl WorkingMemory {
    #[verifier::type_invariant]
    spec fn within_capacity(self) -> bool {
        0 < self.max_turns && self.buffer@.len() <= self.max_turns
    }

    /// The capacity the buffer was created with.
    pub closed spec fn capacity(&self) -> nat {
        self.max_turns as nat
    }

    /// The strategy applied on overflow.
    pub closed spec fn overflow_strategy(&self) -> OverflowStrategy {
        self.overflow
    }

    pub fn new(max_turns: usize) -> (wm: Self)
        requires
            max_turns > 0,
        ensures
            wm@ == Seq::<Episode>::empty(),
            wm.capacity() == max_turns,
            wm.overflow_strategy() == OverflowStrategy::DropOldest,
    {
        WorkingMemory {
            buffer: VecDeque::with_capacity(max_turns),
            max_turns,
            overflow: OverflowStrategy::default(),
        }
    }

    pub fn with_overflow(self, strategy: OverflowStrategy) -> (wm: Self)
        ensures
            wm@ == self@,
            wm.capacity() == self.capacity(),
            wm.overflow_strategy() == strategy,
    {
        let mut wm = self;
        proof {
            use_type_invariant(&wm);
        }
        wm.overflow = strategy;
        wm
    }

    /// Push an episode into the ring buffer.
    ///
    /// If the buffer is full, the oldest episode is dropped first, whichever
    /// overflow strategy is set.
    pub fn push(&mut self, episode: Episode)
        ensures
            final(self)@ == push_window(old(self)@, episode, old(self).capacity()),
            final(self)@.len() <= final(self).capacity(),
            final(self).capacity() == old(self).capacity(),
            final(self).overflow_strategy() == old(self).overflow_strategy(),
    {
        proof {
            use_type_invariant(&*self);
        }
        let mut buf: VecDeque<Episode> = VecDeque::new();
        std::mem::swap(&mut buf, &mut self.buffer);
        if buf.len() >= self.max_turns {
            buf.pop_front();
        }
        buf.push_back(episode);
        self.buffer = buf;
    }

    /// Return all episodes in chronological order as [`RetrievedMemory`].
    ///
    /// Score is 1.0: working-memory entries are always considered maximally
    /// relevant. They anchor recency in the assembled context.
    pub fn scan(&self) -> (items: Vec<RetrievedMemory>)
        ensures
            items@.len() == self@.len(),
            forall|i: int| 0 <= i < items@.len() ==> is_working_entry(#[trigger] items@[i], self@[i]),
            forall|i: int|
                #![trigger items@[i]]
                0 <= i < items@.len() ==> {
                    &&& items@[i].id == self@[i].id
                    &&& items@[i].content@ == self@[i].content@
                    &&& items@[i].timestamp_ms == self@[i].timestamp_ms
                    &&& items@[i].score == 0x3F80_0000u32
                    &&& items@[i].tier == MemoryTier::Working
                },
    {
        let n = self.buffer.len();
        let mut items: Vec<RetrievedMemory> = Vec::new();
        for i in 0..n
            invariant
                n == self.buffer@.len(),
                items@.len() == i,
                forall|j: int| 0 <= j < i ==> is_working_entry(#[trigger] items@[j], self@[j]),
        {
            items.push(working_entry(&self.buffer[i]));
        }
        proof {
            assert forall|i: int| 0 <= i < items@.len() implies {
                &&& items@[i].id == self@[i].id
                &&& items@[i].content@ == self@[i].content@
                &&& items@[i].timestamp_ms == self@[i].timestamp_ms
                &&& items@[i].score == 0x3F80_0000u32
                &&& items@[i].tier == MemoryTier::Working
            } by {
                lemma_working_entry_keeps_turn(items@[i], self@[i]);
            }
        }
        items
    }

    /// The number of buffered episodes, which never exceeds the capacity.
    pub fn len(&self) -> (n: usize)
        ensures
            n == self@.len(),
            n <= self.capacity(),
            0 < self.capacity(),
    {
        proof {
            use_type_invariant(self);
        }
        self.buffer.len()
    }

    pub fn is_empty(&self) -> (b: bool)
        ensures
            b <==> self@.len() == 0,
    {
        self.buffer.len() == 0
    }

    pub fn clear(&mut self)
        ensures
            final(self)@ == Seq::<Episode>::empty(),
            final(self).capacity() == old(self).capacity(),
            final(self).overflow_strategy() == old(self).overflow_strategy(),
    {
        proof {
            use_type_invariant(&*self);
        }
        self.buffer = VecDeque::new();
    }

    pub fn max_turns(&self) -> (m: usize)
        ensures
            m == self.capacity(),
    {
        self.max_turns
    }
}

/// The scan entry for one buffered episode.
fn working_entry(ep: &Episode) -> (r: RetrievedMemory)
    ensures
        is_working_entry(r, *ep),
{
    let metadata = vec![
        (String::from_str("role"), String::from_str(ep.role.as_str())),
        (String::from_str("session_id"), ep.session_id.clone()),
    ];
    let r = RetrievedMemory {
        id: ep.id,
        content: ep.content.clone(),
        score: FULL_SCORE_BITS,
        tier: MemoryTier::Working,
        timestamp_ms: ep.timestamp_ms,
        metadata: MemoryMetadata::Object(metadata),
    };
    assert(r.metadata.members()->0 =~= seq![("role"@, role_name(ep.role)), ("session_id"@, ep.session_id@)]);
    r
}

/// Pushing episodes one by one into a buffer with room for `max_turns`
/// keeps exactly the most recent `max_turns` of everything it has seen, in
/// arrival order.
pub proof fn lemma_push_all_keeps_latest(s: Seq<Episode>, es: Seq<Episode>, max_turns: nat)
    requires
        0 < max_turns,
        s.len() <= max_turns,
    ensures
        push_all(s, es, max_turns) == last_n(s + es, max_turns),
    decreases es.len(),
{
    if es.len() == 0 {
        assert(s + es =~= s);
    } else {
        let prev = es.drop_last();
        lemma_push_all_keeps_latest(s, prev, max_turns);
        let t = push_all(s, prev, max_turns);
        let all = s + es;
        let before = s + prev;
        assert(all =~= before.push(es.last()));
        if t.len() >= max_turns {
            assert(before.len() >= max_turns);
            assert(push_window(t, es.last(), max_turns) =~= last_n(all, max_turns));
        } else {
            assert(t =~= before);
            assert(push_window(t, es.last(), max_turns) =~= last_n(all, max_turns));
        }
    }
}

/// An operation on a working memory: a push, a clear, or a change of the
/// overflow strategy.
pub enum BufferOp {
    Push(Episode),
    Clear,
    SetOverflow(OverflowStrategy),
}

/// The buffer after the operation `op`, for a buffer with room for
/// `max_turns` episodes (as `push`, `clear` and `with_overflow` state it).
pub open spec fn apply_op(s: Seq<Episode>, op: BufferOp, max_turns: nat) -> Seq<Episode> {
    match op {
        BufferOp::Push(e) => push_window(s, e, max_turns),
        BufferOp::Clear => Seq::empty(),
        BufferOp::SetOverflow(_) => s,
    }
}

/// The buffer after the operations `ops`, in order, from `s`.
pub open spec fn apply_ops(s: Seq<Episode>, ops: Seq<BufferOp>, max_turns: nat) -> Seq<Episode>
    decreases ops.len(),
{
    if ops.len() == 0 {
        s
    } else {
        apply_op(apply_ops(s, ops.drop_last(), max_turns), ops.last(), max_turns)
    }
}

/// The episodes pushed by `ops` since its last clear, in order.
pub open spec fn pushed_since_clear(ops: Seq<BufferOp>) -> Seq<Episode>
    decreases ops.len(),
{
    if ops.len() == 0 {
        Seq::empty()
    } else {
        let before = pushed_since_clear(ops.drop_last());
        match ops.last() {
            BufferOp::Push(e) => before.push(e),
            BufferOp::Clear => Seq::empty(),
            BufferOp::SetOverflow(_) => before,
        }
    }
}

proof fn lemma_push_window_last_n(p: Seq<Episode>, e: Episode, max_turns: nat)
    requires
        0 < max_turns,
    ensures
        push_window(last_n(p, max_turns), e, max_turns) == last_n(p.push(e), max_turns),
{
    let q = p.push(e);
    if p.len() >= max_turns {
        assert(push_window(last_n(p, max_turns), e, max_turns) =~= last_n(q, max_turns));
    } else {
        assert(push_window(last_n(p, max_turns), e, max_turns) =~= last_n(q, max_turns));
    }
}

/// Whatever pushes, clears and changes of overflow strategy a working
/// memory created empty with room for `max_turns` episodes goes through, it
/// holds exactly the latest `max_turns` episodes pushed since the last
/// clear, oldest first, and never more than `max_turns`.
pub proof fn lemma_ops_keep_latest(ops: Seq<BufferOp>, max_turns: nat)
    requires
        0 < max_turns,
    ensures
        apply_ops(Seq::empty(), ops, max_turns) == last_n(pushed_since_clear(ops), max_turns),
        apply_ops(Seq::empty(), ops, max_turns).len() <= max_turns,
    decreases ops.len(),
{
    if ops.len() == 0 {
        assert(last_n(Seq::<Episode>::empty(), max_turns) =~= Seq::<Episode>::empty());
    } else {
        let prev = ops.drop_last();
        lemma_ops_keep_latest(prev, max_turns);
        match ops.last() {
            BufferOp::Push(e) => {
                lemma_push_window_last_n(pushed_since_clear(prev), e, max_turns);
            },
            BufferOp::Clear => {
                assert(last_n(Seq::<Episode>::empty(), max_turns) =~= Seq::<Episode>::empty());
            },
            BufferOp::SetOverflow(_) => {},
        }
    }
}

/// A scan entry carries its turn whole: the turn's id, its full content and
/// its timestamp, with score 1.0 (bit pattern `0x3F80_0000`) in the working
/// tier, and the turn's role and session as metadata.
pub proof fn lemma_working_entry_keeps_turn(r: RetrievedMemory, ep: Episode)
    requires
        is_working_entry(r, ep),
    ensures
        r.id == ep.id,
        r.content@ == ep.content@,
        r.timestamp_ms == ep.timestamp_ms,
        r.score == 0x3F80_0000u32,
        r.tier == MemoryTier::Working,
        r.metadata matches MemoryMetadata::Object(m) && m@.len() == 2 && m@[0].0@ == "role"@
            && m@[0].1@ == role_name(ep.role) && m@[1].0@ == "session_id"@ && m@[1].1@ == ep.session_id@,
{
    let m = r.metadata->Object_0;
    let mm = m@.map_values(|kv: (String, String)| (kv.0@, kv.1@));
    assert(mm == seq![("role"@, role_name(ep.role)), ("session_id"@, ep.session_id@)]);
    assert(mm.len() == 2);
    assert(m@.len() == 2);
    assert(mm[0] == (m@[0].0@, m@[0].1@));
    assert(mm[1] == (m@[1].0@, m@[1].1@));
}

} // verus!
