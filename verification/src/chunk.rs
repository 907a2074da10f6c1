//! Chunk planner: splits a window of blocks into consecutive ranges that a
//! provider with a bounded query range will accept.

use vstd::prelude::*;

verus! {

/// One query unit: the blocks `start..=end`.
#[derive(Clone, Copy, Debug, PartialEq, Eq, Structural)]
pub struct Chunk {
    pub start: u64,
    pub end: u64,
}

/// Distance between the starts of two neighbouring chunks.
pub open spec fn stride(max_range: u64) -> int {
    max_range + 1
}

/// Number of chunks needed for the window `from..=to`.
pub open spec fn chunk_count(from: u64, to: u64, max_range: u64) -> nat {
    if from > to {
        0
    } else {
        ((to - from) / stride(max_range) + 1) as nat
    }
}

/// First block of chunk number `i`.
pub open spec fn chunk_start(from: u64, max_range: u64, i: int) -> int {
    from + i * stride(max_range)
}

/// Last block of chunk number `i`: as far as the range limit allows, and
/// never past the end of the window.
pub open spec fn chunk_end(from: u64, to: u64, max_range: u64, i: int) -> int {
    let reach = chunk_start(from, max_range, i) + max_range;
    if reach < to {
        reach
    } else {
        to as int
    }
}

/// Chunk number `i` of the window `from..=to`.
pub open spec fn chunk_at(from: u64, to: u64, max_range: u64, i: int) -> Chunk {
    Chunk {
        start: chunk_start(from, max_range, i) as u64,
        end: chunk_end(from, to, max_range, i) as u64,
    }
}

/// The whole plan for the window `from..=to`, in ascending order.
pub open spec fn planned_chunks(from: u64, to: u64, max_range: u64) -> Seq<Chunk> {
    Seq::new(chunk_count(from, to, max_range), |i: int| chunk_at(from, to, max_range, i))
}

/// `b` is one of the blocks of the window `from..=to`.
pub open spec fn window_holds(from: u64, to: u64, b: int) -> bool {
    from <= b <= to
}

/// `b` is one of the blocks of `c`.
pub open spec fn chunk_holds(c: Chunk, b: int) -> bool {
    c.start <= b <= c.end
}

proof fn lemma_quotient_bounds(a: int, s: int)
    requires
        0 <= a,
        0 < s,
    ensures
        0 <= a / s,
        (a / s) * s <= a < (a / s) * s + s,
        a < s ==> a / s == 0,
        a >= s ==> (a - s) / s == a / s - 1,
{
    vstd::arithmetic::div_mod::lemma_fundamental_div_mod(a, s);
    vstd::arithmetic::div_mod::lemma_mod_bound(a, s);
    vstd::arithmetic::div_mod::lemma_div_pos_is_pos(a, s);
    assert((a / s) * s == s * (a / s)) by (nonlinear_arith);
    if a < s {
        vstd::arithmetic::div_mod::lemma_basic_div(a, s);
    }
    if a >= s {
        assert(a - s == (a / s - 1) * s + a % s) by (nonlinear_arith)
            requires
                a == s * (a / s) + a % s,
        ;
        vstd::arithmetic::div_mod::lemma_fundamental_div_mod_converse(
            a - s,
            s,
            a / s - 1,
            a % s,
        );
    }
}

/// Every chunk of a plan lies inside the window, is no wider than the range
/// limit, and starts right after its predecessor.
proof fn lemma_chunk_shape(from: u64, to: u64, max_range: u64, i: int)
    requires
        0 <= i < chunk_count(from, to, max_range),
    ensures
        from <= chunk_start(from, max_range, i) <= chunk_end(from, to, max_range, i) <= to,
        chunk_end(from, to, max_range, i) - chunk_start(from, max_range, i) <= max_range,
        i + 1 < chunk_count(from, to, max_range) ==> chunk_end(from, to, max_range, i) + 1
            == chunk_start(from, max_range, i + 1),
        i + 1 == chunk_count(from, to, max_range) ==> chunk_end(from, to, max_range, i) == to,
        i == 0 ==> chunk_start(from, max_range, i) == from,
{
    let s = stride(max_range);
    let a = to - from;
    lemma_quotient_bounds(a, s);
    assert(i * s <= (a / s) * s) by (nonlinear_arith)
        requires
            0 <= i <= a / s,
            0 < s,
    ;
    assert(0 <= i * s) by (nonlinear_arith)
        requires
            0 <= i,
            0 < s,
    ;
    assert((i + 1) * s == i * s + s) by (nonlinear_arith);
    if i + 1 < chunk_count(from, to, max_range) {
        assert((i + 1) * s <= (a / s) * s) by (nonlinear_arith)
            requires
                0 <= i + 1 <= a / s,
                0 < s,
        ;
    }
    if i + 1 == chunk_count(from, to, max_range) {
        assert(i * s == (a / s) * s);
    }
}

/// The plan partitions the window: its chunks are inside `from..=to`, none is
/// wider than `max_range`, they follow one another without gap or overlap in
/// ascending order, and every block of the window lies in exactly one chunk.
/// An empty window has an empty plan; a window no wider than `max_range` has
/// the whole window as its only chunk.
pub proof fn lemma_plan_partitions_window(from: u64, to: u64, max_range: u64)
    ensures
        from > to <==> planned_chunks(from, to, max_range).len() == 0,
        from <= to ==> planned_chunks(from, to, max_range).first().start == from
            && planned_chunks(from, to, max_range).last().end == to,
        from <= to && to - from <= max_range ==> planned_chunks(from, to, max_range) =~= seq![
            Chunk { start: from, end: to },
        ],
        forall|i: int|
            0 <= i < planned_chunks(from, to, max_range).len() ==> {
                let c = #[trigger] planned_chunks(from, to, max_range)[i];
                from <= c.start <= c.end <= to && c.end - c.start <= max_range
            },
        forall|i: int, j: int|
            0 <= i && j == i + 1 && j < planned_chunks(from, to, max_range).len()
                ==> #[trigger] planned_chunks(from, to, max_range)[j].start
                == #[trigger] planned_chunks(from, to, max_range)[i].end + 1,
        forall|i: int, j: int|
            0 <= i < j < planned_chunks(from, to, max_range).len()
                ==> #[trigger] planned_chunks(from, to, max_range)[i].end
                < #[trigger] planned_chunks(from, to, max_range)[j].start,
        forall|b: int|
            #[trigger] window_holds(from, to, b) ==> exists|i: int|
                0 <= i < planned_chunks(from, to, max_range).len() && #[trigger] chunk_holds(
                    planned_chunks(from, to, max_range)[i],
                    b,
                ),
        forall|b: int, i: int, j: int|
            0 <= i < planned_chunks(from, to, max_range).len() && 0 <= j < planned_chunks(
                from,
                to,
                max_range,
            ).len() && #[trigger] chunk_holds(planned_chunks(from, to, max_range)[i], b)
                && #[trigger] chunk_holds(planned_chunks(from, to, max_range)[j], b) ==> i == j,
{
    let p = planned_chunks(from, to, max_range);
    let n = chunk_count(from, to, max_range) as int;
    let s = stride(max_range);
    if from <= to {
        lemma_quotient_bounds(to - from, s);
        lemma_chunk_shape(from, to, max_range, 0);
        lemma_chunk_shape(from, to, max_range, n - 1);
    }
    assert forall|i: int| 0 <= i < p.len() implies {
        let c = #[trigger] p[i];
        from <= c.start <= c.end <= to && c.end - c.start <= max_range
    } by {
        lemma_chunk_shape(from, to, max_range, i);
    }
    assert forall|i: int, j: int| 0 <= i && j == i + 1 && j < p.len() implies #[trigger] p[j].start
        == #[trigger] p[i].end + 1 by {
        lemma_chunk_shape(from, to, max_range, i);
        lemma_chunk_shape(from, to, max_range, j);
    }
    assert forall|i: int, j: int| 0 <= i < j < p.len() implies #[trigger] p[i].end
        < #[trigger] p[j].start by {
        lemma_chunk_shape(from, to, max_range, i);
        lemma_chunk_shape(from, to, max_range, j);
        assert((i + 1) * s <= j * s) by (nonlinear_arith)
            requires
                i + 1 <= j,
                0 < s,
        ;
        assert((i + 1) * s == i * s + s) by (nonlinear_arith);
    }
    assert forall|b: int| #[trigger] window_holds(from, to, b) implies exists|i: int|
        0 <= i < p.len() && #[trigger] chunk_holds(p[i], b) by {
        let k = (b - from) / s;
        lemma_quotient_bounds(b - from, s);
        lemma_quotient_bounds(to - from, s);
        vstd::arithmetic::div_mod::lemma_div_is_ordered(b - from, to - from, s);
        lemma_chunk_shape(from, to, max_range, k);
        assert(chunk_holds(p[k], b));
    }
    assert forall|b: int, i: int, j: int|
        0 <= i < p.len() && 0 <= j < p.len() && #[trigger] chunk_holds(p[i], b)
            && #[trigger] chunk_holds(p[j], b) implies i == j by {
        if i < j {
            assert(p[i].end < p[j].start);
        }
        if j < i {
            assert(p[j].end < p[i].start);
        }
    }
    if from <= to && to - from <= max_range {
        assert(p[0] == Chunk { start: from, end: to });
    }
}

/// Dropping the first `k` chunks of a plan leaves the plan of the window that
/// starts where chunk `k` starts: a plan can be taken up again at any chunk.
pub proof fn lemma_plan_resumes(from: u64, to: u64, max_range: u64, k: int)
    requires
        0 <= k < chunk_count(from, to, max_range),
    ensures
        chunk_start(from, max_range, k) <= to,
        planned_chunks(from, to, max_range).skip(k) =~= planned_chunks(
            chunk_start(from, max_range, k) as u64,
            to,
            max_range,
        ),
    decreases k,
{
    let s = stride(max_range);
    lemma_chunk_shape(from, to, max_range, k);
    if k > 0 {
        lemma_plan_resumes(from, to, max_range, k - 1);
        let prev = chunk_start(from, max_range, k - 1) as u64;
        lemma_chunk_shape(from, to, max_range, k - 1);
        assert(k * s == (k - 1) * s + s) by (nonlinear_arith);
        lemma_plan_steps(prev, to, max_range);
        assert(planned_chunks(from, to, max_range).skip(k) =~= planned_chunks(
            from,
            to,
            max_range,
        ).skip(k - 1).skip(1));
    } else {
        assert(0 * s == 0) by (nonlinear_arith);
    }
}

/// One step of a plan: behind its first chunk comes the plan of the rest of
/// the window, and nothing where the first chunk reaches the window's end.
proof fn lemma_plan_steps(from: u64, to: u64, max_range: u64)
    requires
        from <= to,
    ensures
        planned_chunks(from, to, max_range).len() >= 1,
        planned_chunks(from, to, max_range)[0] == (Chunk {
            start: from,
            end: if to - from <= max_range {
                to
            } else {
                (from + max_range) as u64
            },
        }),
        to - from <= max_range ==> planned_chunks(from, to, max_range).skip(1) =~= Seq::<
            Chunk,
        >::empty(),
        to - from > max_range ==> planned_chunks(from, to, max_range).skip(1) =~= planned_chunks(
            (from + max_range + 1) as u64,
            to,
            max_range,
        ),
{
    let s = stride(max_range);
    let p = planned_chunks(from, to, max_range);
    lemma_quotient_bounds(to - from, s);
    lemma_chunk_shape(from, to, max_range, 0);
    assert(0 * s == 0) by (nonlinear_arith);
    if to - from > max_range {
        let next = (from + max_range + 1) as u64;
        let q = planned_chunks(next, to, max_range);
        assert(p.skip(1).len() == q.len());
        assert forall|i: int| 0 <= i < q.len() implies p.skip(1)[i] == q[i] by {
            assert((i + 1) * s == i * s + s) by (nonlinear_arith);
        }
    }
}

/// Walks a plan one chunk at a time. Its view is the part of the plan that
/// has not been handed out yet.
#[derive(Clone, Copy, Debug, PartialEq, Eq)]
pub struct ChunkPlanner {
    next: u64,
    to: u64,
    max_range: u64,
    done: bool,
}

impl View for ChunkPlanner {
    type V = Seq<Chunk>;

    closed spec fn view(&self) -> Seq<Chunk> {
        if self.done {
            Seq::empty()
        } else {
            planned_chunks(self.next, self.to, self.max_range)
        }
    }
}

impl ChunkPlanner {
    /// Last block of the window that this planner walks.
    pub closed spec fn window_end(&self) -> u64 {
        self.to
    }

    /// The range limit that this planner honours.
    pub closed spec fn range_limit(&self) -> u64 {
        self.max_range
    }

    /// A planner for the window `from..=to` with chunks of at most
    /// `max_range + 1` blocks (`end - start <= max_range`).
    pub fn new(from: u64, to: u64, max_range: u64) -> (p: ChunkPlanner)
        ensures
            p@ == planned_chunks(from, to, max_range),
            p.window_end() == to,
            p.range_limit() == max_range,
    {
        ChunkPlanner { next: from, to, max_range, done: from > to }
    }

    /// Whether every chunk has been handed out.
    pub fn is_finished(&self) -> (b: bool)
        ensures
            b == (self@.len() == 0),
    {
        proof {
            lemma_plan_partitions_window(self.next, self.to, self.max_range);
        }
        self.done || self.next > self.to
    }

    /// Hands out the next chunk of the plan, or `None` once the window is
    /// covered.
    pub fn next_chunk(&mut self) -> (r: Option<Chunk>)
        ensures
            old(self)@.len() == 0 ==> r is None && final(self)@ == old(self)@,
            old(self)@.len() > 0 ==> r == Some(old(self)@[0]) && final(self)@ == old(self)@.skip(
                1,
            ),
            final(self).window_end() == old(self).window_end(),
            final(self).range_limit() == old(self).range_limit(),
    {
        proof {
            lemma_plan_partitions_window(self.next, self.to, self.max_range);
        }
        if self.done || self.next > self.to {
            return None;
        }
        proof {
            lemma_plan_steps(self.next, self.to, self.max_range);
        }
        let start: u64 = self.next;
        if self.to - start <= self.max_range {
            let end: u64 = self.to;
            self.done = true;
            Some(Chunk { start, end })
        } else {
            let end: u64 = start + self.max_range;
            self.next = end + 1;
            Some(Chunk { start, end })
        }
    }
}

/// The whole plan for the window `from..=to` at once.
pub fn plan_chunks(from: u64, to: u64, max_range: u64) -> (chunks: Vec<Chunk>)
    ensures
        chunks@ == planned_chunks(from, to, max_range),
{
    let mut planner = ChunkPlanner::new(from, to, max_range);
    let mut chunks: Vec<Chunk> = Vec::new();
    let ghost plan = planned_chunks(from, to, max_range);
    loop
        invariant
            plan == planned_chunks(from, to, max_range),
            chunks@.len() <= plan.len(),
            chunks@ =~= plan.take(chunks@.len() as int),
            planner@ =~= plan.skip(chunks@.len() as int),
        decreases planner@.len(),
    {
        match planner.next_chunk() {
            Some(c) => {
                chunks.push(c);
            },
            None => {
                assert(plan.skip(chunks@.len() as int).len() == plan.len() - chunks@.len());
                assert(plan.take(chunks@.len() as int) =~= plan);
                return chunks;
            },
        }
    }
}

} // verus!
