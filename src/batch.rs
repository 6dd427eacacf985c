//! Sprite batching: sprites are grouped into runs that share a texture, and
//! a flush draws the runs in submission order, splitting any run that holds
//! more sprites than one buffer fill.

use vstd::prelude::*;

verus! {

/// How many sprites one upload of the vertex buffer holds.
pub const MAX_SPRITES: usize = 2048;

/// How many vertices one upload holds: four per sprite.
pub const MAX_VERTICES: usize = 8192;

/// How many indices the shared index buffer holds: six per sprite.
pub const MAX_INDICES: usize = 12288;

/// Identifies a texture by its handle, not by its pixels.
#[derive(Copy, Clone, Debug, PartialEq, Eq, Structural)]
pub struct TextureId(pub u32);

/// A run of consecutive sprites that share a texture; `None` stands for the
/// plain white texture used by untextured shapes.
#[derive(Copy, Clone, Debug, PartialEq, Eq, Structural)]
pub struct Batch {
    pub sprites: usize,
    pub texture: Option<TextureId>,
}

/// One draw call: `sprite_count` sprites from `first_sprite` on, all with `texture`.
#[derive(Copy, Clone, Debug, PartialEq, Eq, Structural)]
pub struct DrawCall {
    pub first_sprite: usize,
    pub sprite_count: usize,
    pub texture: Option<TextureId>,
}

/// `n` copies of `t`.
pub open spec fn repeat(t: Option<TextureId>, n: int) -> Seq<Option<TextureId>> {
    Seq::new(n as nat, |_i: int| t)
}

/// The texture of each sprite, in order, that the runs stand for.
pub open spec fn expand(runs: Seq<Batch>) -> Seq<Option<TextureId>>
    decreases runs.len(),
{
    if runs.len() == 0 {
        seq![]
    } else {
        expand(runs.drop_last()) + repeat(runs.last().texture, runs.last().sprites as int)
    }
}

/// The runs after one more sprite with texture `t`: the last run grows if it
/// has that texture, else a new run starts.
pub open spec fn push_run(runs: Seq<Batch>, t: Option<TextureId>) -> Seq<Batch> {
    if runs.len() > 0 && runs.last().texture == t {
        runs.update(runs.len() - 1, Batch { sprites: (runs.last().sprites + 1) as usize, texture: t })
    } else {
        runs.push(Batch { sprites: 1, texture: t })
    }
}

/// No run is empty, and no two neighbouring runs share a texture.
pub open spec fn runs_wf(runs: Seq<Batch>) -> bool {
    &&& forall|i: int| 0 <= i < runs.len() ==> (#[trigger] runs[i]).sprites >= 1
    &&& forall|i: int| 1 <= i < runs.len() ==> (#[trigger] runs[i]).texture != runs[i - 1].texture
}

/// The number of maximal runs of equal neighbours in `ts`.
pub open spec fn run_count(ts: Seq<Option<TextureId>>) -> nat
    decreases ts.len(),
{
    if ts.len() == 0 {
        0
    } else {
        run_count(ts.drop_last()) + if ts.len() == 1 || ts[ts.len() - 1] != ts[ts.len() - 2] {
            1nat
        } else {
            0nat
        }
    }
}

/// The draw calls for `count` sprites from `first` on, with texture `t`,
/// each of at most `MAX_SPRITES` sprites.
pub open spec fn chunks(first: int, count: int, t: Option<TextureId>) -> Seq<DrawCall>
    decreases count,
{
    if count <= 0 {
        seq![]
    } else if count <= 2048 {
        seq![DrawCall { first_sprite: first as usize, sprite_count: count as usize, texture: t }]
    } else {
        seq![DrawCall { first_sprite: first as usize, sprite_count: 2048, texture: t }] + chunks(
            first + 2048,
            count - 2048,
            t,
        )
    }
}

/// The draw calls of a flush: each run in order, split into chunks.
pub open spec fn plan(runs: Seq<Batch>) -> Seq<DrawCall>
    decreases runs.len(),
{
    if runs.len() == 0 {
        seq![]
    } else {
        let prev = runs.drop_last();
        plan(prev) + chunks(expand(prev).len() as int, runs.last().sprites as int, runs.last().texture)
    }
}

/// The texture of each sprite, in order, that the draw calls draw.
pub open spec fn expand_calls(calls: Seq<DrawCall>) -> Seq<Option<TextureId>>
    decreases calls.len(),
{
    if calls.len() == 0 {
        seq![]
    } else {
        expand_calls(calls.drop_last()) + repeat(calls.last().texture, calls.last().sprite_count as int)
    }
}

/// Collects sprites and groups them into texture runs for drawing.
pub struct Batcher<S> {
    sprites: Vec<S>,
    batches: Vec<Batch>,
}

fn same_texture(a: Option<TextureId>, b: Option<TextureId>) -> (r: bool)
    ensures
        r == (a == b),
{
    match (a, b) {
        (Some(x), Some(y)) => x.0 == y.0,
        (None, None) => true,
        _ => false,
    }
}

impl<S> Batcher<S> {
    /// The runs of sprites queued since the last flush.
    pub closed spec fn runs(&self) -> Seq<Batch> {
        if self.batches@.len() == 1 && self.batches@[0].sprites == 0 {
            seq![]
        } else {
            self.batches@
        }
    }

    /// The sprites queued since the last flush, in submission order.
    pub closed spec fn sprites(&self) -> Seq<S> {
        self.sprites@
    }

    /// The texture of each queued sprite, in submission order.
    pub open spec fn textures(&self) -> Seq<Option<TextureId>> {
        expand(self.runs())
    }

    pub closed spec fn wf(&self) -> bool {
        &&& self.batches@.len() >= 1
        &&& (self.batches@.len() == 1 && self.batches@[0].sprites == 0) || runs_wf(self.batches@)
        &&& expand(self.runs()).len() == self.sprites@.len()
        &&& self.sprites@.len() <= usize::MAX
    }

    /// An empty batcher, with one empty run ready to take the first sprite.
    pub fn new() -> (r: Batcher<S>)
        ensures
            r.wf(),
            r.runs() == Seq::<Batch>::empty(),
            r.sprites() == Seq::<S>::empty(),
    {
        let mut batches: Vec<Batch> = Vec::new();
        batches.push(Batch { sprites: 0, texture: None });
        Batcher { sprites: Vec::new(), batches }
    }

    /// The number of queued sprites.
    pub fn len(&self) -> (r: usize)
        requires
            self.wf(),
        ensures
            r == self.sprites().len(),
            r == self.textures().len(),
    {
        self.sprites.len()
    }

    /// The queued sprites, in submission order.
    pub fn sprite_slice(&self) -> (r: &[S])
        ensures
            r@ == self.sprites(),
    {
        self.sprites.as_slice()
    }

    /// Queues a sprite drawn with `texture`. It joins the last run when that
    /// run has the same texture, and starts a new run otherwise.
    pub fn push(&mut self, texture: Option<TextureId>, sprite: S)
        requires
            old(self).wf(),
            old(self).sprites().len() < usize::MAX,
        ensures
            final(self).wf(),
            final(self).runs() == push_run(old(self).runs(), texture),
            final(self).sprites() == old(self).sprites().push(sprite),
            final(self).textures() == old(self).textures().push(texture),
    {
        let last = self.batches.len() - 1;
        let batch = self.batches[last];
        proof {
            if self.runs().len() > 0 {
                lemma_run_fits(self.runs(), last as int);
            }
            lemma_expand_push_run(self.runs(), texture);
        }
        if batch.sprites == 0 {
            self.batches.set(last, Batch { sprites: 1, texture });
        } else if !same_texture(batch.texture, texture) {
            self.batches.push(Batch { sprites: 1, texture });
        } else {
            self.batches.set(last, Batch { sprites: batch.sprites + 1, texture });
        }
        self.sprites.push(sprite);
        proof {
            assert(self.runs() == push_run(old(self).runs(), texture));
        }
    }

    /// The draw calls that a flush makes, in order: each run split into
    /// calls of at most `MAX_SPRITES` sprites.
    pub fn draw_calls(&self) -> (r: Vec<DrawCall>)
        requires
            self.wf(),
        ensures
            r@ == plan(self.runs()),
    {
        let mut calls: Vec<DrawCall> = Vec::new();
        let n = self.batches.len();
        let mut index: usize = 0;
        let mut b: usize = 0;
        let ghost runs = self.runs();
        while b < n
            invariant
                self.wf(),
                runs == self.runs(),
                n == self.batches@.len(),
                0 <= b <= n,
                runs.len() == 0 ==> n == 1 && self.batches@[0].sprites == 0 && calls@.len() == 0,
                runs.len() > 0 ==> runs == self.batches@,
                runs.len() > 0 ==> calls@ == plan(runs.take(b as int)),
                runs.len() > 0 ==> index == expand(runs.take(b as int)).len(),
            decreases n - b,
        {
            let batch = self.batches[b];
            proof {
                if runs.len() > 0 {
                    lemma_expand_take_bound(runs, b as int);
                    lemma_plan_take_step(runs, b as int);
                }
            }
            if batch.sprites > 0 {
                push_chunks(&mut calls, index, batch.sprites, batch.texture);
                index = index + batch.sprites;
            } else {
                assert(chunks(index as int, 0, batch.texture) == Seq::<DrawCall>::empty());
                assert(calls@ =~= calls@ + chunks(index as int, 0, batch.texture));
            }
            b = b + 1;
        }
        proof {
            if runs.len() > 0 {
                assert(runs.take(n as int) == runs);
            } else {
                assert(plan(runs) == Seq::<DrawCall>::empty());
            }
        }
        calls
    }

    /// Empties the batcher after a flush, leaving one empty run ready.
    pub fn clear(&mut self)
        ensures
            final(self).wf(),
            final(self).runs() == Seq::<Batch>::empty(),
            final(self).sprites() == Seq::<S>::empty(),
    {
        self.sprites.clear();
        self.batches.clear();
        self.batches.push(Batch { sprites: 0, texture: None });
    }
}

/// Appends the draw calls for `count` sprites from `first` on.
fn push_chunks(calls: &mut Vec<DrawCall>, first: usize, count: usize, texture: Option<TextureId>)
    requires
        first + count <= usize::MAX,
    ensures
        final(calls)@ == old(calls)@ + chunks(first as int, count as int, texture),
{
    let mut index = first;
    let mut remaining = count;
    while remaining > 0
        invariant
            0 <= remaining <= count,
            index == first + (count - remaining),
            first + count <= usize::MAX,
            calls@ + chunks(index as int, remaining as int, texture) == old(calls)@ + chunks(
                first as int,
                count as int,
                texture,
            ),
        decreases remaining,
    {
        let n = if remaining < MAX_SPRITES {
            remaining
        } else {
            MAX_SPRITES
        };
        proof {
            lemma_chunks_step(index as int, remaining as int, texture);
        }
        calls.push(DrawCall { first_sprite: index, sprite_count: n, texture });
        index = index + n;
        remaining = remaining - n;
        proof {
            if remaining == 0 {
                assert(chunks(index as int, 0, texture) == Seq::<DrawCall>::empty());
            }
            assert(calls@ + chunks(index as int, remaining as int, texture) =~= old(calls)@ + chunks(
                first as int,
                count as int,
                texture,
            ));
        }
    }
    assert(chunks(index as int, 0, texture) == Seq::<DrawCall>::empty());
    assert(calls@ =~= old(calls)@ + chunks(first as int, count as int, texture));
}

/// The corner of a quad that index `k` of the quad's six names: two
/// triangles, top-left, bottom-left, bottom-right, then bottom-right,
/// top-right, top-left.
pub open spec fn quad_corner(k: int) -> int {
    if k == 0 || k == 5 {
        0
    } else if k == 1 {
        1
    } else if k == 2 || k == 3 {
        2
    } else {
        3
    }
}

/// The shared index buffer: six indices per quad for `quads` quads, each
/// naming the quad's own four vertices.
pub fn quad_indices(quads: usize) -> (r: Vec<u32>)
    requires
        quads <= MAX_SPRITES,
    ensures
        r@.len() == 6 * quads,
        forall|q: int, k: int| 0 <= q < quads && 0 <= k < 6 ==> #[trigger] r@[6 * q + k] == 4 * q + quad_corner(k),
{
    let pattern: [u32; 6] = [0, 1, 2, 2, 3, 0];
    let mut indices: Vec<u32> = Vec::new();
    let mut q: usize = 0;
    while q < quads
        invariant
            q <= quads <= MAX_SPRITES,
            pattern@ == seq![0u32, 1, 2, 2, 3, 0],
            indices@.len() == 6 * q,
            forall|p: int, k: int| 0 <= p < q && 0 <= k < 6 ==> #[trigger] indices@[6 * p + k] == 4 * p + quad_corner(k),
        decreases quads - q,
    {
        let base = 4 * q as u32;
        let mut k: usize = 0;
        while k < 6
            invariant
                q < quads <= MAX_SPRITES,
                k <= 6,
                base == 4 * q,
                pattern@ == seq![0u32, 1, 2, 2, 3, 0],
                indices@.len() == 6 * q + k,
                forall|p: int, j: int| 0 <= p < q && 0 <= j < 6 ==> #[trigger] indices@[6 * p + j] == 4 * p + quad_corner(j),
                forall|j: int| 0 <= j < k ==> #[trigger] indices@[6 * q + j] == 4 * q + quad_corner(j),
            decreases 6 - k,
        {
            indices.push(base + pattern[k]);
            k = k + 1;
        }
        q = q + 1;
    }
    indices
}

proof fn lemma_chunks_step(first: int, count: int, t: Option<TextureId>)
    requires
        count > 0,
    ensures
        chunks(first, count, t) == seq![
            DrawCall {
                first_sprite: first as usize,
                sprite_count: (if count < MAX_SPRITES { count } else { MAX_SPRITES as int }) as usize,
                texture: t,
            },
        ] + chunks(first + MAX_SPRITES, count - MAX_SPRITES, t),
        count <= MAX_SPRITES ==> chunks(first + MAX_SPRITES, count - MAX_SPRITES, t) == Seq::<
            DrawCall,
        >::empty(),
{
    if count <= MAX_SPRITES {
        assert(chunks(first, count, t) =~= chunks(first, count, t) + Seq::<DrawCall>::empty());
    }
}

proof fn lemma_plan_take_step(runs: Seq<Batch>, b: int)
    requires
        0 <= b < runs.len(),
    ensures
        plan(runs.take(b + 1)) == plan(runs.take(b)) + chunks(
            expand(runs.take(b)).len() as int,
            runs[b].sprites as int,
            runs[b].texture,
        ),
        expand(runs.take(b + 1)).len() == expand(runs.take(b)).len() + runs[b].sprites,
{
    assert(runs.take(b + 1).drop_last() == runs.take(b));
    assert(runs.take(b + 1).last() == runs[b]);
}

proof fn lemma_expand_push_run(runs: Seq<Batch>, t: Option<TextureId>)
    requires
        runs.len() > 0 ==> runs.last().sprites < usize::MAX,
    ensures
        expand(push_run(runs, t)) =~= expand(runs).push(t),
{
    let pushed = push_run(runs, t);
    if runs.len() > 0 && runs.last().texture == t {
        assert(pushed.drop_last() == runs.drop_last());
        assert(pushed.last().sprites == runs.last().sprites + 1);
        assert(repeat(t, runs.last().sprites as int + 1) =~= repeat(t, runs.last().sprites as int).push(t));
    } else {
        assert(pushed.drop_last() == runs);
        assert(repeat(t, 1) =~= seq![t]);
    }
}

proof fn lemma_expand_take_bound(runs: Seq<Batch>, k: int)
    requires
        0 <= k <= runs.len(),
    ensures
        expand(runs.take(k)).len() + (if k < runs.len() { runs[k].sprites as int } else { 0 })
            <= expand(runs).len(),
    decreases runs.len() - k,
{
    if k < runs.len() {
        lemma_expand_take_bound(runs, k + 1);
        assert(runs.take(k + 1).drop_last() == runs.take(k));
        assert(runs.take(k + 1).last() == runs[k]);
        if k + 1 < runs.len() {
        }
    } else {
        assert(runs.take(k) == runs);
    }
}

proof fn lemma_run_fits(runs: Seq<Batch>, i: int)
    requires
        0 <= i < runs.len(),
    ensures
        runs[i].sprites <= expand(runs).len(),
{
    lemma_expand_take_bound(runs, i);
}

proof fn lemma_run_count_repeat(x: Seq<Option<TextureId>>, t: Option<TextureId>, n: int)
    requires
        n >= 1,
    ensures
        run_count(x + repeat(t, n)) == run_count(x) + if x.len() == 0 || x.last() != t {
            1nat
        } else {
            0nat
        },
    decreases n,
{
    let y = x + repeat(t, n);
    if n == 1 {
        assert(y.drop_last() =~= x);
        assert(y[y.len() - 1] == t);
        if x.len() > 0 {
            assert(y[y.len() - 2] == x.last());
        }
    } else {
        lemma_run_count_repeat(x, t, n - 1);
        assert(y.drop_last() =~= x + repeat(t, n - 1));
        assert(y[y.len() - 1] == t);
        assert(y[y.len() - 2] == t);
    }
}

proof fn lemma_expand_last(runs: Seq<Batch>)
    requires
        runs.len() > 0,
        runs_wf(runs),
    ensures
        expand(runs).len() > 0,
        expand(runs).last() == runs.last().texture,
{
    assert(runs.last().sprites >= 1);
    let e = expand(runs);
    assert(e == expand(runs.drop_last()) + repeat(runs.last().texture, runs.last().sprites as int));
    assert(e[e.len() - 1] == runs.last().texture);
}

proof fn lemma_runs_count(runs: Seq<Batch>)
    requires
        runs_wf(runs),
    ensures
        runs.len() == run_count(expand(runs)),
    decreases runs.len(),
{
    if runs.len() > 0 {
        let init = runs.drop_last();
        assert(runs_wf(init)) by {
            assert forall|i: int| 1 <= i < init.len() implies (#[trigger] init[i]).texture
                != init[i - 1].texture by {
                assert(runs[i].texture != runs[i - 1].texture);
            }
            assert forall|i: int| 0 <= i < init.len() implies (#[trigger] init[i]).sprites >= 1 by {
                assert(runs[i].sprites >= 1);
            }
        }
        lemma_runs_count(init);
        assert(runs.last().sprites >= 1);
        lemma_run_count_repeat(expand(init), runs.last().texture, runs.last().sprites as int);
        if init.len() > 0 {
            lemma_expand_last(init);
            assert(runs[runs.len() - 1].texture != runs[runs.len() - 2].texture);
        }
    }
}

proof fn lemma_expand_calls_concat(a: Seq<DrawCall>, c: Seq<DrawCall>)
    ensures
        expand_calls(a + c) == expand_calls(a) + expand_calls(c),
    decreases c.len(),
{
    if c.len() == 0 {
        assert(a + c =~= a);
        assert(expand_calls(a) + expand_calls(c) =~= expand_calls(a));
    } else {
        lemma_expand_calls_concat(a, c.drop_last());
        assert((a + c).drop_last() =~= a + c.drop_last());
        assert((a + c).last() == c.last());
        assert(expand_calls(a + c) =~= expand_calls(a) + expand_calls(c));
    }
}

/// The calls cover sprites `first..first + n` in order, with texture `t`,
/// each call holding at least one sprite and at most `MAX_SPRITES`.
pub open spec fn covers_in_order(calls: Seq<DrawCall>, first: int) -> bool {
    &&& forall|k: int| 0 <= k < calls.len() ==> 1 <= (#[trigger] calls[k]).sprite_count <= MAX_SPRITES
    &&& forall|k: int| 0 <= k < calls.len() ==> (#[trigger] calls[k]).first_sprite == first
        + expand_calls(calls.take(k)).len()
}

proof fn lemma_chunks_cover(first: int, n: int, t: Option<TextureId>)
    requires
        0 <= first,
        0 <= n,
        first + n <= usize::MAX,
    ensures
        expand_calls(chunks(first, n, t)) == repeat(t, n),
        covers_in_order(chunks(first, n, t), first),
    decreases n,
{
    let c = chunks(first, n, t);
    if n == 0 {
        assert(expand_calls(c) =~= repeat(t, n));
    } else if n <= 2048 {
        assert(c.drop_last() =~= Seq::<DrawCall>::empty());
        assert(c.last().sprite_count == n);
        assert(expand_calls(c.drop_last()) =~= Seq::<Option<TextureId>>::empty());
        assert(expand_calls(c) =~= repeat(t, n));
        assert forall|k: int| 0 <= k < c.len() implies (#[trigger] c[k]).first_sprite == first
            + expand_calls(c.take(k)).len() by {
            assert(c.take(0) =~= Seq::<DrawCall>::empty());
        }
    } else {
        let head = seq![DrawCall { first_sprite: first as usize, sprite_count: 2048, texture: t }];
        let rest = chunks(first + 2048, n - 2048, t);
        lemma_chunks_cover(first + 2048, n - 2048, t);
        assert(c == head + rest);
        lemma_expand_calls_concat(head, rest);
        assert(head.drop_last() =~= Seq::<DrawCall>::empty());
        assert(head.last().sprite_count == 2048);
        assert(expand_calls(head.drop_last()) =~= Seq::<Option<TextureId>>::empty());
        assert(expand_calls(head) =~= repeat(t, 2048));
        assert(expand_calls(c) =~= repeat(t, n));
        assert forall|k: int| 0 <= k < c.len() implies (#[trigger] c[k]).first_sprite == first
            + expand_calls(c.take(k)).len() by {
            if k == 0 {
                assert(c.take(0) =~= Seq::<DrawCall>::empty());
            } else {
                assert(c.take(k) =~= head + rest.take(k - 1));
                lemma_expand_calls_concat(head, rest.take(k - 1));
                assert(c[k] == rest[k - 1]);
            }
        }
        assert forall|k: int| 0 <= k < c.len() implies 1 <= (#[trigger] c[k]).sprite_count
            <= MAX_SPRITES by {
            if k > 0 {
                assert(c[k] == rest[k - 1]);
            }
        }
    }
}

proof fn lemma_plan_cover(runs: Seq<Batch>)
    requires
        runs_wf(runs),
        expand(runs).len() <= usize::MAX,
    ensures
        expand_calls(plan(runs)) == expand(runs),
        covers_in_order(plan(runs), 0),
    decreases runs.len(),
{
    if runs.len() > 0 {
        let init = runs.drop_last();
        let last = runs.last();
        assert(runs_wf(init)) by {
            assert forall|i: int| 1 <= i < init.len() implies (#[trigger] init[i]).texture
                != init[i - 1].texture by {
                assert(runs[i].texture != runs[i - 1].texture);
            }
            assert forall|i: int| 0 <= i < init.len() implies (#[trigger] init[i]).sprites >= 1 by {
                assert(runs[i].sprites >= 1);
            }
        }
        let e = expand(init).len() as int;
        lemma_plan_cover(init);
        lemma_chunks_cover(e, last.sprites as int, last.texture);
        let p = plan(init);
        let c = chunks(e, last.sprites as int, last.texture);
        assert(plan(runs) == p + c);
        lemma_expand_calls_concat(p, c);
        let all = p + c;
        assert forall|k: int| 0 <= k < all.len() implies (#[trigger] all[k]).first_sprite == 0
            + expand_calls(all.take(k)).len() by {
            if k < p.len() {
                assert(all.take(k) =~= p.take(k));
                assert(all[k] == p[k]);
            } else {
                assert(all.take(k) =~= p + c.take(k - p.len()));
                lemma_expand_calls_concat(p, c.take(k - p.len()));
                assert(all[k] == c[k - p.len()]);
            }
        }
        assert forall|k: int| 0 <= k < all.len() implies 1 <= (#[trigger] all[k]).sprite_count
            <= MAX_SPRITES by {
            if k < p.len() {
                assert(all[k] == p[k]);
            } else {
                assert(all[k] == c[k - p.len()]);
            }
        }
    } else {
        assert(expand_calls(plan(runs)) =~= expand(runs));
    }
}

/// The batches of a batcher are exactly the maximal runs of equal textures
/// among its sprites, in submission order: none is empty, neighbours differ
/// in texture, and there are as many as there are runs.
pub proof fn lemma_batches_are_runs<S>(b: &Batcher<S>)
    requires
        b.wf(),
    ensures
        expand(b.runs()) == b.textures(),
        runs_wf(b.runs()),
        b.runs().len() == run_count(b.textures()),
{
    lemma_runs_count(b.runs());
}

/// A flush draws every queued sprite exactly once and in submission order:
/// the calls follow one another from the first sprite on, each holds between
/// one and `MAX_SPRITES` sprites, and each sprite is drawn with its own texture.
pub proof fn lemma_flush_in_order<S>(b: &Batcher<S>)
    requires
        b.wf(),
    ensures
        expand_calls(plan(b.runs())) == b.textures(),
        covers_in_order(plan(b.runs()), 0),
{
    lemma_plan_cover(b.runs());
}

} // verus!
