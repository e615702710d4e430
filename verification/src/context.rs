//! The reconciliation context: a cache, persistent across frames, from
//! element identity to the last-bound descriptor and its scene-node handle.
//! A reconciliation pass diffs the declared frame against the cache, reports
//! which elements must be bound to fresh nodes, and evicts entries whose
//! identity lies beyond the frame's highest one.

use crate::builder::Imgui;
use crate::widgets::widget_id;
use crate::widgets::Widget;
use crate::widgets::WidgetV;
use std::collections::HashMap;
use vstd::prelude::*;

verus! {

/// A cache slot: the descriptor last bound under an identity, and the handle
/// of the scene node it was bound onto.
pub struct CacheEntry {
    pub widget: Widget,
    pub node: u64,
}

/// The mathematical value of a cache slot.
pub struct EntryV {
    pub widget: WidgetV,
    pub node: u64,
}

/// One bind order produced by a reconciliation pass: the element with this
/// identity must be materialized onto the (fresh) node handle.
#[derive(Debug, PartialEq, Eq, Structural, Clone, Copy)]
pub struct BindAction {
    pub id: u32,
    pub node: u64,
}

/// The cache as a mathematical map from identity to slot value.
pub open spec fn cache_v(m: Map<u32, CacheEntry>) -> Map<u32, EntryV> {
    Map::new(
        |k: u32| m.contains_key(k),
        |k: u32| EntryV { widget: m[k].widget@, node: m[k].node },
    )
}

/// Whether a declared descriptor must be (re)bound: its identity is not
/// cached, or the cached descriptor differs from the declared one.
pub open spec fn needs_bind(cache: Map<u32, EntryV>, w: WidgetV) -> bool {
    !cache.contains_key(widget_id(w)) || cache[widget_id(w)].widget != w
}

/// The outcome of a reconciliation pass over a frame.
pub struct RecOut {
    pub cache: Map<u32, EntryV>,
    pub binds: Seq<BindAction>,
    pub next_node: u64,
}

/// The diff-and-bind pass, element by element in frame order: a descriptor
/// that is new or changed is bound to the next fresh node handle and stored;
/// an unchanged one leaves its cache slot untouched.
pub open spec fn reconcile_rec(cache: Map<u32, EntryV>, frame: Seq<WidgetV>, next: u64) -> RecOut
    decreases frame.len(),
{
    if frame.len() == 0 {
        RecOut { cache, binds: Seq::empty(), next_node: next }
    } else {
        let w = frame[0];
        let id = widget_id(w);
        if needs_bind(cache, w) {
            let r = reconcile_rec(
                cache.insert(id, EntryV { widget: w, node: next }),
                frame.drop_first(),
                (next + 1) as u64,
            );
            RecOut {
                cache: r.cache,
                binds: seq![BindAction { id, node: next }] + r.binds,
                next_node: r.next_node,
            }
        } else {
            reconcile_rec(cache, frame.drop_first(), next)
        }
    }
}

/// One element of the pass, phrased over an already-computed outcome; used
/// to reason about the pass from the back.
pub open spec fn reconcile_step(r: RecOut, w: WidgetV) -> RecOut {
    let id = widget_id(w);
    if needs_bind(r.cache, w) {
        RecOut {
            cache: r.cache.insert(id, EntryV { widget: w, node: r.next_node }),
            binds: r.binds.push(BindAction { id, node: r.next_node }),
            next_node: (r.next_node + 1) as u64,
        }
    } else {
        r
    }
}

/// Processing a frame extended by one element is processing the frame, then
/// that element.
pub proof fn lemma_reconcile_snoc(cache: Map<u32, EntryV>, frame: Seq<WidgetV>, w: WidgetV, next: u64)
    ensures
        reconcile_rec(cache, frame.push(w), next) == reconcile_step(
            reconcile_rec(cache, frame, next),
            w,
        ),
    decreases frame.len(),
{
    if frame.len() == 0 {
        reveal_with_fuel(reconcile_rec, 2);
        assert(frame.push(w)[0] == w);
        assert(frame.push(w).drop_first() =~= Seq::<WidgetV>::empty());
        let r0 = reconcile_rec(cache, frame, next);
        assert(r0.binds =~= Seq::<BindAction>::empty());
        if needs_bind(cache, w) {
            let id = widget_id(w);
            assert(seq![BindAction { id, node: next }] + Seq::<BindAction>::empty() =~= r0.binds.push(
                BindAction { id, node: next },
            ));
        }
    } else {
        assert(frame.push(w)[0] == frame[0]);
        assert(frame.push(w).drop_first() =~= frame.drop_first().push(w));
        let w0 = frame[0];
        let id0 = widget_id(w0);
        if needs_bind(cache, w0) {
            let cache1 = cache.insert(id0, EntryV { widget: w0, node: next });
            let next1 = (next + 1) as u64;
            lemma_reconcile_snoc(cache1, frame.drop_first(), w, next1);
            let r1 = reconcile_rec(cache1, frame.drop_first(), next1);
            let b0 = BindAction { id: id0, node: next };
            if needs_bind(r1.cache, w) {
                let bw = BindAction { id: widget_id(w), node: r1.next_node };
                assert(seq![b0] + r1.binds.push(bw) =~= (seq![b0] + r1.binds).push(bw));
            }
        } else {
            lemma_reconcile_snoc(cache, frame.drop_first(), w, next);
        }
    }
}

/// Eviction: every cache slot whose identity lies strictly beyond the
/// frame's highest assigned identity is removed.
pub open spec fn strip_spec(cache: Map<u32, EntryV>, curr: u32) -> Map<u32, EntryV> {
    cache.restrict(Set::new(|k: u32| k <= curr))
}

/// The whole reconciliation pass: diff and bind in frame order, then evict
/// the slots beyond the frame's highest identity.
pub open spec fn pre_render_spec(cache: Map<u32, EntryV>, frame: Seq<WidgetV>, next: u64) -> RecOut {
    let r = reconcile_rec(cache, frame, next);
    RecOut { cache: strip_spec(r.cache, frame.len() as u32), binds: r.binds, next_node: r.next_node }
}

/// The persistent reconciliation state: the cache, the highest identity ever
/// cached (a bound used by eviction), and the next fresh node handle.
pub struct Context {
    pub go: HashMap<u32, CacheEntry>,
    pub high: u32,
    pub next_node: u64,
}

impl Context {
    /// The cache as a mathematical map.
    pub open spec fn cache(&self) -> Map<u32, EntryV> {
        cache_v(self.go@)
    }

    /// Every cached identity is positive and no larger than `high`.
    pub open spec fn wf(&self) -> bool {
        forall|k: u32| #[trigger] self.cache().contains_key(k) ==> 1 <= k <= self.high
    }

    /// A fresh context with an empty cache.
    pub fn new() -> (r: Context)
        ensures
            r.wf(),
            r.cache() == Map::<u32, EntryV>::empty(),
            r.next_node == 0,
    {
        let r = Context { go: HashMap::new(), high: 0, next_node: 0 };
        proof {
            assert(r.cache() =~= Map::<u32, EntryV>::empty());
        }
        r
    }

    /// Clears the entire cache; node handles already given out stay retired.
    pub fn reset(&mut self)
        ensures
            final(self).wf(),
            final(self).cache() == Map::<u32, EntryV>::empty(),
            final(self).next_node == old(self).next_node,
    {
        self.go.clear();
        self.high = 0;
        proof {
            assert(self.cache() =~= Map::<u32, EntryV>::empty());
        }
    }
}

/// Removes every cache entry whose identity is strictly greater than `curr`;
/// `high` bounds the identities present.
fn strip_cache(curr: u32, hm: &mut HashMap<u32, CacheEntry>, high: u32)
    requires
        forall|k: u32| #[trigger] cache_v(old(hm)@).contains_key(k) ==> k <= high,
    ensures
        cache_v(final(hm)@) == strip_spec(cache_v(old(hm)@), curr),
{
    let ghost orig = hm@;
    proof {
        assert(cache_v(hm@) =~= cache_v(orig).restrict(
            Set::new(|j: u32| j <= curr || j > curr),
        ));
    }
    let mut k: u32 = curr;
    while k < high
        invariant
            curr <= k,
            forall|j: u32| #[trigger] cache_v(orig).contains_key(j) ==> j <= high,
            cache_v(hm@) == cache_v(orig).restrict(Set::new(|j: u32| j <= curr || j > k)),
        decreases high - k,
    {
        let ghost kprev = k;
        let ghost prev = hm@;
        k = k + 1;
        hm.remove(&k);
        proof {
            assert(hm@ == prev.remove(k));
            assert(cache_v(prev) == cache_v(orig).restrict(
                Set::new(|j: u32| j <= curr || j > kprev),
            ));
            let rhs = cache_v(orig).restrict(Set::new(|j: u32| j <= curr || j > k));
            assert forall|j: u32| #[trigger] cache_v(hm@).contains_key(j) implies rhs.contains_key(
                j,
            ) && cache_v(hm@)[j] == rhs[j] by {
                assert(prev.contains_key(j) && j != k);
                assert(cache_v(prev).contains_key(j));
                assert(cache_v(prev)[j] == cache_v(orig)[j]);
            };
            assert forall|j: u32| #[trigger] rhs.contains_key(j) implies cache_v(
                hm@,
            ).contains_key(j) by {
                assert(cache_v(prev).contains_key(j));
                assert(j != k);
            };
            assert(cache_v(hm@) =~= rhs);
        }
    }
    proof {
        assert(cache_v(hm@) =~= strip_spec(cache_v(orig), curr));
    }
}

/// The per-frame reconciliation pass.  Reads the declared frame and the
/// cache; stores a fresh node handle for every new or changed element;
/// evicts the entries beyond the frame's highest identity; returns, in frame
/// order, the bind orders the host must materialize.  The cache records a
/// bind as soon as it is ordered: a host that fails to materialize one
/// should [`Context::reset`] rather than carry a slot whose node was never
/// attached.
pub fn pre_render(ui: &Imgui, ctx: &mut Context) -> (binds: Vec<BindAction>)
    requires
        ui.wf(),
        old(ctx).wf(),
        old(ctx).next_node + ui.frame().len() <= u64::MAX,
    ensures
        final(ctx).wf(),
        ({
            let r = pre_render_spec(old(ctx).cache(), ui.frame(), old(ctx).next_node);
            &&& final(ctx).cache() == r.cache
            &&& binds@ == r.binds
            &&& final(ctx).next_node == r.next_node
        }),
{
    let ghost cache0 = ctx.cache();
    let ghost next0 = ctx.next_node;
    let mut binds: Vec<BindAction> = Vec::new();
    let mut idx: usize = 0;
    while idx < ui.render_list.len()
        invariant
            ui.wf(),
            idx <= ui.render_list.len(),
            next0 + ui.frame().len() <= u64::MAX,
            next0 <= ctx.next_node,
            ctx.next_node <= next0 + idx,
            forall|k: u32| #[trigger] ctx.cache().contains_key(k) ==> 1 <= k <= ctx.high,
            ({
                let r = reconcile_rec(cache0, ui.frame().take(idx as int), next0);
                &&& ctx.cache() == r.cache
                &&& binds@ == r.binds
                &&& ctx.next_node == r.next_node
            }),
        decreases ui.render_list@.len() - idx,
    {
        let ghost prefix = ui.frame().take(idx as int);
        let w = &ui.render_list[idx];
        let id = w.id();
        let do_insert = match ctx.go.get(&id) {
            Option::None => true,
            Option::Some(e) => !(e.widget == *w),
        };
        proof {
            assert(ui.frame()[idx as int] == ui.render_list@[idx as int]@);
            assert(do_insert == needs_bind(ctx.cache(), ui.frame()[idx as int]));
        }
        if do_insert {
            let node = ctx.next_node;
            ctx.next_node = ctx.next_node + 1;
            let entry = CacheEntry { widget: w.clone(), node };
            let ghost before = ctx.cache();
            ctx.go.insert(id, entry);
            if id > ctx.high {
                ctx.high = id;
            }
            binds.push(BindAction { id, node });
            proof {
                assert(ctx.cache() =~= before.insert(
                    id,
                    EntryV { widget: ui.frame()[idx as int], node },
                ));
            }
        }
        proof {
            lemma_reconcile_snoc(cache0, prefix, ui.frame()[idx as int], next0);
            assert(ui.frame().take(idx + 1) =~= prefix.push(ui.frame()[idx as int]));
            let r = reconcile_rec(cache0, ui.frame().take(idx + 1), next0);
            assert(binds@ =~= r.binds);
        }
        idx = idx + 1;
    }
    proof {
        assert(ui.frame().take(ui.render_list@.len() as int) =~= ui.frame());
    }
    let high = ctx.high;
    strip_cache(ui.id, &mut ctx.go, high);
    if ui.id < ctx.high {
        ctx.high = ui.id;
    }
    proof {
        let r = pre_render_spec(cache0, ui.frame(), next0);
        assert(ctx.cache() == r.cache);
    }
    binds
}

} // verus!
