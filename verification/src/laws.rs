//! The general properties of the library, each stated over the spec-level
//! models and proved: the coordinate algebra's cancellation, stable identity
//! across frames, change detection, eviction, and reset idempotence.

use crate::context::needs_bind;
use crate::context::pre_render_spec;
use crate::context::reconcile_rec;
use crate::context::strip_spec;
use crate::context::BindAction;
use crate::context::EntryV;
use crate::context::RecOut;
use crate::geometry::div_trunc;
use crate::geometry::screen_ok;
use crate::geometry::spec_translate;
use crate::geometry::EXTENT_MAX;
use crate::metric::add_in_range;
use crate::metric::FP_ONE;
use crate::metric::spec_add;
use crate::metric::spec_sub;
use crate::metric::sub_in_range;
use crate::metric::Metric;
use crate::widgets::widget_id;
use crate::widgets::WidgetV;
use vstd::prelude::*;

verus! {

/// Adding then subtracting the same value returns to the start, exactly,
/// whenever both operands share a kind or the left one is already `Mixed`.
/// (Adding a `Pixel` to a `Native` promotes the result to `Mixed`, so the
/// round trip cannot return to a non-`Mixed` left operand of another kind.)
pub proof fn lemma_add_sub_cancel(a: Metric, b: Metric)
    requires
        (a is Native && b is Native) || (a is Pixel && b is Pixel) || a is Mixed,
        add_in_range(a, b),
        sub_in_range(spec_add(a, b), b),
    ensures
        spec_sub(spec_add(a, b), b) == a,
{
}

/// The promotion rule is symmetric: adding coordinate values commutes.
pub proof fn lemma_add_comm(a: Metric, b: Metric)
    requires
        add_in_range(a, b),
        add_in_range(b, a),
    ensures
        spec_add(a, b) == spec_add(b, a),
{
}

/// Pivot math: an element anchored at its center, declared at the
/// top-left origin, lands with its center offset half its own extents from
/// the screen's top-left corner in normalized device coordinates.  Extents
/// are taken even, so that halving them is exact.
pub proof fn lemma_center_pivot(w: i64, h: i64, sw: u32, sh: u32, hidpi: i64)
    requires
        screen_ok(sw, sh, hidpi),
        0 <= w <= EXTENT_MAX,
        0 <= h <= EXTENT_MAX,
        w % 2 == 0,
        h % 2 == 0,
    ensures
        spec_translate(
            Metric::Native(0i64, 0i64),
            Metric::Native(32768i64, 32768i64),
            sw as int,
            sh as int,
            hidpi as int,
            w as int,
            h as int,
        ) == (-FP_ONE - w / 2, FP_ONE + h / 2, 0int),
{
    assert(32768 * (w as int) == FP_ONE * ((w as int) / 2));
    assert(32768 * (h as int) == FP_ONE * ((h as int) / 2));
    vstd::arithmetic::div_mod::lemma_div_multiples_vanish((w as int) / 2, FP_ONE as int);
    vstd::arithmetic::div_mod::lemma_div_multiples_vanish((h as int) / 2, FP_ONE as int);
    assert(div_trunc(32768 * (w as int), FP_ONE as int) == (w as int) / 2);
    assert(div_trunc(32768 * (h as int), FP_ONE as int) == (h as int) / 2);
}

/// Every per-frame identity equals the element's position in the frame plus
/// one: the shape the frame builder guarantees.
pub open spec fn frame_wf(f: Seq<WidgetV>) -> bool {
    forall|i: int| 0 <= i < f.len() ==> widget_id(#[trigger] f[i]) == i + 1
}

/// No two elements of the frame share an identity.
pub open spec fn distinct_ids(f: Seq<WidgetV>) -> bool {
    forall|i: int, j: int|
        0 <= i < j < f.len() ==> widget_id(#[trigger] f[i]) != widget_id(#[trigger] f[j])
}

/// A sequentially-numbered frame has distinct identities.
pub proof fn lemma_frame_wf_distinct(f: Seq<WidgetV>)
    requires
        frame_wf(f),
    ensures
        distinct_ids(f),
{
}

/// A sequentially-numbered frame cannot be longer than the identity type
/// allows.
pub proof fn lemma_frame_wf_len(f: Seq<WidgetV>)
    requires
        frame_wf(f),
    ensures
        f.len() <= u32::MAX,
{
    if f.len() > u32::MAX {
        assert(widget_id(f[u32::MAX as int]) == u32::MAX as int + 1);
    }
}

/// Whether some element of the frame carries the identity `k`.
pub open spec fn f_contains_id(f: Seq<WidgetV>, k: u32) -> bool
    decreases f.len(),
{
    if f.len() == 0 {
        false
    } else {
        widget_id(f[0]) == k || f_contains_id(f.drop_first(), k)
    }
}

/// The identities a frame carries are exactly those of its elements.
pub proof fn lemma_f_contains_id_iff(f: Seq<WidgetV>, k: u32)
    ensures
        f_contains_id(f, k) <==> exists|i: int| 0 <= i < f.len() && widget_id(#[trigger] f[i]) == k,
    decreases f.len(),
{
    if f.len() == 0 {
    } else {
        let rest = f.drop_first();
        lemma_f_contains_id_iff(rest, k);
        if f_contains_id(f, k) {
            if widget_id(f[0]) == k {
                assert(widget_id(f[0]) == k);
            } else {
                let i = choose|i: int| 0 <= i < rest.len() && widget_id(#[trigger] rest[i]) == k;
                assert(widget_id(f[i + 1]) == k);
            }
        }
        if exists|i: int| 0 <= i < f.len() && widget_id(#[trigger] f[i]) == k {
            let i = choose|i: int| 0 <= i < f.len() && widget_id(#[trigger] f[i]) == k;
            if i > 0 {
                assert(widget_id(rest[i - 1]) == k);
            }
        }
    }
}

/// Reconciliation never touches a cache slot whose identity no frame element
/// carries.
pub proof fn lemma_reconcile_untouched(
    c: Map<u32, EntryV>,
    f: Seq<WidgetV>,
    n: u64,
    k: u32,
)
    requires
        forall|i: int| 0 <= i < f.len() ==> widget_id(#[trigger] f[i]) != k,
    ensures
        reconcile_rec(c, f, n).cache.contains_key(k) == c.contains_key(k),
        c.contains_key(k) ==> reconcile_rec(c, f, n).cache[k] == c[k],
    decreases f.len(),
{
    if f.len() == 0 {
    } else {
        let w0 = f[0];
        let id0 = widget_id(w0);
        let rest = f.drop_first();
        assert(forall|i: int| 0 <= i < rest.len() ==> widget_id(#[trigger] rest[i]) != k);
        if needs_bind(c, w0) {
            lemma_reconcile_untouched(
                c.insert(id0, EntryV { widget: w0, node: n }),
                rest,
                (n + 1) as u64,
                k,
            );
        } else {
            lemma_reconcile_untouched(c, rest, n, k);
        }
    }
}

/// After reconciliation, every declared element sits in the cache under its
/// identity, with exactly the descriptor declared this frame.
pub proof fn lemma_reconcile_covers(c: Map<u32, EntryV>, f: Seq<WidgetV>, n: u64)
    requires
        distinct_ids(f),
    ensures
        forall|i: int|
            0 <= i < f.len() ==> {
                let r = reconcile_rec(c, f, n);
                &&& r.cache.contains_key(widget_id(#[trigger] f[i]))
                &&& r.cache[widget_id(f[i])].widget == f[i]
            },
    decreases f.len(),
{
    if f.len() == 0 {
    } else {
        let w0 = f[0];
        let id0 = widget_id(w0);
        let rest = f.drop_first();
        let r = reconcile_rec(c, f, n);
        assert(distinct_ids(rest)) by {
            assert forall|i: int, j: int| 0 <= i < j < rest.len() implies widget_id(
                #[trigger] rest[i],
            ) != widget_id(#[trigger] rest[j]) by {
                assert(rest[i] == f[i + 1] && rest[j] == f[j + 1]);
            }
        };
        assert(forall|i: int| 0 <= i < rest.len() ==> widget_id(#[trigger] rest[i]) != id0);
        if needs_bind(c, w0) {
            let c1 = c.insert(id0, EntryV { widget: w0, node: n });
            let n1 = (n + 1) as u64;
            lemma_reconcile_covers(c1, rest, n1);
            lemma_reconcile_untouched(c1, rest, n1, id0);
            assert forall|i: int| 0 <= i < f.len() implies r.cache.contains_key(
                widget_id(#[trigger] f[i]),
            ) && r.cache[widget_id(f[i])].widget == f[i] by {
                if i > 0 {
                    assert(f[i] == rest[i - 1]);
                }
            }
        } else {
            lemma_reconcile_covers(c, rest, n);
            lemma_reconcile_untouched(c, rest, n, id0);
            assert forall|i: int| 0 <= i < f.len() implies r.cache.contains_key(
                widget_id(#[trigger] f[i]),
            ) && r.cache[widget_id(f[i])].widget == f[i] by {
                if i > 0 {
                    assert(f[i] == rest[i - 1]);
                }
            }
        }
    }
}

/// Reconciling a frame whose every element is already cached unchanged binds
/// nothing and leaves the cache and the node counter as they were.
pub proof fn lemma_reconcile_all_hits(c: Map<u32, EntryV>, f: Seq<WidgetV>, n: u64)
    requires
        forall|i: int|
            0 <= i < f.len() ==> c.contains_key(widget_id(#[trigger] f[i])) && c[widget_id(
                f[i],
            )].widget == f[i],
    ensures
        reconcile_rec(c, f, n) == (RecOut { cache: c, binds: Seq::<BindAction>::empty(), next_node: n }),
    decreases f.len(),
{
    if f.len() == 0 {
    } else {
        let rest = f.drop_first();
        assert(forall|i: int|
            0 <= i < rest.len() ==> c.contains_key(widget_id(#[trigger] rest[i])) && c[widget_id(
                rest[i],
            )].widget == rest[i]);
        assert(!needs_bind(c, f[0]));
        lemma_reconcile_all_hits(c, rest, n);
    }
}

/// Which identities the cache holds after the diff pass: exactly those it
/// held before together with those the frame declares.
pub proof fn lemma_reconcile_dom(c: Map<u32, EntryV>, f: Seq<WidgetV>, n: u64)
    ensures
        forall|k: u32|
            #[trigger] reconcile_rec(c, f, n).cache.contains_key(k) <==> (c.contains_key(k)
                || f_contains_id(f, k)),
    decreases f.len(),
{
    let r = reconcile_rec(c, f, n);
    if f.len() == 0 {
    } else {
        let w0 = f[0];
        let id0 = widget_id(w0);
        let rest = f.drop_first();
        if needs_bind(c, w0) {
            let c1 = c.insert(id0, EntryV { widget: w0, node: n });
            let n1 = (n + 1) as u64;
            lemma_reconcile_dom(c1, rest, n1);
            let rc = reconcile_rec(c1, rest, n1);
            assert(r.cache == rc.cache);
            assert forall|k: u32| #[trigger] r.cache.contains_key(k) <==> (c.contains_key(k)
                || f_contains_id(f, k)) by {
                assert(rc.cache.contains_key(k) <==> (c1.contains_key(k) || f_contains_id(
                    rest,
                    k,
                )));
                assert(f_contains_id(f, k) == (id0 == k || f_contains_id(rest, k)));
            }
        } else {
            lemma_reconcile_dom(c, rest, n);
            let rc = reconcile_rec(c, rest, n);
            assert(r.cache == rc.cache);
            assert forall|k: u32| #[trigger] r.cache.contains_key(k) <==> (c.contains_key(k)
                || f_contains_id(f, k)) by {
                assert(rc.cache.contains_key(k) <==> (c.contains_key(k) || f_contains_id(
                    rest,
                    k,
                )));
                assert(f_contains_id(f, k) == (id0 == k || f_contains_id(rest, k)));
            }
        }
    }
}

/// Stripping a cache the pass has already stripped changes nothing.
pub proof fn lemma_strip_stable(c: Map<u32, EntryV>, curr: u32)
    ensures
        strip_spec(strip_spec(c, curr), curr) == strip_spec(c, curr),
{
    assert(strip_spec(strip_spec(c, curr), curr) =~= strip_spec(c, curr));
}

/// Stable identity: declaring the same frame twice in a row yields no binds
/// on the second pass, and leaves the cache and node counter untouched.
pub proof fn lemma_stable_identity(c: Map<u32, EntryV>, f: Seq<WidgetV>, n: u64)
    requires
        frame_wf(f),
    ensures
        ({
            let r1 = pre_render_spec(c, f, n);
            let r2 = pre_render_spec(r1.cache, f, r1.next_node);
            &&& r2.binds == Seq::<BindAction>::empty()
            &&& r2.cache == r1.cache
            &&& r2.next_node == r1.next_node
        }),
{
    let r1 = pre_render_spec(c, f, n);
    let rec1 = reconcile_rec(c, f, n);
    lemma_frame_wf_distinct(f);
    lemma_frame_wf_len(f);
    lemma_reconcile_covers(c, f, n);
    assert forall|i: int| 0 <= i < f.len() implies r1.cache.contains_key(
        widget_id(#[trigger] f[i]),
    ) && r1.cache[widget_id(f[i])].widget == f[i] by {
        assert(widget_id(f[i]) == i + 1);
        assert(widget_id(f[i]) <= f.len() as u32);
    }
    lemma_reconcile_all_hits(r1.cache, f, r1.next_node);
    lemma_strip_stable(rec1.cache, f.len() as u32);
}

/// Change detection, step one: if every element but the one at `j` is cached
/// unchanged and that one needs a bind, the pass binds exactly that element.
pub proof fn lemma_reconcile_single_miss(c: Map<u32, EntryV>, f: Seq<WidgetV>, n: u64, j: int)
    requires
        0 <= j < f.len(),
        distinct_ids(f),
        forall|i: int|
            0 <= i < f.len() && i != j ==> c.contains_key(widget_id(#[trigger] f[i])) && c[
                widget_id(f[i])
            ].widget == f[i],
        needs_bind(c, f[j]),
    ensures
        reconcile_rec(c, f, n) == (RecOut {
            cache: c.insert(widget_id(f[j]), EntryV { widget: f[j], node: n }),
            binds: seq![BindAction { id: widget_id(f[j]), node: n }],
            next_node: (n + 1) as u64,
        }),
    decreases f.len(),
{
    let w0 = f[0];
    let id0 = widget_id(w0);
    let rest = f.drop_first();
    assert(distinct_ids(rest)) by {
        assert forall|i: int, k: int| 0 <= i < k < rest.len() implies widget_id(
            #[trigger] rest[i],
        ) != widget_id(#[trigger] rest[k]) by {
            assert(rest[i] == f[i + 1] && rest[k] == f[k + 1]);
        }
    };
    if j == 0 {
        let c1 = c.insert(id0, EntryV { widget: w0, node: n });
        let n1 = (n + 1) as u64;
        assert forall|i: int| 0 <= i < rest.len() implies c1.contains_key(
            widget_id(#[trigger] rest[i]),
        ) && c1[widget_id(rest[i])].widget == rest[i] by {
            assert(rest[i] == f[i + 1]);
            assert(widget_id(f[i + 1]) != id0);
        }
        lemma_reconcile_all_hits(c1, rest, n1);
        assert(seq![BindAction { id: id0, node: n }] + Seq::<BindAction>::empty() =~= seq![
            BindAction { id: id0, node: n },
        ]);
    } else {
        assert(!needs_bind(c, w0));
        assert forall|i: int| 0 <= i < rest.len() && i != j - 1 implies c.contains_key(
            widget_id(#[trigger] rest[i]),
        ) && c[widget_id(rest[i])].widget == rest[i] by {
            assert(rest[i] == f[i + 1]);
        }
        assert(rest[j - 1] == f[j]);
        lemma_reconcile_single_miss(c, rest, n, j - 1);
    }
}

/// Change detection: after a frame is reconciled, altering one element and
/// reconciling again rebinds exactly that element, onto a fresh node, and
/// leaves every other cache slot untouched.
pub proof fn lemma_change_detection(
    c: Map<u32, EntryV>,
    f: Seq<WidgetV>,
    f2: Seq<WidgetV>,
    n: u64,
    j: int,
)
    requires
        frame_wf(f),
        frame_wf(f2),
        f.len() == f2.len(),
        0 <= j < f.len(),
        forall|i: int| 0 <= i < f.len() && i != j ==> #[trigger] f2[i] == f[i],
        f2[j] != f[j],
    ensures
        ({
            let r1 = pre_render_spec(c, f, n);
            let r2 = pre_render_spec(r1.cache, f2, r1.next_node);
            &&& r2.binds == seq![
                BindAction { id: widget_id(f2[j]), node: r1.next_node },
            ]
            &&& r2.cache == r1.cache.insert(
                widget_id(f2[j]),
                EntryV { widget: f2[j], node: r1.next_node },
            )
        }),
{
    let r1 = pre_render_spec(c, f, n);
    let rec1 = reconcile_rec(c, f, n);
    lemma_frame_wf_distinct(f);
    lemma_frame_wf_distinct(f2);
    lemma_frame_wf_len(f);
    lemma_frame_wf_len(f2);
    lemma_reconcile_covers(c, f, n);
    assert forall|i: int| 0 <= i < f2.len() && i != j implies r1.cache.contains_key(
        widget_id(#[trigger] f2[i]),
    ) && r1.cache[widget_id(f2[i])].widget == f2[i] by {
        assert(f2[i] == f[i]);
        assert(widget_id(f[i]) == i + 1);
        assert(widget_id(f[i]) <= f.len() as u32);
    }
    assert(needs_bind(r1.cache, f2[j])) by {
        assert(widget_id(f[j]) == j + 1 && widget_id(f2[j]) == j + 1);
        assert(widget_id(f[j]) <= f.len() as u32);
        if r1.cache.contains_key(widget_id(f2[j])) {
            assert(r1.cache[widget_id(f2[j])].widget == f[j]);
        }
    }
    lemma_reconcile_single_miss(r1.cache, f2, r1.next_node, j);
    let rec2 = reconcile_rec(r1.cache, f2, r1.next_node);
    assert(strip_spec(rec2.cache, f2.len() as u32) =~= rec2.cache) by {
        assert forall|k: u32| rec2.cache.contains_key(k) implies k <= f2.len() as u32 by {
            if k != widget_id(f2[j]) {
                assert(r1.cache.contains_key(k));
                assert(strip_spec(rec1.cache, f.len() as u32).contains_key(k));
            } else {
                assert(widget_id(f2[j]) == j + 1);
            }
        }
    }
}

/// Eviction: after a pass over a sequentially-numbered frame, the cache
/// holds exactly the identities from 1 to the frame's length; everything
/// beyond has been pruned.
pub proof fn lemma_eviction(c: Map<u32, EntryV>, f: Seq<WidgetV>, n: u64)
    requires
        frame_wf(f),
        forall|k: u32| #[trigger] c.contains_key(k) ==> k >= 1,
    ensures
        forall|k: u32|
            #[trigger] pre_render_spec(c, f, n).cache.contains_key(k) <==> 1 <= k <= f.len(),
{
    let r = pre_render_spec(c, f, n);
    let rec = reconcile_rec(c, f, n);
    lemma_frame_wf_len(f);
    lemma_reconcile_dom(c, f, n);
    assert forall|k: u32| #[trigger] r.cache.contains_key(k) implies 1 <= k <= f.len() by {
        assert(rec.cache.contains_key(k));
        if !c.contains_key(k) {
            lemma_f_contains_id_iff(f, k);
            let i = choose|i: int| 0 <= i < f.len() && widget_id(#[trigger] f[i]) == k;
            assert(widget_id(f[i]) == i + 1);
        }
    }
    assert forall|k: u32| 1 <= k <= f.len() implies #[trigger] r.cache.contains_key(k) by {
        let i = k - 1;
        assert(widget_id(f[i]) == k);
        lemma_f_contains_id_iff(f, k);
        assert(rec.cache.contains_key(k));
        assert(k <= f.len() as u32);
    }
}

/// Idempotent reset: reconciling an empty frame against an empty cache binds
/// nothing and leaves the cache empty.
pub proof fn lemma_reset_idempotent(n: u64)
    ensures
        ({
            let r = pre_render_spec(Map::<u32, EntryV>::empty(), Seq::<WidgetV>::empty(), n);
            &&& r.cache == Map::<u32, EntryV>::empty()
            &&& r.binds == Seq::<BindAction>::empty()
            &&& r.next_node == n
        }),
{
    let r = pre_render_spec(Map::<u32, EntryV>::empty(), Seq::<WidgetV>::empty(), n);
    assert(r.cache =~= Map::<u32, EntryV>::empty());
}

} // verus!
