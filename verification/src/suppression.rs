//! Non-Maximum Suppression: pooled detections are sorted by descending
//! confidence, then the highest-confidence remaining detection is kept and
//! every remaining detection that overlaps it (IoU at least the threshold)
//! is removed, until none remain.
//!
//! Suppression is global and class-agnostic: detections of different
//! classes suppress each other when their boxes overlap enough.

use vstd::prelude::*;

use crate::detector::{Detection, DetectionView};
use crate::geometry::{lemma_iou_symmetric, spec_iou_ge};
use crate::geometry::iou_at_least;

verus! {

broadcast use vstd::seq_lib::group_filter_ensures;

/// The view of one detection, as a function value.
pub open spec fn detection_view_fn() -> spec_fn(Detection) -> DetectionView {
    |d: Detection| d@
}

/// The mathematical values of a sequence of detections.
pub open spec fn views_of(s: Seq<Detection>) -> Seq<DetectionView> {
    s.map_values(detection_view_fn())
}

/// Confidences never increase along the sequence.
pub open spec fn sorted_desc(s: Seq<DetectionView>) -> bool {
    forall|i: int, j: int|
        0 <= i <= j < s.len() ==> #[trigger] s[i].confidence >= #[trigger] s[j].confidence
}

/// No two distinct detections of the sequence overlap at threshold `t`.
pub open spec fn pairwise_nonoverlap(s: Seq<DetectionView>, t: int) -> bool {
    forall|i: int, j: int|
        0 <= i < j < s.len() ==> !spec_iou_ge(#[trigger] s[i].bbox, #[trigger] s[j].bbox, t)
}

/// Detections that survive next to `anchor` at threshold `t`.
pub open spec fn nonoverlap_pred(anchor: DetectionView, t: int) -> spec_fn(DetectionView) -> bool {
    |d: DetectionView| !spec_iou_ge(anchor.bbox, d.bbox, t)
}

/// Insert `d` into `s` before the first element whose confidence does not
/// exceed `d`'s.
pub open spec fn spec_insert_desc(d: DetectionView, s: Seq<DetectionView>) -> Seq<DetectionView>
    decreases s.len(),
{
    if s.len() == 0 {
        seq![d]
    } else if d.confidence >= s[0].confidence {
        seq![d] + s
    } else {
        seq![s[0]] + spec_insert_desc(d, s.drop_first())
    }
}

/// Insertion sort by descending confidence (stable).
pub open spec fn spec_sort_desc(s: Seq<DetectionView>) -> Seq<DetectionView>
    decreases s.len(),
{
    if s.len() == 0 {
        Seq::empty()
    } else {
        spec_insert_desc(s[0], spec_sort_desc(s.drop_first()))
    }
}

/// Greedy suppression of a sequence already sorted by descending
/// confidence: keep the head, drop everything that overlaps it, recurse.
pub open spec fn spec_nms(s: Seq<DetectionView>, t: int) -> Seq<DetectionView>
    decreases s.len(),
    via spec_nms_decreases
{
    if s.len() == 0 {
        Seq::empty()
    } else {
        seq![s[0]] + spec_nms(s.drop_first().filter(nonoverlap_pred(s[0], t)), t)
    }
}

#[via_fn]
proof fn spec_nms_decreases(s: Seq<DetectionView>, t: int) {
    if s.len() > 0 {
        s.drop_first().lemma_filter_len(nonoverlap_pred(s[0], t));
    }
}

/// The whole suppression step: sort by descending confidence, then greedily
/// keep maxima.
pub open spec fn spec_suppress(s: Seq<DetectionView>, t: int) -> Seq<DetectionView> {
    spec_nms(spec_sort_desc(s), t)
}

proof fn lemma_filter_subset(s: Seq<DetectionView>, p: spec_fn(DetectionView) -> bool)
    ensures
        forall|x: DetectionView| #[trigger] s.filter(p).contains(x) ==> s.contains(x),
    decreases s.len(),
{
    reveal(Seq::filter);
    if s.len() > 0 {
        let dl = s.drop_last();
        lemma_filter_subset(dl, p);
        assert forall|x: DetectionView| #[trigger] s.filter(p).contains(x) implies s.contains(
            x,
        ) by {
            if dl.filter(p).contains(x) {
                let i = choose|i: int| 0 <= i < dl.len() && dl[i] == x;
                assert(s[i] == x);
            } else {
                assert(x == s.last());
                assert(s[s.len() - 1] == x);
            }
        }
    }
}

proof fn lemma_filter_all_true(s: Seq<DetectionView>, p: spec_fn(DetectionView) -> bool)
    requires
        forall|i: int| 0 <= i < s.len() ==> p(#[trigger] s[i]),
    ensures
        s.filter(p) == s,
    decreases s.len(),
{
    reveal(Seq::filter);
    if s.len() > 0 {
        let dl = s.drop_last();
        lemma_filter_all_true(dl, p);
        assert(p(s.last()));
        assert(dl.push(s.last()) =~= s);
    }
}

proof fn lemma_filter_sorted(s: Seq<DetectionView>, p: spec_fn(DetectionView) -> bool)
    requires
        sorted_desc(s),
    ensures
        sorted_desc(s.filter(p)),
    decreases s.len(),
{
    reveal(Seq::filter);
    if s.len() > 0 {
        let dl = s.drop_last();
        assert(sorted_desc(dl));
        lemma_filter_sorted(dl, p);
        lemma_filter_subset(dl, p);
        let f = s.filter(p);
        if p(s.last()) {
            assert(f == dl.filter(p).push(s.last()));
            assert forall|i: int, j: int| 0 <= i <= j < f.len() implies #[trigger] f[i].confidence
                >= #[trigger] f[j].confidence by {
                if j < f.len() - 1 {
                    assert(dl.filter(p)[i] == f[i] && dl.filter(p)[j] == f[j]);
                } else if i < j {
                    assert(f[j] == s.last());
                    assert(dl.filter(p).contains(dl.filter(p)[i]));
                    assert(dl.contains(f[i]));
                    let k = choose|k: int| 0 <= k < dl.len() && dl[k] == f[i];
                    assert(s[k] == f[i] && s[k].confidence >= s[s.len() - 1].confidence);
                }
            }
        } else {
            assert(f == dl.filter(p));
        }
    }
}

proof fn lemma_insert_desc_len(d: DetectionView, s: Seq<DetectionView>)
    ensures
        spec_insert_desc(d, s).len() == s.len() + 1,
    decreases s.len(),
{
    if s.len() > 0 && d.confidence < s[0].confidence {
        lemma_insert_desc_len(d, s.drop_first());
    }
}

proof fn lemma_insert_desc_contains(d: DetectionView, s: Seq<DetectionView>)
    ensures
        forall|x: DetectionView| #[trigger]
            spec_insert_desc(d, s).contains(x) <==> (x == d || s.contains(x)),
    decreases s.len(),
{
    let out = spec_insert_desc(d, s);
    if s.len() == 0 {
        assert forall|x: DetectionView| #[trigger] out.contains(x) <==> (x == d || s.contains(
            x,
        )) by {
            if x == d {
                assert(out[0] == d);
            }
            if out.contains(x) {
                let i = choose|i: int| 0 <= i < out.len() && out[i] == x;
                assert(i == 0);
            }
        }
    } else if d.confidence >= s[0].confidence {
        assert forall|x: DetectionView| #[trigger] out.contains(x) <==> (x == d || s.contains(
            x,
        )) by {
            if x == d {
                assert(out[0] == d);
            }
            if s.contains(x) {
                let i = choose|i: int| 0 <= i < s.len() && s[i] == x;
                assert(out[i + 1] == x);
            }
            if out.contains(x) {
                let i = choose|i: int| 0 <= i < out.len() && out[i] == x;
                if i > 0 {
                    assert(s[i - 1] == x);
                }
            }
        }
    } else {
        lemma_insert_desc_contains(d, s.drop_first());
        let rest = spec_insert_desc(d, s.drop_first());
        assert forall|x: DetectionView| #[trigger] out.contains(x) <==> (x == d || s.contains(
            x,
        )) by {
            if x == d {
                assert(rest.contains(d));
                let i = choose|i: int| 0 <= i < rest.len() && rest[i] == d;
                assert(out[i + 1] == d);
            }
            if s.contains(x) {
                let i = choose|i: int| 0 <= i < s.len() && s[i] == x;
                if i == 0 {
                    assert(out[0] == x);
                } else {
                    assert(s.drop_first()[i - 1] == x);
                    assert(rest.contains(x));
                    let k = choose|k: int| 0 <= k < rest.len() && rest[k] == x;
                    assert(out[k + 1] == x);
                }
            }
            if out.contains(x) {
                let i = choose|i: int| 0 <= i < out.len() && out[i] == x;
                if i == 0 {
                    assert(s[0] == x);
                } else {
                    assert(rest[i - 1] == x);
                    assert(rest.contains(x));
                    if x != d {
                        assert(s.drop_first().contains(x));
                        let k = choose|k: int| 0 <= k < s.drop_first().len() && s.drop_first()[k]
                            == x;
                        assert(s[k + 1] == x);
                    }
                }
            }
        }
    }
}

proof fn lemma_insert_desc_sorted(d: DetectionView, s: Seq<DetectionView>)
    requires
        sorted_desc(s),
    ensures
        sorted_desc(spec_insert_desc(d, s)),
    decreases s.len(),
{
    let out = spec_insert_desc(d, s);
    if s.len() == 0 {
    } else if d.confidence >= s[0].confidence {
        assert forall|i: int, j: int| 0 <= i <= j < out.len() implies #[trigger] out[i].confidence
            >= #[trigger] out[j].confidence by {
            if i > 0 {
                assert(out[i] == s[i - 1] && out[j] == s[j - 1]);
            } else if j > 0 {
                assert(out[j] == s[j - 1]);
                assert(s[0].confidence >= s[j - 1].confidence);
            }
        }
    } else {
        assert(sorted_desc(s.drop_first()));
        lemma_insert_desc_sorted(d, s.drop_first());
        lemma_insert_desc_contains(d, s.drop_first());
        let rest = spec_insert_desc(d, s.drop_first());
        assert forall|i: int, j: int| 0 <= i <= j < out.len() implies #[trigger] out[i].confidence
            >= #[trigger] out[j].confidence by {
            if i > 0 {
                assert(out[i] == rest[i - 1] && out[j] == rest[j - 1]);
            } else if j > 0 {
                assert(out[j] == rest[j - 1]);
                assert(rest.contains(rest[j - 1]));
                if rest[j - 1] == d {
                    assert(s[0].confidence > d.confidence);
                } else {
                    assert(s.drop_first().contains(rest[j - 1]));
                    let k = choose|k: int|
                        0 <= k < s.drop_first().len() && s.drop_first()[k] == rest[j - 1];
                    assert(s[k + 1] == rest[j - 1]);
                    assert(s[0].confidence >= s[k + 1].confidence);
                }
            }
        }
    }
}

proof fn lemma_sort_desc_len(s: Seq<DetectionView>)
    ensures
        spec_sort_desc(s).len() == s.len(),
    decreases s.len(),
{
    if s.len() > 0 {
        lemma_sort_desc_len(s.drop_first());
        lemma_insert_desc_len(s[0], spec_sort_desc(s.drop_first()));
    }
}

proof fn lemma_sort_desc_contains(s: Seq<DetectionView>)
    ensures
        forall|x: DetectionView| #[trigger] spec_sort_desc(s).contains(x) <==> s.contains(x),
    decreases s.len(),
{
    if s.len() > 0 {
        lemma_sort_desc_contains(s.drop_first());
        lemma_insert_desc_contains(s[0], spec_sort_desc(s.drop_first()));
        assert forall|x: DetectionView| #[trigger] spec_sort_desc(s).contains(x) <==> s.contains(
            x,
        ) by {
            if s.contains(x) {
                let i = choose|i: int| 0 <= i < s.len() && s[i] == x;
                if i > 0 {
                    assert(s.drop_first()[i - 1] == x);
                }
            }
            if spec_sort_desc(s).contains(x) && x != s[0] {
                assert(s.drop_first().contains(x));
                let k = choose|k: int| 0 <= k < s.drop_first().len() && s.drop_first()[k] == x;
                assert(s[k + 1] == x);
            }
            if x == s[0] {
                assert(s.contains(x)) by {
                    assert(s[0] == x);
                }
            }
        }
    }
}

/// Sorting by descending confidence really sorts.
pub proof fn lemma_sort_desc_sorted(s: Seq<DetectionView>)
    ensures
        sorted_desc(spec_sort_desc(s)),
    decreases s.len(),
{
    if s.len() > 0 {
        lemma_sort_desc_sorted(s.drop_first());
        lemma_insert_desc_sorted(s[0], spec_sort_desc(s.drop_first()));
    }
}

/// Sorting an already sorted sequence changes nothing.
pub proof fn lemma_sort_desc_of_sorted(s: Seq<DetectionView>)
    requires
        sorted_desc(s),
    ensures
        spec_sort_desc(s) == s,
    decreases s.len(),
{
    if s.len() > 0 {
        assert(sorted_desc(s.drop_first()));
        lemma_sort_desc_of_sorted(s.drop_first());
        if s.len() == 1 {
            assert(spec_insert_desc(s[0], s.drop_first()) =~= s);
        } else {
            assert(s[0].confidence >= s.drop_first()[0].confidence);
            assert(seq![s[0]] + s.drop_first() =~= s);
        }
    }
}

proof fn lemma_nms_len(s: Seq<DetectionView>, t: int)
    ensures
        spec_nms(s, t).len() <= s.len(),
    decreases s.len(),
{
    if s.len() > 0 {
        let f = s.drop_first().filter(nonoverlap_pred(s[0], t));
        lemma_nms_len(f, t);
    }
}

proof fn lemma_nms_subset(s: Seq<DetectionView>, t: int)
    ensures
        forall|x: DetectionView| #[trigger] spec_nms(s, t).contains(x) ==> s.contains(x),
    decreases s.len(),
{
    if s.len() > 0 {
        let f = s.drop_first().filter(nonoverlap_pred(s[0], t));
        lemma_nms_subset(f, t);
        lemma_filter_subset(s.drop_first(), nonoverlap_pred(s[0], t));
        let out = spec_nms(s, t);
        assert forall|x: DetectionView| #[trigger] out.contains(x) implies s.contains(x) by {
            let i = choose|i: int| 0 <= i < out.len() && out[i] == x;
            if i == 0 {
                assert(s[0] == x);
            } else {
                assert(spec_nms(f, t)[i - 1] == x);
                assert(spec_nms(f, t).contains(x));
                assert(s.drop_first().contains(x));
                let k = choose|k: int| 0 <= k < s.drop_first().len() && s.drop_first()[k] == x;
                assert(s[k + 1] == x);
            }
        }
    }
}

proof fn lemma_nms_sorted(s: Seq<DetectionView>, t: int)
    requires
        sorted_desc(s),
    ensures
        sorted_desc(spec_nms(s, t)),
    decreases s.len(),
{
    if s.len() > 0 {
        let p = nonoverlap_pred(s[0], t);
        let f = s.drop_first().filter(p);
        assert(sorted_desc(s.drop_first()));
        lemma_filter_sorted(s.drop_first(), p);
        lemma_nms_sorted(f, t);
        lemma_nms_subset(f, t);
        lemma_filter_subset(s.drop_first(), p);
        let out = spec_nms(s, t);
        let rest = spec_nms(f, t);
        assert forall|i: int, j: int| 0 <= i <= j < out.len() implies #[trigger] out[i].confidence
            >= #[trigger] out[j].confidence by {
            if i > 0 {
                assert(out[i] == rest[i - 1] && out[j] == rest[j - 1]);
            } else if j > 0 {
                assert(out[j] == rest[j - 1]);
                assert(rest.contains(rest[j - 1]));
                assert(s.drop_first().contains(rest[j - 1]));
                let k = choose|k: int|
                    0 <= k < s.drop_first().len() && s.drop_first()[k] == rest[j - 1];
                assert(s[k + 1] == rest[j - 1]);
                assert(s[0].confidence >= s[k + 1].confidence);
            }
        }
    }
}

proof fn lemma_nms_pairwise(s: Seq<DetectionView>, t: int)
    ensures
        pairwise_nonoverlap(spec_nms(s, t), t),
    decreases s.len(),
{
    if s.len() > 0 {
        let p = nonoverlap_pred(s[0], t);
        let f = s.drop_first().filter(p);
        lemma_nms_pairwise(f, t);
        lemma_nms_subset(f, t);
        let out = spec_nms(s, t);
        let rest = spec_nms(f, t);
        assert forall|i: int, j: int| 0 <= i < j < out.len() implies !spec_iou_ge(
            #[trigger] out[i].bbox,
            #[trigger] out[j].bbox,
            t,
        ) by {
            if i > 0 {
                assert(out[i] == rest[i - 1] && out[j] == rest[j - 1]);
            } else {
                assert(out[j] == rest[j - 1]);
                assert(rest.contains(rest[j - 1]));
                assert(f.contains(rest[j - 1]));
                let k = choose|k: int| 0 <= k < f.len() && f[k] == rest[j - 1];
                assert(p(f[k]));
            }
        }
    }
}

proof fn lemma_nms_of_pairwise(s: Seq<DetectionView>, t: int)
    requires
        pairwise_nonoverlap(s, t),
    ensures
        spec_nms(s, t) == s,
    decreases s.len(),
{
    if s.len() > 0 {
        let p = nonoverlap_pred(s[0], t);
        assert forall|i: int| 0 <= i < s.drop_first().len() implies p(
            #[trigger] s.drop_first()[i],
        ) by {
            assert(s[i + 1] == s.drop_first()[i]);
            assert(!spec_iou_ge(s[0].bbox, s[i + 1].bbox, t));
        }
        lemma_filter_all_true(s.drop_first(), p);
        assert(pairwise_nonoverlap(s.drop_first(), t)) by {
            assert forall|i: int, j: int| 0 <= i < j < s.drop_first().len() implies !spec_iou_ge(
                #[trigger] s.drop_first()[i].bbox,
                #[trigger] s.drop_first()[j].bbox,
                t,
            ) by {
                assert(s[i + 1] == s.drop_first()[i] && s[j + 1] == s.drop_first()[j]);
            }
        }
        lemma_nms_of_pairwise(s.drop_first(), t);
        assert(seq![s[0]] + s.drop_first() =~= s);
    }
}

/// No two distinct detections in the suppression output overlap at the
/// threshold; in particular, for every pair `d1 != d2` of the output,
/// `IoU(d1, d2) < t / UNIT_SCALE`.
pub proof fn lemma_suppression_pairwise(s: Seq<DetectionView>, t: int)
    ensures
        pairwise_nonoverlap(spec_suppress(s, t), t),
        forall|i: int, j: int|
            0 <= i < j < spec_suppress(s, t).len() ==> !spec_iou_ge(
                #[trigger] spec_suppress(s, t)[j].bbox,
                #[trigger] spec_suppress(s, t)[i].bbox,
                t,
            ),
{
    lemma_nms_pairwise(spec_sort_desc(s), t);
    let out = spec_suppress(s, t);
    assert forall|i: int, j: int| 0 <= i < j < out.len() implies !spec_iou_ge(
        #[trigger] out[j].bbox,
        #[trigger] out[i].bbox,
        t,
    ) by {
        assert(!spec_iou_ge(out[i].bbox, out[j].bbox, t));
        lemma_iou_symmetric(out[i].bbox, out[j].bbox, t);
    }
}

/// The suppression output never grows, and every detection it returns was
/// among the pooled inputs.
pub proof fn lemma_suppression_bounds(s: Seq<DetectionView>, t: int)
    ensures
        spec_suppress(s, t).len() <= s.len(),
        forall|x: DetectionView| #[trigger] spec_suppress(s, t).contains(x) ==> s.contains(x),
{
    lemma_sort_desc_len(s);
    lemma_nms_len(spec_sort_desc(s), t);
    lemma_nms_subset(spec_sort_desc(s), t);
    lemma_sort_desc_contains(s);
}

/// The suppression output is sorted by descending confidence.
pub proof fn lemma_suppression_sorted(s: Seq<DetectionView>, t: int)
    ensures
        sorted_desc(spec_suppress(s, t)),
{
    lemma_sort_desc_sorted(s);
    lemma_nms_sorted(spec_sort_desc(s), t);
}

/// Suppression is idempotent: applying it to its own output is a no-op.
pub proof fn lemma_suppression_idempotent(s: Seq<DetectionView>, t: int)
    ensures
        spec_suppress(spec_suppress(s, t), t) == spec_suppress(s, t),
{
    let out = spec_suppress(s, t);
    lemma_suppression_sorted(s, t);
    lemma_sort_desc_of_sorted(out);
    lemma_nms_pairwise(spec_sort_desc(s), t);
    lemma_nms_of_pairwise(out, t);
}

fn insert_by_confidence(v: &mut Vec<Detection>, d: Detection)
    ensures
        views_of(final(v)@) == spec_insert_desc(d@, views_of(old(v)@)),
{
    let ghost s = views_of(v@);
    let mut j: usize = 0;
    while j < v.len() && v[j].confidence > d.confidence
        invariant
            0 <= j <= v.len(),
            s == views_of(v@),
            forall|k: int| 0 <= k < j ==> s[k].confidence > d@.confidence,
        decreases v.len() - j,
    {
        j += 1;
    }
    proof {
        lemma_insert_desc_split(d@, s, j as int);
    }
    v.insert(j, d);
    proof {
        assert(views_of(v@) =~= s.take(j as int) + seq![d@] + s.skip(j as int));
    }
}

proof fn lemma_insert_desc_split(d: DetectionView, s: Seq<DetectionView>, j: int)
    requires
        0 <= j <= s.len(),
        forall|k: int| 0 <= k < j ==> s[k].confidence > d.confidence,
        j == s.len() || d.confidence >= s[j].confidence,
    ensures
        spec_insert_desc(d, s) == s.take(j) + seq![d] + s.skip(j),
    decreases j,
{
    if j == 0 {
        if s.len() == 0 {
            assert(spec_insert_desc(d, s) =~= s.take(0) + seq![d] + s.skip(0));
        } else {
            assert(seq![d] + s =~= s.take(0) + seq![d] + s.skip(0));
        }
    } else {
        assert(s[0].confidence > d.confidence);
        assert forall|k: int| 0 <= k < j - 1 implies s.drop_first()[k].confidence
            > d.confidence by {
            assert(s.drop_first()[k] == s[k + 1]);
        }
        lemma_insert_desc_split(d, s.drop_first(), j - 1);
        assert(seq![s[0]] + (s.drop_first().take(j - 1) + seq![d] + s.drop_first().skip(j - 1))
            =~= s.take(j) + seq![d] + s.skip(j));
    }
}

/// Sort detections by descending confidence (stable insertion sort).
pub fn sort_by_confidence(v: Vec<Detection>) -> (r: Vec<Detection>)
    ensures
        views_of(r@) == spec_sort_desc(views_of(v@)),
{
    let ghost s0 = views_of(v@);
    let mut out: Vec<Detection> = Vec::new();
    let mut i: usize = v.len();
    proof {
        assert(s0.len() == v@.len());
        assert(s0.skip(i as int) =~= Seq::<DetectionView>::empty());
    }
    while i > 0
        invariant
            i <= v@.len(),
            s0 == views_of(v@),
            s0.len() == v@.len(),
            views_of(out@) == spec_sort_desc(s0.skip(i as int)),
        decreases i,
    {
        i = i - 1;
        let d = v[i].clone();
        proof {
            assert(d@ == v@[i as int]@);
            assert(s0[i as int] == v@[i as int]@);
            assert(s0.skip(i as int)[0] == s0[i as int]);
            assert(s0.skip(i as int).drop_first() =~= s0.skip(i as int + 1));
        }
        insert_by_confidence(&mut out, d);
    }
    proof {
        assert(s0.skip(0) =~= s0);
    }
    out
}

/// Apply Non-Maximum Suppression at threshold `nms_threshold` (a fraction
/// of `UNIT_SCALE`): sort by descending confidence, then repeatedly keep
/// the most confident remaining detection and drop every remaining one
/// that overlaps it.
pub fn suppress(v: Vec<Detection>, nms_threshold: u32) -> (r: Vec<Detection>)
    ensures
        views_of(r@) == spec_suppress(views_of(v@), nms_threshold as int),
        sorted_desc(views_of(r@)),
        pairwise_nonoverlap(views_of(r@), nms_threshold as int),
        r@.len() <= v@.len(),
        forall|x: DetectionView| #[trigger]
            views_of(r@).contains(x) ==> views_of(v@).contains(x),
{
    proof {
        lemma_suppression_sorted(views_of(v@), nms_threshold as int);
        lemma_suppression_pairwise(views_of(v@), nms_threshold as int);
        lemma_suppression_bounds(views_of(v@), nms_threshold as int);
    }
    let ghost t = nms_threshold as int;
    let ghost s0 = views_of(v@);
    let mut remaining = sort_by_confidence(v);
    let mut out: Vec<Detection> = Vec::new();
    proof {
        assert(views_of(out@) + spec_nms(views_of(remaining@), t) =~= spec_nms(
            spec_sort_desc(s0),
            t,
        ));
    }
    while remaining.len() > 0
        invariant
            views_of(out@) + spec_nms(views_of(remaining@), t) == spec_suppress(s0, t),
            t == nms_threshold as int,
        decreases remaining.len(),
    {
        let ghost pre = views_of(remaining@);
        let head = remaining.remove(0);
        proof {
            assert(views_of(remaining@) =~= pre.drop_first());
            assert(head@ == pre[0]);
        }
        let ghost p = nonoverlap_pred(head@, t);
        let ghost work = views_of(remaining@);
        let mut kept: Vec<Detection> = Vec::new();
        let mut idx: usize = 0;
        while idx < remaining.len()
            invariant
                0 <= idx <= remaining.len(),
                work == views_of(remaining@),
                p == nonoverlap_pred(head@, t),
                t == nms_threshold as int,
                views_of(kept@) == work.take(idx as int).filter(p),
            decreases remaining.len() - idx,
        {
            let ghost i = idx as int;
            let d = remaining[idx].clone();
            proof {
                reveal(Seq::filter);
                assert(work.take(i + 1).drop_last() =~= work.take(i));
                assert(work.take(i + 1).last() == work[i]);
                assert(d@ == work[i]);
            }
            if !iou_at_least(&head.bbox, &d.bbox, nms_threshold) {
                kept.push(d);
                proof {
                    assert(p(work[i]));
                    assert(views_of(kept@) =~= work.take(i).filter(p).push(work[i]));
                }
            } else {
                proof {
                    assert(!p(work[i]));
                }
            }
            idx += 1;
        }
        proof {
            assert(work.take(work.len() as int) =~= work);
            assert(views_of(kept@) == work.filter(p));
            assert(spec_nms(pre, t) == seq![pre[0]] + spec_nms(work.filter(p), t));
        }
        remaining = kept;
        let ghost out_pre = views_of(out@);
        out.push(head);
        proof {
            assert(views_of(out@) =~= out_pre.push(head@));
            assert(out_pre.push(pre[0]) + spec_nms(work.filter(p), t) =~= out_pre + (seq![pre[0]]
                + spec_nms(work.filter(p), t)));
        }
    }
    proof {
        assert(views_of(out@) + spec_nms(views_of(remaining@), t) =~= views_of(out@));
    }
    out
}

} // verus!
