//! Top-level workloads: cluster resources that no higher-level controller
//! owns, and the container images they declare.
//!
//! A workload here is a read-only snapshot of what the cluster reported:
//! its ownership metadata, which may be absent altogether, and the raw
//! image strings of its containers. The cluster client that produces these
//! snapshots lives outside the library.

use vstd::prelude::*;

verus! {

/// A reference to a workload's owner; only its presence matters here.
#[derive(Eq, PartialEq, Debug)]
pub struct Owner {
    pub name: String,
}

/// Snapshot of a cluster workload: optional ownership metadata and the raw
/// image strings of its containers, in declaration order.
#[derive(Eq, PartialEq, Debug)]
pub struct Workload {
    pub owner_references: Option<Vec<Owner>>,
    pub container_images: Vec<String>,
}

/// A workload is top-level when its ownership metadata is absent or empty:
/// both shapes mean that no controller owns it.
pub open spec fn is_top_level(w: Workload) -> bool {
    match w.owner_references {
        None => true,
        Some(owners) => owners@.len() == 0,
    }
}

/// The image strings of the top-level workloads among `ws`, flattened in
/// workload order then container order.
pub open spec fn spec_top_level_images(ws: Seq<Workload>) -> Seq<Seq<char>>
    decreases ws.len(),
{
    if ws.len() == 0 {
        Seq::empty()
    } else {
        spec_top_level_images(ws.drop_last()) + (if is_top_level(ws.last()) {
            ws.last().container_images.deep_view()
        } else {
            Seq::empty()
        })
    }
}

/// Whether no controller owns `w`; see [`is_top_level`].
pub fn workload_is_top_level(w: &Workload) -> (b: bool)
    ensures
        b == is_top_level(*w),
{
    match &w.owner_references {
        None => true,
        Some(owners) => owners.len() == 0,
    }
}

/// Collect the container images of every top-level workload, preserving
/// workload order then container order; owned workloads contribute nothing.
pub fn filter_top_level(workloads: &Vec<Workload>) -> (r: Vec<String>)
    ensures
        r.deep_view() == spec_top_level_images(workloads@),
{
    let mut out: Vec<String> = Vec::new();
    let mut i: usize = 0;
    while i < workloads.len()
        invariant
            i <= workloads.len(),
            out.deep_view() == spec_top_level_images(workloads@.subrange(0, i as int)),
        decreases workloads.len() - i,
    {
        let w = &workloads[i];
        if workload_is_top_level(w) {
            let mut j: usize = 0;
            while j < w.container_images.len()
                invariant
                    j <= w.container_images.len(),
                    i < workloads.len(),
                    *w == workloads@[i as int],
                    is_top_level(*w),
                    out.deep_view() == spec_top_level_images(workloads@.subrange(0, i as int))
                        + w.container_images.deep_view().subrange(0, j as int),
                decreases w.container_images.len() - j,
            {
                let ghost prev = out.deep_view();
                out.push(w.container_images[j].clone());
                proof {
                    assert(out.deep_view() =~= prev.push(w.container_images@[j as int]@));
                    assert(w.container_images.deep_view().subrange(0, j + 1 as int)
                        =~= w.container_images.deep_view().subrange(0, j as int).push(
                        w.container_images@[j as int]@,
                    ));
                    assert(out.deep_view() =~= spec_top_level_images(
                        workloads@.subrange(0, i as int),
                    ) + w.container_images.deep_view().subrange(0, j + 1 as int));
                }
                j = j + 1;
            }
            proof {
                assert(w.container_images.deep_view().subrange(
                    0,
                    w.container_images@.len() as int,
                ) =~= w.container_images.deep_view());
            }
        }
        proof {
            let sub = workloads@.subrange(0, i + 1 as int);
            assert(sub.drop_last() =~= workloads@.subrange(0, i as int));
            assert(sub.last() == workloads@[i as int]);
            if !is_top_level(workloads@[i as int]) {
                assert(out.deep_view() =~= spec_top_level_images(sub));
            }
        }
        i = i + 1;
    }
    proof {
        assert(workloads@.subrange(0, workloads@.len() as int) =~= workloads@);
    }
    out
}

/// The filter's output is decided only by each workload's top-level status
/// and images: two inputs that agree on those, position by position, give
/// the same output.
pub proof fn lemma_filter_congruence(ws1: Seq<Workload>, ws2: Seq<Workload>)
    requires
        ws1.len() == ws2.len(),
        forall|i: int|
            0 <= i < ws1.len() ==> is_top_level(#[trigger] ws1[i]) == is_top_level(
                #[trigger] ws2[i],
            ),
        forall|i: int|
            0 <= i < ws1.len() ==> (#[trigger] ws1[i]).container_images.deep_view() == (
            #[trigger] ws2[i]).container_images.deep_view(),
    ensures
        spec_top_level_images(ws1) == spec_top_level_images(ws2),
    decreases ws1.len(),
{
    if ws1.len() > 0 {
        assert(forall|i: int|
            0 <= i < ws1.len() - 1 ==> ws1.drop_last()[i] == ws1[i] && ws2.drop_last()[i]
                == ws2[i]);
        lemma_filter_congruence(ws1.drop_last(), ws2.drop_last());
        assert(ws1.last() == ws1[ws1.len() - 1] && ws2.last() == ws2[ws1.len() - 1]);
    }
}

/// Ownership metadata that is absent altogether counts exactly like an
/// explicitly empty owner list: replacing one shape by the other in any
/// position never changes the filter's output.
pub proof fn lemma_owner_absence_like_empty(ws1: Seq<Workload>, ws2: Seq<Workload>)
    requires
        ws1.len() == ws2.len(),
        forall|i: int|
            0 <= i < ws1.len() ==> (#[trigger] ws1[i]).container_images.deep_view() == (
            #[trigger] ws2[i]).container_images.deep_view(),
        forall|i: int|
            0 <= i < ws1.len() ==> ((#[trigger] ws1[i]).owner_references == (
            #[trigger] ws2[i]).owner_references || (ws1[i].owner_references is None && (
            ws2[i].owner_references matches Some(owners) && owners@.len() == 0)) || (
            ws2[i].owner_references is None && (ws1[i].owner_references matches Some(owners)
                && owners@.len() == 0))),
    ensures
        spec_top_level_images(ws1) == spec_top_level_images(ws2),
{
    assert forall|i: int| 0 <= i < ws1.len() implies is_top_level(#[trigger] ws1[i])
        == is_top_level(#[trigger] ws2[i]) by {
        assert(ws1[i].container_images.deep_view() == ws2[i].container_images.deep_view());
    }
    lemma_filter_congruence(ws1, ws2);
}

} // verus!
