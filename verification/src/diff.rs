//! The device-set differ: membership, de-duplication, and the change between
//! two device populations.

use vstd::prelude::*;

use crate::device::device_eq;
use crate::device::device_models;
use crate::device::DeviceModel;
use crate::device::UsbDevice;

verus! {

/// The models of `prev` that do not occur in `next`, in their order in
/// `prev`: the devices a new snapshot no longer holds.
pub open spec fn removed_models(
    prev: Seq<DeviceModel>,
    next: Seq<DeviceModel>,
) -> Seq<DeviceModel> {
    prev.filter(|m: DeviceModel| !next.contains(m))
}

/// The models of `next` that do not occur in `prev`, in their order in
/// `next`: the devices a new snapshot brings in.
pub open spec fn added_models(prev: Seq<DeviceModel>, next: Seq<DeviceModel>) -> Seq<DeviceModel> {
    next.filter(|m: DeviceModel| !prev.contains(m))
}

/// De-duplication keeping the first occurrence of each model.
pub open spec fn dedup_models(s: Seq<DeviceModel>) -> Seq<DeviceModel>
    decreases s.len(),
{
    if s.len() == 0 {
        s
    } else {
        let front = dedup_models(s.drop_last());
        if front.contains(s.last()) {
            front
        } else {
            front.push(s.last())
        }
    }
}

proof fn lemma_filter_push<A>(s: Seq<A>, pred: spec_fn(A) -> bool, x: A)
    ensures
        s.push(x).filter(pred) == (if pred(x) {
            s.filter(pred).push(x)
        } else {
            s.filter(pred)
        }),
{
    reveal(Seq::filter);
    assert(s.push(x).drop_last() =~= s);
    assert(s.push(x).last() == x);
}

proof fn lemma_removed_step(prev: Seq<DeviceModel>, next: Seq<DeviceModel>, x: DeviceModel)
    ensures
        removed_models(prev.push(x), next) == (if !next.contains(x) {
            removed_models(prev, next).push(x)
        } else {
            removed_models(prev, next)
        }),
{
    lemma_filter_push(prev, |m: DeviceModel| !next.contains(m), x);
}

proof fn lemma_added_step(prev: Seq<DeviceModel>, next: Seq<DeviceModel>, x: DeviceModel)
    ensures
        added_models(prev, next.push(x)) == (if !prev.contains(x) {
            added_models(prev, next).push(x)
        } else {
            added_models(prev, next)
        }),
{
    lemma_filter_push(next, |m: DeviceModel| !prev.contains(m), x);
}

proof fn lemma_filter_subset<A>(s: Seq<A>, pred: spec_fn(A) -> bool)
    ensures
        forall|m: A| #[trigger] s.filter(pred).contains(m) ==> s.contains(m),
    decreases s.len(),
{
    reveal(Seq::filter);
    if s.len() > 0 {
        lemma_filter_subset(s.drop_last(), pred);
        let sub = s.drop_last().filter(pred);
        assert forall|m: A| #[trigger] s.filter(pred).contains(m) implies s.contains(m) by {
            let f = s.filter(pred);
            let k = choose|k: int| 0 <= k < f.len() && f[k] == m;
            if pred(s.last()) && k == f.len() - 1 {
                assert(m == s.last());
                assert(s[s.len() - 1] == m);
            } else {
                assert(sub[k] == m);
                assert(sub.contains(m));
                assert(s.drop_last().contains(m));
                let w = choose|w: int| 0 <= w < s.drop_last().len() && s.drop_last()[w] == m;
                assert(s[w] == m);
            }
        }
    }
}

proof fn lemma_filter_drop_all<A>(s: Seq<A>, pred: spec_fn(A) -> bool)
    requires
        forall|i: int| 0 <= i < s.len() ==> !pred(#[trigger] s[i]),
    ensures
        s.filter(pred) == Seq::<A>::empty(),
    decreases s.len(),
{
    reveal(Seq::filter);
    if s.len() > 0 {
        assert forall|i: int| 0 <= i < s.drop_last().len() implies !pred(
            #[trigger] s.drop_last()[i],
        ) by {
            assert(s.drop_last()[i] == s[i]);
        }
        lemma_filter_drop_all(s.drop_last(), pred);
        assert(!pred(s.last()));
    } else {
        assert(s.filter(pred) =~= Seq::<A>::empty());
    }
}

/// Law: the removed part of a diff holds exactly the models the old
/// population has and the new one lacks, and the added part exactly the
/// models the new population has and the old one lacks, membership taken by
/// structural equality.
pub proof fn lemma_diff_membership(prev: Seq<DeviceModel>, next: Seq<DeviceModel>)
    ensures
        forall|m: DeviceModel|
            #[trigger] removed_models(prev, next).contains(m) <==> (prev.contains(m)
                && !next.contains(m)),
        forall|m: DeviceModel|
            #[trigger] added_models(prev, next).contains(m) <==> (next.contains(m)
                && !prev.contains(m)),
{
    broadcast use vstd::seq_lib::group_filter_ensures;

    let rpred = |m: DeviceModel| !next.contains(m);
    let apred = |m: DeviceModel| !prev.contains(m);
    lemma_filter_subset(prev, rpred);
    lemma_filter_subset(next, apred);

    assert forall|m: DeviceModel| #[trigger] removed_models(prev, next).contains(m) implies (
    prev.contains(m) && !next.contains(m)) by {
        let f = prev.filter(rpred);
        let k = choose|k: int| 0 <= k < f.len() && f[k] == m;
        assert(rpred(f[k]));
    }
    assert forall|m: DeviceModel| prev.contains(m) && !next.contains(m) implies #[trigger]
    removed_models(prev, next).contains(m) by {
        let k = choose|k: int| 0 <= k < prev.len() && prev[k] == m;
        assert(rpred(prev[k]));
        assert(prev.filter(rpred).contains(prev[k]));
    }
    assert forall|m: DeviceModel| #[trigger] added_models(prev, next).contains(m) implies (
    next.contains(m) && !prev.contains(m)) by {
        let f = next.filter(apred);
        let k = choose|k: int| 0 <= k < f.len() && f[k] == m;
        assert(apred(f[k]));
    }
    assert forall|m: DeviceModel| next.contains(m) && !prev.contains(m) implies #[trigger]
    added_models(prev, next).contains(m) by {
        let k = choose|k: int| 0 <= k < next.len() && next[k] == m;
        assert(apred(next[k]));
        assert(next.filter(apred).contains(next[k]));
    }
}

/// Law: diffing a population against itself yields no change at all:
/// nothing removed and nothing added.
pub proof fn lemma_diff_no_change(s: Seq<DeviceModel>)
    ensures
        removed_models(s, s) == Seq::<DeviceModel>::empty(),
        added_models(s, s) == Seq::<DeviceModel>::empty(),
{
    let pred = |m: DeviceModel| !s.contains(m);
    assert forall|i: int| 0 <= i < s.len() implies !pred(#[trigger] s[i]) by {
        assert(s.contains(s[i]));
    }
    lemma_filter_drop_all(s, pred);
}

/// De-duplication neither invents nor loses members, and what it returns
/// holds each model once.
pub proof fn lemma_dedup_models_props(s: Seq<DeviceModel>)
    ensures
        forall|m: DeviceModel| dedup_models(s).contains(m) <==> s.contains(m),
        forall|i: int, j: int|
            0 <= i < j < dedup_models(s).len() ==> dedup_models(s)[i] != dedup_models(s)[j],
    decreases s.len(),
{
    if s.len() > 0 {
        lemma_dedup_models_props(s.drop_last());
        let front = dedup_models(s.drop_last());
        let out = dedup_models(s);
        assert forall|m: DeviceModel| out.contains(m) implies s.contains(m) by {
            if front.contains(m) {
                assert(s.drop_last().contains(m));
                let k = choose|k: int| 0 <= k < s.drop_last().len() && s.drop_last()[k] == m;
                assert(s[k] == m);
            } else {
                assert(m == s.last());
            }
        }
        assert forall|m: DeviceModel| s.contains(m) implies out.contains(m) by {
            let k = choose|k: int| 0 <= k < s.len() && s[k] == m;
            if k < s.len() - 1 {
                assert(s.drop_last()[k] == m);
                assert(s.drop_last().contains(m));
                assert(front.contains(m));
                if !front.contains(s.last()) {
                    let j = choose|j: int| 0 <= j < front.len() && front[j] == m;
                    assert(out[j] == m);
                }
            } else {
                assert(m == s.last());
                if !front.contains(s.last()) {
                    assert(out.last() == m);
                }
            }
        }
    }
}

/// Whether the list holds a device with this model.
pub fn contains_device(list: &Vec<UsbDevice>, d: &UsbDevice) -> (r: bool)
    ensures
        r == device_models(list@).contains(d@),
{
    let mut i: usize = 0;
    while i < list.len()
        invariant
            i <= list@.len(),
            forall|j: int| 0 <= j < i ==> device_models(list@)[j] != d@,
        decreases list@.len() - i,
    {
        if device_eq(&list[i], d) {
            proof {
                assert(device_models(list@)[i as int] == d@);
            }
            return true;
        }
        i = i + 1;
    }
    proof {
        assert forall|j: int| 0 <= j < device_models(list@).len() implies device_models(list@)[j]
            != d@ by {}
    }
    false
}

/// De-duplicate a device list, keeping the first occurrence of each model.
pub fn dedup_devices(list: &Vec<UsbDevice>) -> (r: Vec<UsbDevice>)
    ensures
        device_models(r@) == dedup_models(device_models(list@)),
{
    let ghost ms = device_models(list@);
    let mut out: Vec<UsbDevice> = Vec::new();
    let mut i: usize = 0;
    while i < list.len()
        invariant
            i <= list@.len(),
            ms == device_models(list@),
            device_models(out@) == dedup_models(ms.take(i as int)),
        decreases list@.len() - i,
    {
        let ghost out_before = device_models(out@);
        let d = &list[i];
        if !contains_device(&out, d) {
            out.push(d.duplicate());
            proof {
                assert(device_models(out@) =~= out_before.push(d@));
            }
        }
        proof {
            let t = ms.take(i + 1);
            assert(t.drop_last() =~= ms.take(i as int));
            assert(t.last() == d@);
            assert(device_models(out@) == dedup_models(ms.take(i + 1)));
        }
        i = i + 1;
    }
    proof {
        assert(ms.take(list@.len() as int) =~= ms);
    }
    out
}

/// The change between two device populations: what the old one holds and the
/// new one lacks, and what the new one holds and the old one lacks.
pub struct DeviceDiff {
    /// Devices present before and absent now.
    pub removed: Vec<UsbDevice>,
    /// Devices absent before and present now.
    pub added: Vec<UsbDevice>,
}

/// Compute the three-way difference between two device lists by structural
/// equality over the full device identity.
pub fn diff(previous: &Vec<UsbDevice>, next: &Vec<UsbDevice>) -> (d: DeviceDiff)
    ensures
        device_models(d.removed@) == removed_models(
            device_models(previous@),
            device_models(next@),
        ),
        device_models(d.added@) == added_models(device_models(previous@), device_models(next@)),
{
    let ghost pm = device_models(previous@);
    let ghost nm = device_models(next@);
    let mut removed: Vec<UsbDevice> = Vec::new();
    let mut i: usize = 0;
    while i < previous.len()
        invariant
            i <= previous@.len(),
            pm == device_models(previous@),
            nm == device_models(next@),
            device_models(removed@) == removed_models(pm.take(i as int), nm),
        decreases previous@.len() - i,
    {
        let ghost removed_before = device_models(removed@);
        let d = &previous[i];
        if !contains_device(next, d) {
            removed.push(d.duplicate());
            proof {
                assert(device_models(removed@) =~= removed_before.push(d@));
            }
        }
        proof {
            assert(pm.take(i + 1) =~= pm.take(i as int).push(d@));
            lemma_removed_step(pm.take(i as int), nm, d@);
        }
        i = i + 1;
    }
    let mut added: Vec<UsbDevice> = Vec::new();
    let mut j: usize = 0;
    while j < next.len()
        invariant
            j <= next@.len(),
            pm == device_models(previous@),
            nm == device_models(next@),
            device_models(added@) == added_models(pm, nm.take(j as int)),
        decreases next@.len() - j,
    {
        let ghost added_before = device_models(added@);
        let d = &next[j];
        if !contains_device(previous, d) {
            added.push(d.duplicate());
            proof {
                assert(device_models(added@) =~= added_before.push(d@));
            }
        }
        proof {
            assert(nm.take(j + 1) =~= nm.take(j as int).push(d@));
            lemma_added_step(pm, nm.take(j as int), d@);
        }
        j = j + 1;
    }
    proof {
        assert(pm.take(previous@.len() as int) =~= pm);
        assert(nm.take(next@.len() as int) =~= nm);
    }
    DeviceDiff { removed, added }
}

} // verus!
