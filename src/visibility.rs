use vstd::prelude::*;

use crate::constants::{MAX_CHAN, MAX_SAT};

verus! {

/// PRN `p` is a satellite that can be current: it has a valid ephemeris
/// (an elevation) at or above the elevation mask. Elevations are in
/// microdegrees, indexed by PRN.
pub open spec fn visible(elev: Seq<Option<i32>>, mask: i32, p: int) -> bool {
    1 <= p < MAX_SAT && p < elev.len() && elev[p] is Some && elev[p]->Some_0 >= mask
}

/// Satellite `q` is preferred to satellite `p`: it stands higher, or as high
/// with a lower PRN.
pub open spec fn better(elev: Seq<Option<i32>>, q: int, p: int) -> bool {
    elev[q]->Some_0 > elev[p]->Some_0 || (elev[q]->Some_0 == elev[p]->Some_0 && q < p)
}

/// The visible satellites preferred to `p`.
pub open spec fn rank(elev: Seq<Option<i32>>, mask: i32, p: int) -> int {
    prns().filter(|q: u8| visible(elev, mask, q as int) && better(elev, q as int, p)).len() as int
}

/// The PRN slots 0 to 32.
pub open spec fn prns() -> Seq<u8> {
    Seq::new(MAX_SAT as nat, |q: int| q as u8)
}

/// `p` is among the `MAX_CHAN` most preferred visible satellites.
pub open spec fn selected(elev: Seq<Option<i32>>, mask: i32, p: int) -> bool {
    visible(elev, mask, p) && rank(elev, mask, p) < MAX_CHAN
}

/// The channel table after a visibility update: the satellites in `current` that
/// stay selected, in their slots' order, then the newly selected ones by
/// ascending PRN.
pub open spec fn allocation(current: Seq<u8>, elev: Seq<Option<i32>>, mask: i32) -> Seq<u8> {
    current.filter(|p: u8| selected(elev, mask, p as int)) + prns().filter(
        |p: u8| selected(elev, mask, p as int) && !current.contains(p),
    )
}

/// Counts the visible satellites preferred to `p`.
fn rank_of(elev: &Vec<Option<i32>>, mask: i32, p: usize) -> (r: usize)
    requires
        1 <= p < MAX_SAT,
        elev@.len() == MAX_SAT,
        elev@[p as int] is Some,
    ensures
        r == rank(elev@, mask, p as int),
{
    let ghost all = prns();
    let ghost f = |q: u8| visible(elev@, mask, q as int) && better(elev@, q as int, p as int);
    let mut count: usize = 0;
    let mut q: usize = 0;
    let ep = elev[p].unwrap();
    while q < MAX_SAT
        invariant
            q <= MAX_SAT,
            elev@.len() == MAX_SAT,
            elev@[p as int] == Some(ep),
            all == prns(),
            f == (|q: u8| visible(elev@, mask, q as int) && better(elev@, q as int, p as int)),
            count == all.take(q as int).filter(f).len(),
            count <= q,
        decreases MAX_SAT - q,
    {
        let hit = match elev[q] {
            Some(eq) => 1 <= q && eq >= mask && (eq > ep || (eq == ep && q < p)),
            None => false,
        };
        proof {
            assert(all.take(q + 1) == all.take(q as int).push(q as u8));
            all.take(q as int).lemma_filter_push(q as u8, f);
        }
        if hit {
            count = count + 1;
        }
        q = q + 1;
    }
    assert(all.take(MAX_SAT as int) == all);
    count
}

/// Whether PRN `p` is among the `MAX_CHAN` most preferred visible satellites.
pub fn is_selected(elev: &Vec<Option<i32>>, mask: i32, p: u8) -> (r: bool)
    requires
        elev@.len() == MAX_SAT,
    ensures
        r == selected(elev@, mask, p as int),
{
    if p < 1 || p as usize >= MAX_SAT {
        return false;
    }
    match elev[p as usize] {
        None => false,
        Some(e) => e >= mask && rank_of(elev, mask, p as usize) < MAX_CHAN,
    }
}

/// Updates the channel table for new elevations: a satellite that drops
/// below the mask, or out of the `MAX_CHAN` most preferred, is released; the
/// free slots go to the most preferred of the others; the table stays
/// compact.
pub fn allocate_channels(current: &Vec<u8>, elev: &Vec<Option<i32>>, mask: i32) -> (r: Vec<u8>)
    requires
        elev@.len() == MAX_SAT,
    ensures
        r@ == allocation(current@, elev@, mask),
{
    let ghost keep = |p: u8| selected(elev@, mask, p as int);
    let mut r: Vec<u8> = Vec::new();
    let mut i: usize = 0;
    while i < current.len()
        invariant
            i <= current@.len(),
            elev@.len() == MAX_SAT,
            keep == (|p: u8| selected(elev@, mask, p as int)),
            r@ == current@.take(i as int).filter(keep),
        decreases current@.len() - i,
    {
        let p = current[i];
        proof {
            assert(current@.take(i + 1) == current@.take(i as int).push(p));
            current@.take(i as int).lemma_filter_push(p, keep);
        }
        if is_selected(elev, mask, p) {
            r.push(p);
        }
        i = i + 1;
    }
    assert(current@.take(current@.len() as int) == current@);
    let ghost head = r@;
    let ghost all = prns();
    let ghost fresh = |p: u8| selected(elev@, mask, p as int) && !current@.contains(p);
    let mut q: usize = 0;
    while q < MAX_SAT
        invariant
            q <= MAX_SAT,
            elev@.len() == MAX_SAT,
            all == prns(),
            fresh == (|p: u8| selected(elev@, mask, p as int) && !current@.contains(p)),
            r@ == head + all.take(q as int).filter(fresh),
        decreases MAX_SAT - q,
    {
        let p = q as u8;
        proof {
            assert(all.take(q + 1) == all.take(q as int).push(p));
            all.take(q as int).lemma_filter_push(p, fresh);
        }
        if is_selected(elev, mask, p) && !contains_prn(current, p) {
            r.push(p);
            assert(r@ == head + all.take(q + 1).filter(fresh));
        }
        q = q + 1;
    }
    assert(all.take(MAX_SAT as int) == all);
    r
}

/// Whether `p` is in `v`.
fn contains_prn(v: &Vec<u8>, p: u8) -> (r: bool)
    ensures
        r == v@.contains(p),
{
    let mut i: usize = 0;
    while i < v.len()
        invariant
            i <= v@.len(),
            forall|j: int| 0 <= j < i ==> v@[j] != p,
        decreases v@.len() - i,
    {
        if v[i] == p {
            return true;
        }
        i = i + 1;
    }
    false
}

proof fn lemma_filter_no_dup(s: Seq<u8>, p: spec_fn(u8) -> bool)
    requires
        s.no_duplicates(),
    ensures
        s.filter(p).no_duplicates(),
    decreases s.len(),
{
    if s.len() > 0 {
        let t = s.drop_last();
        let e = s.last();
        assert(s == t.push(e));
        lemma_filter_no_dup(t, p);
        t.lemma_filter_push(e, p);
        if p(e) {
            assert forall|i: int| 0 <= i < t.filter(p).len() implies t.filter(p)[i] != e by {
                t.lemma_filter_contains_rev(p, t.filter(p)[i]);
            }
        }
    }
}

/// Some element of `s` is worse than all the others.
proof fn lemma_worst_exists(s: Seq<u8>, elev: Seq<Option<i32>>, mask: i32)
    requires
        s.len() > 0,
        forall|i: int| 0 <= i < s.len() ==> selected(elev, mask, #[trigger] s[i] as int),
    ensures
        exists|w: u8|
            s.contains(w) && forall|x: u8| s.contains(x) && x != w ==> better(elev, x as int, w as int),
    decreases s.len(),
{
    let t = s.drop_last();
    let e = s.last();
    assert(s == t.push(e));
    if t.len() == 0 {
        assert(s.contains(e));
        assert forall|x: u8| s.contains(x) && x != e implies better(elev, x as int, e as int) by {
            let i = choose|i: int| 0 <= i < s.len() && s[i] == x;
        }
    } else {
        lemma_worst_exists(t, elev, mask);
        let wt = choose|w: u8|
            t.contains(w) && forall|x: u8| t.contains(x) && x != w ==> better(elev, x as int, w as int);
        assert(selected(elev, mask, e as int) && s[s.len() - 1] == e);
        let ti = choose|i: int| 0 <= i < t.len() && t[i] == wt;
        assert(s[ti] == wt);
        assert(selected(elev, mask, wt as int));
        if better(elev, wt as int, e as int) {
            assert(s.contains(e));
            assert forall|x: u8| s.contains(x) && x != e implies better(elev, x as int, e as int) by {
                let i = choose|i: int| 0 <= i < s.len() && s[i] == x;
                assert(t.contains(x));
            }
        } else {
            assert(s.contains(wt));
            assert forall|x: u8| s.contains(x) && x != wt implies better(elev, x as int, wt as int) by {
                let i = choose|i: int| 0 <= i < s.len() && s[i] == x;
                if i < t.len() {
                    assert(t.contains(x));
                }
            }
        }
    }
}

/// No more than `MAX_CHAN` distinct satellites are selected.
proof fn lemma_selected_count(s: Seq<u8>, elev: Seq<Option<i32>>, mask: i32)
    requires
        s.no_duplicates(),
        forall|i: int| 0 <= i < s.len() ==> selected(elev, mask, #[trigger] s[i] as int),
    ensures
        s.len() <= MAX_CHAN,
{
    if s.len() > 0 {
        lemma_worst_exists(s, elev, mask);
        let w = choose|w: u8|
            s.contains(w) && forall|x: u8| s.contains(x) && x != w ==> better(elev, x as int, w as int);
        let f = |q: u8| visible(elev, mask, q as int) && better(elev, q as int, w as int);
        let fs = prns().filter(f);
        let rest = s.to_set().remove(w);
        assert forall|x: u8| rest.contains(x) implies fs.to_set().contains(x) by {
            let i = choose|i: int| 0 <= i < s.len() && s[i] == x;
            assert(selected(elev, mask, x as int));
            assert(prns()[x as int] == x);
            prns().lemma_filter_contains(f, x as int);
        }
        s.unique_seq_to_set();
        fs.lemma_cardinality_of_set();
        vstd::set_lib::lemma_len_subset(rest, fs.to_set());
        let i = choose|i: int| 0 <= i < s.len() && s[i] == w;
        assert(selected(elev, mask, w as int));
    }
}

/// The channel table stays sound: an update of a table without repeated
/// satellites holds no satellite twice, only selected satellites, and no
/// more than `MAX_CHAN` of them.
pub proof fn lemma_allocation_bounded(current: Seq<u8>, elev: Seq<Option<i32>>, mask: i32)
    requires
        current.no_duplicates(),
    ensures
        allocation(current, elev, mask).no_duplicates(),
        forall|i: int|
            0 <= i < allocation(current, elev, mask).len() ==> selected(
                elev,
                mask,
                #[trigger] allocation(current, elev, mask)[i] as int,
            ),
        allocation(current, elev, mask).len() <= MAX_CHAN,
{
    let keep = |p: u8| selected(elev, mask, p as int);
    let fresh = |p: u8| selected(elev, mask, p as int) && !current.contains(p);
    let a = current.filter(keep);
    let b = prns().filter(fresh);
    lemma_filter_no_dup(current, keep);
    assert(prns().no_duplicates());
    lemma_filter_no_dup(prns(), fresh);
    assert forall|i: int, j: int| 0 <= i < a.len() && 0 <= j < b.len() implies a[i] != b[j] by {
        current.lemma_filter_contains_rev(keep, a[i]);
        prns().lemma_filter_contains_rev(fresh, b[j]);
    }
    vstd::seq_lib::lemma_no_dup_in_concat(a, b);
    let r = a + b;
    assert(r == allocation(current, elev, mask));
    assert forall|i: int| 0 <= i < r.len() implies selected(elev, mask, #[trigger] r[i] as int) by {
        if i < a.len() {
            current.lemma_filter_pred(keep, i);
        } else {
            prns().lemma_filter_pred(fresh, i - a.len());
        }
    }
    lemma_selected_count(r, elev, mask);
}

} // verus!
