use crate::point::{Point, within_radius, within_radius_spec, lemma_within_radius_symmetric};
use vstd::prelude::*;

verus! {

/// Positions `i` and `j` hold two different points within `radius` of each other.
pub open spec fn linked(keys: Seq<Point>, i: int, j: int, radius: nat) -> bool {
    keys[i] != keys[j] && within_radius_spec(keys[i], keys[j], radius)
}

/// The edges from position `i` to the positions after it and before `end`, in order.
pub open spec fn row(keys: Seq<Point>, i: int, end: int, radius: nat) -> Seq<(Point, Point)>
    decreases end - i,
{
    if end <= i + 1 {
        Seq::empty()
    } else {
        let prev = row(keys, i, end - 1, radius);
        if linked(keys, i, end - 1, radius) {
            prev.push((keys[i], keys[end - 1]))
        } else {
            prev
        }
    }
}

/// The edges whose first end lies at a position before `m`.
pub open spec fn edges_upto(keys: Seq<Point>, m: int, radius: nat) -> Seq<(Point, Point)>
    decreases m,
{
    if m <= 0 {
        Seq::empty()
    } else {
        edges_upto(keys, m - 1, radius) + row(keys, m - 1, keys.len() as int, radius)
    }
}

/// The connection graph over a list of points: each pair of positions `i < j` whose
/// points differ and lie within `radius` gives the edge `(keys[i], keys[j])`, ordered by
/// `i` and then by `j`.
pub open spec fn connections_of(keys: Seq<Point>, radius: nat) -> Seq<(Point, Point)> {
    edges_upto(keys, keys.len() as int, radius)
}

/// Two edges join the same two points, in either order.
pub open spec fn same_edge(e: (Point, Point), f: (Point, Point)) -> bool {
    e == f || (e.0 == f.1 && e.1 == f.0)
}

/// No edge occurs twice, in either order.
pub open spec fn no_repeated_edge(s: Seq<(Point, Point)>) -> bool {
    forall|p: int, q: int| 0 <= p < q < s.len() ==> !same_edge(s[p], s[q])
}

pub open spec fn distinct_points(keys: Seq<Point>) -> bool {
    forall|i: int, j: int| 0 <= i < j < keys.len() ==> keys[i] != keys[j]
}

/// `a` and `b` are joined by an edge of `s`, in either order.
pub open spec fn joined(s: Seq<(Point, Point)>, a: Point, b: Point) -> bool {
    s.contains((a, b)) || s.contains((b, a))
}

proof fn lemma_row(keys: Seq<Point>, i: int, end: int, radius: nat)
    requires
        0 <= i < keys.len(),
        end <= keys.len(),
    ensures
        forall|k: int| #![trigger row(keys, i, end, radius)[k]]
            0 <= k < row(keys, i, end, radius).len() ==> exists|j: int| #![trigger linked(keys, i, j, radius)]
                i < j < end && linked(keys, i, j, radius) && row(keys, i, end, radius)[k]
                    == (keys[i], keys[j]),
        forall|j: int|
            i < j < end && #[trigger] linked(keys, i, j, radius) ==> row(keys, i, end, radius).contains(
                (keys[i], keys[j]),
            ),
        distinct_points(keys) ==> no_repeated_edge(row(keys, i, end, radius)),
    decreases end - i,
{
    if end > i + 1 {
        lemma_row(keys, i, end - 1, radius);
        let prev = row(keys, i, end - 1, radius);
        let cur = row(keys, i, end, radius);
        if linked(keys, i, end - 1, radius) {
            assert(cur == prev.push((keys[i], keys[end - 1])));
            assert forall|k: int| #![trigger cur[k]] 0 <= k < cur.len() implies exists|j: int| #![trigger linked(keys, i, j, radius)]
                i < j < end && linked(keys, i, j, radius) && cur[k] == (keys[i], keys[j]) by {
                if k < prev.len() {
                    assert(cur[k] == prev[k]);
                } else {
                    assert(cur[k] == (keys[i], keys[end - 1]));
                }
            }
            assert forall|j: int| i < j < end && #[trigger] linked(keys, i, j, radius) implies cur.contains(
                (keys[i], keys[j]),
            ) by {
                if j < end - 1 {
                    let k = choose|k: int| 0 <= k < prev.len() && prev[k] == (keys[i], keys[j]);
                    assert(cur[k] == prev[k]);
                } else {
                    assert(cur[prev.len() as int] == (keys[i], keys[j]));
                }
            }
            if distinct_points(keys) {
                assert forall|p: int, q: int| 0 <= p < q < cur.len() implies !same_edge(cur[p], cur[q]) by {
                    if q < prev.len() {
                        assert(cur[p] == prev[p] && cur[q] == prev[q]);
                    } else {
                        assert(cur[p] == prev[p]);
                        let jp = choose|j: int|
                            i < j < end - 1 && #[trigger] linked(keys, i, j, radius) && prev[p] == (keys[i], keys[j]);
                        assert(keys[jp] != keys[end - 1]);
                        assert(keys[i] != keys[jp]);
                    }
                }
            }
        } else {
            assert forall|j: int| i < j < end && #[trigger] linked(keys, i, j, radius) implies cur.contains(
                (keys[i], keys[j]),
            ) by {
                let k = choose|k: int| 0 <= k < prev.len() && prev[k] == (keys[i], keys[j]);
                assert(cur[k] == prev[k]);
            }
            assert forall|k: int| #![trigger cur[k]] 0 <= k < cur.len() implies exists|j: int| #![trigger linked(keys, i, j, radius)]
                i < j < end && linked(keys, i, j, radius) && cur[k] == (keys[i], keys[j]) by {
                assert(cur[k] == prev[k]);
            }
        }
    } else {
        assert(row(keys, i, end, radius).len() == 0);
    }
}

proof fn lemma_edges(keys: Seq<Point>, m: int, radius: nat)
    requires
        0 <= m <= keys.len(),
    ensures
        forall|k: int| #![trigger edges_upto(keys, m, radius)[k]]
            0 <= k < edges_upto(keys, m, radius).len() ==> exists|i: int, j: int| #![trigger linked(keys, i, j, radius)]
                0 <= i < m && i < j < keys.len() && linked(keys, i, j, radius)
                    && edges_upto(keys, m, radius)[k] == (keys[i], keys[j]),
        forall|i: int, j: int|
            0 <= i < m && i < j < keys.len() && #[trigger] linked(keys, i, j, radius)
                ==> edges_upto(keys, m, radius).contains((keys[i], keys[j])),
        distinct_points(keys) ==> no_repeated_edge(edges_upto(keys, m, radius)),
    decreases m,
{
    if m > 0 {
        let n = keys.len() as int;
        lemma_edges(keys, m - 1, radius);
        lemma_row(keys, m - 1, n, radius);
        let prev = edges_upto(keys, m - 1, radius);
        let r = row(keys, m - 1, n, radius);
        let cur = edges_upto(keys, m, radius);
        assert(cur == prev + r);
        assert forall|k: int| #![trigger cur[k]] 0 <= k < cur.len() implies exists|i: int, j: int| #![trigger linked(keys, i, j, radius)]
            0 <= i < m && i < j < keys.len() && linked(keys, i, j, radius) && cur[k] == (
                keys[i],
                keys[j],
            ) by {
            if k < prev.len() {
                assert(cur[k] == prev[k]);
            } else {
                assert(cur[k] == r[k - prev.len()]);
                let j = choose|j: int|
                    m - 1 < j < n && #[trigger] linked(keys, m - 1, j, radius) && r[k - prev.len()] == (
                        keys[m - 1],
                        keys[j],
                    );
                assert(cur[k] == (keys[m - 1], keys[j]));
            }
        }
        assert forall|i: int, j: int|
            0 <= i < m && i < j < keys.len() && #[trigger] linked(keys, i, j, radius) implies cur.contains(
                (keys[i], keys[j]),
            ) by {
            if i < m - 1 {
                let k = choose|k: int| 0 <= k < prev.len() && prev[k] == (keys[i], keys[j]);
                assert(cur[k] == prev[k]);
            } else {
                let k = choose|k: int| 0 <= k < r.len() && r[k] == (keys[i], keys[j]);
                assert(cur[k + prev.len()] == r[k]);
            }
        }
        if distinct_points(keys) {
            assert forall|p: int, q: int| 0 <= p < q < cur.len() implies !same_edge(cur[p], cur[q]) by {
                if q < prev.len() {
                    assert(cur[p] == prev[p] && cur[q] == prev[q]);
                } else if p >= prev.len() {
                    assert(cur[p] == r[p - prev.len()] && cur[q] == r[q - prev.len()]);
                } else {
                    assert(cur[p] == prev[p] && cur[q] == r[q - prev.len()]);
                    let (ip, jp) = choose|i: int, j: int|
                        0 <= i < m - 1 && i < j < n && #[trigger] linked(keys, i, j, radius) && prev[p] == (
                            keys[i],
                            keys[j],
                        );
                    let jq = choose|j: int|
                        m - 1 < j < n && #[trigger] linked(keys, m - 1, j, radius) && r[q - prev.len()] == (
                            keys[m - 1],
                            keys[j],
                        );
                    assert(keys[ip] != keys[m - 1]);
                    assert(keys[ip] != keys[jq]);
                }
            }
        }
    } else {
        assert(edges_upto(keys, m, radius).len() == 0);
    }
}

/// No point is joined to itself, and no two points are joined twice, in either order.
pub proof fn lemma_connections_simple(keys: Seq<Point>, radius: nat)
    requires
        distinct_points(keys),
    ensures
        forall|k: int|
            0 <= k < connections_of(keys, radius).len() ==> #[trigger] connections_of(
                keys,
                radius,
            )[k].0 != connections_of(keys, radius)[k].1,
        no_repeated_edge(connections_of(keys, radius)),
{
    lemma_edges(keys, keys.len() as int, radius);
}

/// Two different points of the list are joined exactly when they lie within the radius,
/// and every edge joins two points of the list.
pub proof fn lemma_connections_exact(keys: Seq<Point>, radius: nat)
    ensures
        forall|a: Point, b: Point|
            keys.contains(a) && keys.contains(b) && a != b ==> (#[trigger] joined(
                connections_of(keys, radius),
                a,
                b,
            ) <==> within_radius_spec(a, b, radius)),
        forall|k: int|
            0 <= k < connections_of(keys, radius).len() ==> keys.contains(
                #[trigger] connections_of(keys, radius)[k].0,
            ) && keys.contains(connections_of(keys, radius)[k].1),
{
    let n = keys.len() as int;
    let e = connections_of(keys, radius);
    lemma_edges(keys, n, radius);
    assert forall|k: int| 0 <= k < e.len() implies keys.contains(#[trigger] e[k].0) && keys.contains(
        e[k].1,
    ) by {
        let (i, j) = choose|i: int, j: int|
            0 <= i < n && i < j < n && #[trigger] linked(keys, i, j, radius) && e[k] == (keys[i], keys[j]);
        assert(keys[i] == e[k].0 && keys[j] == e[k].1);
    }
    assert forall|a: Point, b: Point| keys.contains(a) && keys.contains(b) && a != b implies (
    #[trigger] joined(e, a, b) <==> within_radius_spec(a, b, radius)) by {
        lemma_within_radius_symmetric(a, b, radius);
        let ia = choose|i: int| 0 <= i < n && keys[i] == a;
        let ib = choose|i: int| 0 <= i < n && keys[i] == b;
        if within_radius_spec(a, b, radius) {
            if ia < ib {
                assert(linked(keys, ia, ib, radius));
            } else {
                assert(linked(keys, ib, ia, radius));
            }
        }
        if e.contains((a, b)) {
            let k = choose|k: int| 0 <= k < e.len() && e[k] == (a, b);
            let (i, j) = choose|i: int, j: int|
                0 <= i < n && i < j < n && #[trigger] linked(keys, i, j, radius) && e[k] == (keys[i], keys[j]);
        }
        if e.contains((b, a)) {
            let k = choose|k: int| 0 <= k < e.len() && e[k] == (b, a);
            let (i, j) = choose|i: int, j: int|
                0 <= i < n && i < j < n && #[trigger] linked(keys, i, j, radius) && e[k] == (keys[i], keys[j]);
        }
    }
}

/// The connection graph over the points `keys`, computed over every pair of positions:
/// a pair of different points is joined when they lie within `radius`.
pub fn connect(keys: &Vec<Point>, radius: u16) -> (r: Vec<(Point, Point)>)
    ensures
        r@ == connections_of(keys@, radius as nat),
{
    let ghost ks = keys@;
    let ghost rad = radius as nat;
    let n = keys.len();
    let mut ret: Vec<(Point, Point)> = Vec::new();
    let mut i: usize = 0;
    while i < n
        invariant
            n == ks.len(),
            ks == keys@,
            rad == radius as nat,
            0 <= i <= n,
            ret@ == edges_upto(ks, i as int, rad),
        decreases n - i,
    {
        let ghost before = ret@;
        let mut j: usize = i + 1;
        assert(row(ks, i as int, j as int, rad) =~= Seq::<(Point, Point)>::empty());
        assert(before =~= before + row(ks, i as int, j as int, rad));
        while j < n
            invariant
                n == ks.len(),
                ks == keys@,
                rad == radius as nat,
                0 <= i < n,
                i + 1 <= j <= n,
                before == edges_upto(ks, i as int, rad),
                ret@ == before + row(ks, i as int, j as int, rad),
            decreases n - j,
        {
            let a = keys[i];
            let b = keys[j];
            if a != b && within_radius(a, b, radius) {
                ret.push((a, b));
                assert(ret@ =~= before + row(ks, i as int, j + 1, rad));
            } else {
                assert(ret@ =~= before + row(ks, i as int, j + 1, rad));
            }
            j = j + 1;
        }
        i = i + 1;
        assert(ret@ == edges_upto(ks, i as int, rad));
    }
    ret
}

} // verus!
