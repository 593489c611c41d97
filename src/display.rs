use crate::astronomical::Galaxy;
use crate::point::Point;
use vstd::prelude::*;

verus! {

/// What a map of a galaxy shows: a circle for each constellation, at its point and
/// sized by its count of systems, and a line for each connection.
#[derive(Debug)]
pub struct MapLayout {
    pub circles: Vec<(Point, usize)>,
    pub lines: Vec<(Point, Point)>,
}

/// The marks of a map of `galaxy`, in the order of its constellations and connections.
pub fn layout(galaxy: &Galaxy) -> (r: MapLayout)
    ensures
        r.circles@.len() == galaxy@.constellations.len(),
        forall|i: int|
            0 <= i < r.circles@.len() ==> (#[trigger] r.circles@[i]).0 == galaxy@.constellations[i].0
                && r.circles@[i].1 == galaxy@.constellations[i].1.systems.len(),
        r.lines@ == galaxy@.connections,
{
    let cons = galaxy.constellations();
    let n = cons.len();
    let mut circles: Vec<(Point, usize)> = Vec::new();
    let mut i: usize = 0;
    while i < n
        invariant
            n == galaxy@.constellations.len(),
            cons@ == galaxy@.constellations,
            0 <= i <= n,
            circles@.len() == i,
            forall|k: int|
                0 <= k < i ==> (#[trigger] circles@[k]).0 == galaxy@.constellations[k].0
                    && circles@[k].1 == galaxy@.constellations[k].1.systems.len(),
        decreases n - i,
    {
        let (p, c) = cons.entry(i);
        circles.push((p, c.systems().len()));
        i = i + 1;
    }
    let conns = galaxy.connections();
    let mut lines: Vec<(Point, Point)> = Vec::new();
    let m = conns.len();
    let mut j: usize = 0;
    while j < m
        invariant
            m == galaxy@.connections.len(),
            conns@ == galaxy@.connections,
            0 <= j <= m,
            lines@ == galaxy@.connections.subrange(0, j as int),
        decreases m - j,
    {
        lines.push(conns[j]);
        j = j + 1;
        assert(lines@ =~= galaxy@.connections.subrange(0, j as int));
    }
    assert(lines@ =~= galaxy@.connections);
    MapLayout { circles, lines }
}

} // verus!
