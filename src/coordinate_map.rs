use crate::point::Point;
use vstd::prelude::*;

verus! {

/// The keys of a list of entries, in order.
pub open spec fn keys_of<V>(s: Seq<(Point, V)>) -> Seq<Point> {
    s.map_values(|e: (Point, V)| e.0)
}

/// No key occurs twice.
pub open spec fn unique_keys<V>(s: Seq<(Point, V)>) -> bool {
    forall|i: int, j: int| 0 <= i < j < s.len() ==> s[i].0 != s[j].0
}

pub open spec fn has_key<V>(s: Seq<(Point, V)>, p: Point) -> bool {
    exists|i: int| 0 <= i < s.len() && s[i].0 == p
}

/// A position of `p` in `keys`.
pub open spec fn key_index(keys: Seq<Point>, p: Point) -> int {
    choose|i: int| 0 <= i < keys.len() && keys[i] == p
}

/// The entries after `p` is given the value `v`: an entry already at `p` has its value
/// replaced in place, and otherwise a new entry is appended.
pub open spec fn inserted<V>(s: Seq<(Point, V)>, p: Point, v: V) -> Seq<(Point, V)> {
    if has_key(s, p) {
        s.update(key_index(keys_of(s), p), (p, v))
    } else {
        s.push((p, v))
    }
}

/// The entries with `f` applied to each value.
pub open spec fn map_entries<V, W>(s: Seq<(Point, V)>, f: spec_fn(V) -> W) -> Seq<(Point, W)> {
    s.map_values(|e: (Point, V)| (e.0, f(e.1)))
}

pub proof fn lemma_key_index<V>(s: Seq<(Point, V)>, p: Point)
    requires
        has_key(s, p),
    ensures
        0 <= key_index(keys_of(s), p) < s.len(),
        s[key_index(keys_of(s), p)].0 == p,
{
    let i = choose|i: int| 0 <= i < s.len() && s[i].0 == p;
    assert(keys_of(s)[i] == p);
}

/// Applying a function to the values commutes with inserting.
pub proof fn lemma_inserted_map<V, W>(s: Seq<(Point, V)>, p: Point, v: V, f: spec_fn(V) -> W)
    ensures
        map_entries(inserted(s, p, v), f) == inserted(map_entries(s, f), p, f(v)),
        keys_of(map_entries(s, f)) == keys_of(s),
{
    let m = map_entries(s, f);
    assert(keys_of(m) =~= keys_of(s));
    if has_key(s, p) {
        lemma_key_index(s, p);
        let i = key_index(keys_of(s), p);
        assert(m[i].0 == p);
        assert(has_key(m, p));
        assert(map_entries(inserted(s, p, v), f) =~= inserted(m, p, f(v)));
    } else {
        assert(!has_key(m, p)) by {
            if has_key(m, p) {
                let k = choose|k: int| 0 <= k < m.len() && m[k].0 == p;
                assert(s[k].0 == p);
            }
        }
        assert(map_entries(inserted(s, p, v), f) =~= inserted(m, p, f(v)));
    }
}

/// Inserting keeps keys unique, adds at most one entry, and leaves `p` among the keys.
pub proof fn lemma_inserted<V>(s: Seq<(Point, V)>, p: Point, v: V)
    requires
        unique_keys(s),
    ensures
        unique_keys(inserted(s, p, v)),
        has_key(s, p) ==> inserted(s, p, v).len() == s.len(),
        !has_key(s, p) ==> inserted(s, p, v).len() == s.len() + 1,
        has_key(inserted(s, p, v), p),
        forall|q: Point| has_key(inserted(s, p, v), q) <==> (has_key(s, q) || q == p),
        forall|i: int|
            0 <= i < inserted(s, p, v).len() ==> #[trigger] inserted(s, p, v)[i].1 == v || (i
                < s.len() && inserted(s, p, v)[i] == s[i]),
{
    let t = inserted(s, p, v);
    if has_key(s, p) {
        lemma_key_index(s, p);
        let i = key_index(keys_of(s), p);
        assert(t[i].0 == p);
        assert forall|q: Point| has_key(t, q) <==> (has_key(s, q) || q == p) by {
            if has_key(s, q) {
                let k = choose|k: int| 0 <= k < s.len() && s[k].0 == q;
                assert(t[k].0 == q);
            }
            if has_key(t, q) {
                let k = choose|k: int| 0 <= k < t.len() && t[k].0 == q;
                if k != i {
                    assert(s[k].0 == q);
                }
            }
        }
    } else {
        assert(t[s.len() as int].0 == p);
        assert forall|q: Point| has_key(t, q) <==> (has_key(s, q) || q == p) by {
            if has_key(s, q) {
                let k = choose|k: int| 0 <= k < s.len() && s[k].0 == q;
                assert(t[k].0 == q);
            }
            if has_key(t, q) {
                let k = choose|k: int| 0 <= k < t.len() && t[k].0 == q;
                if k < s.len() {
                    assert(s[k].0 == q);
                }
            }
        }
    }
}

/// A mapping from grid points to values, kept in order of first insertion, with each
/// point used at most once.
#[derive(Debug)]
pub struct CoordinateMap<T> {
    entries: Vec<(Point, T)>,
}

impl<T: View> View for CoordinateMap<T> {
    type V = Seq<(Point, T::V)>;

    closed spec fn view(&self) -> Seq<(Point, T::V)> {
        self.entries@.map_values(|e: (Point, T)| (e.0, e.1@))
    }
}

impl<T: View> CoordinateMap<T> {
    pub open spec fn wf(&self) -> bool {
        unique_keys(self@)
    }

    pub fn new() -> (r: CoordinateMap<T>)
        ensures
            r@ == Seq::<(Point, T::V)>::empty(),
            r.wf(),
    {
        let r = CoordinateMap { entries: Vec::new() };
        assert(r@ =~= Seq::<(Point, T::V)>::empty());
        r
    }

    pub fn len(&self) -> (r: usize)
        ensures
            r == self@.len(),
    {
        self.entries.len()
    }

    /// Gives `p` the value `v`; a value already at `p` is replaced.
    pub fn insert(&mut self, p: Point, v: T)
        requires
            old(self).wf(),
        ensures
            final(self)@ == inserted(old(self)@, p, v@),
            final(self).wf(),
    {
        let ghost s = self@;
        let n = self.entries.len();
        let mut i: usize = 0;
        while i < n
            invariant
                n == self.entries@.len(),
                s == self@,
                s == old(self)@,
                unique_keys(s),
                0 <= i <= n,
                forall|k: int| 0 <= k < i ==> s[k].0 != p,
            decreases n - i,
        {
            if self.entries[i].0 == p {
                proof {
                    assert(s[i as int].0 == p);
                    assert(has_key(s, p));
                    lemma_key_index(s, p);
                    let c = key_index(keys_of(s), p);
                    assert(c == i);
                    assert(inserted(s, p, v@) == s.update(i as int, (p, v@)));
                }
                self.entries.set(i, (p, v));
                proof {
                    assert(self@ =~= s.update(i as int, (p, v@)));
                    lemma_inserted(s, p, v@);
                }
                return;
            }
            i = i + 1;
        }
        assert(!has_key(s, p));
        self.entries.push((p, v));
        proof {
            assert(self@ =~= s.push((p, v@)));
            lemma_inserted(s, p, v@);
        }
    }

    /// The entry at position `i`, in order of first insertion.
    pub fn entry(&self, i: usize) -> (r: (Point, &T))
        requires
            i < self@.len(),
        ensures
            r.0 == self@[i as int].0,
            r.1@ == self@[i as int].1,
    {
        let e = &self.entries[i];
        (e.0, &e.1)
    }

    /// The points in use, in order of first insertion.
    pub fn keys(&self) -> (r: Vec<Point>)
        ensures
            r@ == keys_of(self@),
    {
        let mut r: Vec<Point> = Vec::new();
        let n = self.entries.len();
        let mut i: usize = 0;
        while i < n
            invariant
                n == self@.len(),
                0 <= i <= n,
                r@ == keys_of(self@).subrange(0, i as int),
            decreases n - i,
        {
            r.push(self.entries[i].0);
            i = i + 1;
            assert(r@ =~= keys_of(self@).subrange(0, i as int));
        }
        assert(r@ =~= keys_of(self@));
        r
    }

    /// The value at `p`, if any.
    pub fn get(&self, p: Point) -> (r: Option<&T>)
        requires
            self.wf(),
        ensures
            r is None <==> !has_key(self@, p),
            r matches Some(v) ==> exists|i: int|
                0 <= i < self@.len() && self@[i].0 == p && self@[i].1 == v@,
    {
        let n = self.entries.len();
        let mut i: usize = 0;
        while i < n
            invariant
                n == self@.len(),
                unique_keys(self@),
                0 <= i <= n,
                forall|k: int| 0 <= k < i ==> self@[k].0 != p,
            decreases n - i,
        {
            if self.entries[i].0 == p {
                assert(self@[i as int].0 == p);
                return Some(&self.entries[i].1);
            }
            i = i + 1;
        }
        None
    }
}

} // verus!
