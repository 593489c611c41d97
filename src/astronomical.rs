use crate::connectivity::{
    connect, connections_of, distinct_points, joined, lemma_connections_exact,
    lemma_connections_simple, no_repeated_edge,
};
use crate::coordinate_map::{
    CoordinateMap, has_key, inserted, keys_of, lemma_inserted, lemma_inserted_map, map_entries,
    unique_keys,
};
use crate::ident::{Ident, IdentView, blank_id, ident_named, ident_shape};
use crate::name;
use crate::point::{Point, within_radius_spec};
use crate::seed::{GenConfig, SeedSource, next_state, point_draw, range_draw};
use vstd::prelude::*;

verus! {

pub open spec fn planet_ident() -> IdentView {
    ident_named("Planet"@)
}

pub open spec fn system_ident() -> IdentView {
    ident_named("System"@)
}

pub open spec fn constellation_ident() -> IdentView {
    ident_named("Constellation"@)
}

pub open spec fn galaxy_ident() -> IdentView {
    ident_named("Galaxy"@)
}

/// A system, built or not: its identity and its planets in order.
pub struct SystemView {
    pub id: IdentView,
    pub planets: Seq<IdentView>,
}

/// A constellation that is not built yet: its systems have no places.
pub struct ConstellationBuilderView {
    pub id: IdentView,
    pub systems: Seq<SystemView>,
}

/// A built constellation: each system at its own point.
pub struct ConstellationView {
    pub id: IdentView,
    pub systems: Seq<(Point, SystemView)>,
}

/// A galaxy that is not built yet.
pub struct GalaxyBuilderView {
    pub id: IdentView,
    pub constellations: Seq<ConstellationBuilderView>,
}

/// A built galaxy: each constellation at its own point, and the edges between them.
pub struct GalaxyView {
    pub id: IdentView,
    pub constellations: Seq<(Point, ConstellationView)>,
    pub connections: Seq<(Point, Point)>,
}

// ---- shapes: what is left when the random unique ids are blanked ----

/// The identity compared by name and key: the unique id blanked.
pub open spec fn name_and_key() -> spec_fn(IdentView) -> IdentView {
    |v: IdentView| ident_shape(v)
}

/// The identity compared by key alone: the name and the unique id blanked.
pub open spec fn key_only() -> spec_fn(IdentView) -> IdentView {
    |v: IdentView| IdentView { name: Seq::empty(), key: v.key, uuid: blank_id() }
}

// Each shape below applies the identity erasure `e` at every level and keeps counts,
// order and points.

pub open spec fn planets_shape(planets: Seq<IdentView>, e: spec_fn(IdentView) -> IdentView) -> Seq<
    IdentView,
> {
    planets.map_values(|p: IdentView| e(p))
}

pub open spec fn system_shape(v: SystemView, e: spec_fn(IdentView) -> IdentView) -> SystemView {
    SystemView { id: e(v.id), planets: planets_shape(v.planets, e) }
}

pub open spec fn systems_shape(systems: Seq<SystemView>, e: spec_fn(IdentView) -> IdentView) -> Seq<
    SystemView,
> {
    systems.map_values(|x: SystemView| system_shape(x, e))
}

pub open spec fn constellation_builder_shape(
    v: ConstellationBuilderView,
    e: spec_fn(IdentView) -> IdentView,
) -> ConstellationBuilderView {
    ConstellationBuilderView { id: e(v.id), systems: systems_shape(v.systems, e) }
}

pub open spec fn constellation_builders_shape(
    cs: Seq<ConstellationBuilderView>,
    e: spec_fn(IdentView) -> IdentView,
) -> Seq<ConstellationBuilderView> {
    cs.map_values(|c: ConstellationBuilderView| constellation_builder_shape(c, e))
}

pub open spec fn galaxy_builder_shape(
    v: GalaxyBuilderView,
    e: spec_fn(IdentView) -> IdentView,
) -> GalaxyBuilderView {
    GalaxyBuilderView {
        id: e(v.id),
        constellations: constellation_builders_shape(v.constellations, e),
    }
}

pub open spec fn placed_systems_shape(
    s: Seq<(Point, SystemView)>,
    e: spec_fn(IdentView) -> IdentView,
) -> Seq<(Point, SystemView)> {
    map_entries(s, |x: SystemView| system_shape(x, e))
}

pub open spec fn constellation_shape(
    v: ConstellationView,
    e: spec_fn(IdentView) -> IdentView,
) -> ConstellationView {
    ConstellationView { id: e(v.id), systems: placed_systems_shape(v.systems, e) }
}

pub open spec fn placed_constellations_shape(
    s: Seq<(Point, ConstellationView)>,
    e: spec_fn(IdentView) -> IdentView,
) -> Seq<(Point, ConstellationView)> {
    map_entries(s, |c: ConstellationView| constellation_shape(c, e))
}

/// A built galaxy compared by counts, points, connections and the erased identities.
pub open spec fn galaxy_shape(v: GalaxyView, e: spec_fn(IdentView) -> IdentView) -> GalaxyView {
    GalaxyView {
        id: e(v.id),
        constellations: placed_constellations_shape(v.constellations, e),
        connections: v.connections,
    }
}

// ---- generation: the structure that the draws decide ----

/// A system made by `SystemBuilder::total` from state `s`, and the state after it.
pub open spec fn system_gen(cfg: GenConfig, s: u64) -> (SystemView, u64) {
    let n = range_draw(s, cfg.planets_per_system.lo(), cfg.planets_per_system.hi());
    (
        SystemView { id: system_ident(), planets: Seq::new(n as nat, |_k: int| planet_ident()) },
        next_state(s),
    )
}

/// `n` systems made one after another from state `s`.
pub open spec fn systems_gen(cfg: GenConfig, s: u64, n: nat) -> (Seq<SystemView>, u64)
    decreases n,
{
    if n == 0 {
        (Seq::empty(), s)
    } else {
        let (prev, s1) = systems_gen(cfg, s, (n - 1) as nat);
        let (v, s2) = system_gen(cfg, s1);
        (prev.push(v), s2)
    }
}

/// A constellation made by `ConstellationBuilder::total` from state `s`.
pub open spec fn constellation_gen(cfg: GenConfig, s: u64) -> (ConstellationBuilderView, u64) {
    let n = range_draw(s, cfg.systems_per_constellation.lo(), cfg.systems_per_constellation.hi());
    let (systems, s1) = systems_gen(cfg, next_state(s), n as nat);
    (ConstellationBuilderView { id: constellation_ident(), systems }, s1)
}

/// `n` constellations made one after another from state `s`.
pub open spec fn constellations_gen(cfg: GenConfig, s: u64, n: nat) -> (
    Seq<ConstellationBuilderView>,
    u64,
)
    decreases n,
{
    if n == 0 {
        (Seq::empty(), s)
    } else {
        let (prev, s1) = constellations_gen(cfg, s, (n - 1) as nat);
        let (v, s2) = constellation_gen(cfg, s1);
        (prev.push(v), s2)
    }
}

/// A galaxy made by `GalaxyBuilder::total` from state `s`.
pub open spec fn galaxy_gen(cfg: GenConfig, s: u64) -> (GalaxyBuilderView, u64) {
    let n = range_draw(
        s,
        cfg.constellations_per_galaxy.lo(),
        cfg.constellations_per_galaxy.hi(),
    );
    let (constellations, s1) = constellations_gen(cfg, next_state(s), n as nat);
    (GalaxyBuilderView { id: galaxy_ident(), constellations }, s1)
}

// ---- building: places drawn for each child, later places winning ----

/// Systems placed in order from state `s`: each takes the point drawn next.
pub open spec fn place_systems(systems: Seq<SystemView>, s: u64) -> (Seq<(Point, SystemView)>, u64)
    decreases systems.len(),
{
    if systems.len() == 0 {
        (Seq::empty(), s)
    } else {
        let (prev, s1) = place_systems(systems.drop_last(), s);
        (inserted(prev, point_draw(s1), systems.last()), next_state(next_state(s1)))
    }
}

/// A constellation built from state `s`.
pub open spec fn constellation_build(c: ConstellationBuilderView, s: u64) -> (ConstellationView, u64) {
    let (systems, s1) = place_systems(c.systems, s);
    (ConstellationView { id: c.id, systems }, s1)
}

/// Constellations placed and built in order from state `s`: the point of each is drawn
/// before the constellation itself is built.
pub open spec fn place_constellations(cs: Seq<ConstellationBuilderView>, s: u64) -> (
    Seq<(Point, ConstellationView)>,
    u64,
)
    decreases cs.len(),
{
    if cs.len() == 0 {
        (Seq::empty(), s)
    } else {
        let (prev, s1) = place_constellations(cs.drop_last(), s);
        let (c, s2) = constellation_build(cs.last(), next_state(next_state(s1)));
        (inserted(prev, point_draw(s1), c), s2)
    }
}

/// A galaxy built from state `s`, connected within `radius`.
pub open spec fn galaxy_build(g: GalaxyBuilderView, s: u64, radius: nat) -> (GalaxyView, u64) {
    let (cs, s1) = place_constellations(g.constellations, s);
    (GalaxyView { id: g.id, constellations: cs, connections: connections_of(keys_of(cs), radius) }, s1)
}

// ---- structural bounds ----

pub open spec fn planets_within(cfg: GenConfig, v: SystemView) -> bool {
    cfg.planets_per_system.lo() <= v.planets.len() <= cfg.planets_per_system.hi()
}

/// Every count of an unbuilt constellation lies in its configured range.
pub open spec fn constellation_builder_within(cfg: GenConfig, c: ConstellationBuilderView) -> bool {
    &&& cfg.systems_per_constellation.lo() <= c.systems.len() <= cfg.systems_per_constellation.hi()
    &&& forall|i: int| 0 <= i < c.systems.len() ==> planets_within(cfg, #[trigger] c.systems[i])
}

/// Every count of an unbuilt galaxy lies in its configured range.
pub open spec fn galaxy_builder_within(cfg: GenConfig, g: GalaxyBuilderView) -> bool {
    &&& cfg.constellations_per_galaxy.lo() <= g.constellations.len()
        <= cfg.constellations_per_galaxy.hi()
    &&& forall|i: int|
        0 <= i < g.constellations.len() ==> constellation_builder_within(
            cfg,
            #[trigger] g.constellations[i],
        )
}

/// A count of placed children: children that drew the same point leave one entry, so
/// the count can fall below the range's lower bound but never to zero, and never rises
/// above its upper bound.
pub open spec fn placed_count_within(n: nat, lo: u8, hi: u8) -> bool {
    n <= hi && (lo > 0 ==> n > 0)
}

pub open spec fn constellation_within(cfg: GenConfig, c: ConstellationView) -> bool {
    &&& placed_count_within(
        c.systems.len(),
        cfg.systems_per_constellation.lo(),
        cfg.systems_per_constellation.hi(),
    )
    &&& forall|i: int| 0 <= i < c.systems.len() ==> planets_within(cfg, (#[trigger] c.systems[i]).1)
}

/// The counts of a built galaxy, at every level.
pub open spec fn galaxy_within(cfg: GenConfig, g: GalaxyView) -> bool {
    &&& placed_count_within(
        g.constellations.len(),
        cfg.constellations_per_galaxy.lo(),
        cfg.constellations_per_galaxy.hi(),
    )
    &&& forall|i: int|
        0 <= i < g.constellations.len() ==> constellation_within(
            cfg,
            (#[trigger] g.constellations[i]).1,
        )
}

proof fn lemma_place_systems_within(cfg: GenConfig, systems: Seq<SystemView>, s: u64)
    requires
        forall|j: int| 0 <= j < systems.len() ==> planets_within(cfg, #[trigger] systems[j]),
    ensures
        place_systems(systems, s).0.len() <= systems.len(),
        systems.len() > 0 ==> place_systems(systems, s).0.len() > 0,
        unique_keys(place_systems(systems, s).0),
        forall|i: int|
            0 <= i < place_systems(systems, s).0.len() ==> planets_within(
                cfg,
                (#[trigger] place_systems(systems, s).0[i]).1,
            ),
    decreases systems.len(),
{
    if systems.len() > 0 {
        let (prev, s1) = place_systems(systems.drop_last(), s);
        lemma_place_systems_within(cfg, systems.drop_last(), s);
        lemma_inserted(prev, point_draw(s1), systems.last());
        let t = place_systems(systems, s).0;
        assert forall|i: int| 0 <= i < t.len() implies planets_within(cfg, (#[trigger] t[i]).1) by {
            if t[i].1 != systems.last() {
                assert(t[i] == prev[i]);
            }
        }
    }
}

proof fn lemma_place_constellations_within(
    cfg: GenConfig,
    cs: Seq<ConstellationBuilderView>,
    s: u64,
)
    requires
        forall|j: int| 0 <= j < cs.len() ==> constellation_builder_within(cfg, #[trigger] cs[j]),
    ensures
        place_constellations(cs, s).0.len() <= cs.len(),
        cs.len() > 0 ==> place_constellations(cs, s).0.len() > 0,
        unique_keys(place_constellations(cs, s).0),
        forall|i: int|
            0 <= i < place_constellations(cs, s).0.len() ==> constellation_within(
                cfg,
                (#[trigger] place_constellations(cs, s).0[i]).1,
            ),
    decreases cs.len(),
{
    if cs.len() > 0 {
        let (prev, s1) = place_constellations(cs.drop_last(), s);
        lemma_place_constellations_within(cfg, cs.drop_last(), s);
        let last = cs.last();
        let (c, s2) = constellation_build(last, next_state(next_state(s1)));
        assert(constellation_builder_within(cfg, last));
        lemma_place_systems_within(cfg, last.systems, next_state(next_state(s1)));
        assert(constellation_within(cfg, c));
        lemma_inserted(prev, point_draw(s1), c);
        let t = place_constellations(cs, s).0;
        assert forall|i: int| 0 <= i < t.len() implies constellation_within(cfg, (#[trigger] t[i]).1) by {
            if t[i].1 != c {
                assert(t[i] == prev[i]);
            }
        }
    }
}

/// The points drawn when `systems` are placed in order from state `s`.
pub open spec fn system_points(systems: Seq<SystemView>, s: u64) -> Seq<Point>
    decreases systems.len(),
{
    if systems.len() == 0 {
        Seq::empty()
    } else {
        system_points(systems.drop_last(), s).push(
            point_draw(place_systems(systems.drop_last(), s).1),
        )
    }
}

/// The points drawn for the constellations themselves when `cs` are placed in order
/// from state `s`.
pub open spec fn constellation_points(cs: Seq<ConstellationBuilderView>, s: u64) -> Seq<Point>
    decreases cs.len(),
{
    if cs.len() == 0 {
        Seq::empty()
    } else {
        constellation_points(cs.drop_last(), s).push(
            point_draw(place_constellations(cs.drop_last(), s).1),
        )
    }
}

proof fn lemma_keys_contains<V>(t: Seq<(Point, V)>, p: Point)
    ensures
        has_key(t, p) <==> keys_of(t).contains(p),
{
    if has_key(t, p) {
        let i = choose|i: int| 0 <= i < t.len() && t[i].0 == p;
        assert(keys_of(t)[i] == p);
    }
    if keys_of(t).contains(p) {
        let i = choose|i: int| 0 <= i < keys_of(t).len() && keys_of(t)[i] == p;
        assert(t[i].0 == p);
    }
}

/// When the points drawn for a constellation's systems are all different, every system
/// is kept, each at the point drawn for it.
pub proof fn lemma_distinct_places_keep_every_system(systems: Seq<SystemView>, s: u64)
    requires
        distinct_points(system_points(systems, s)),
    ensures
        place_systems(systems, s).0.len() == systems.len(),
        keys_of(place_systems(systems, s).0) == system_points(systems, s),
    decreases systems.len(),
{
    if systems.len() > 0 {
        let pts = system_points(systems, s);
        let before = system_points(systems.drop_last(), s);
        assert(before == pts.drop_last());
        lemma_distinct_places_keep_every_system(systems.drop_last(), s);
        let (prev, s1) = place_systems(systems.drop_last(), s);
        let p = point_draw(s1);
        assert(pts.last() == p);
        lemma_keys_contains(prev, p);
        assert(!before.contains(p)) by {
            if before.contains(p) {
                let i = choose|i: int| 0 <= i < before.len() && before[i] == p;
                assert(pts[i] == pts[pts.len() - 1]);
            }
        }
        assert(keys_of(prev.push((p, systems.last()))) =~= before.push(p));
    }
}

/// When the points drawn for a galaxy's constellations are all different, every
/// constellation is kept, each at the point drawn for it.
pub proof fn lemma_distinct_places_keep_every_constellation(
    cs: Seq<ConstellationBuilderView>,
    s: u64,
)
    requires
        distinct_points(constellation_points(cs, s)),
    ensures
        place_constellations(cs, s).0.len() == cs.len(),
        keys_of(place_constellations(cs, s).0) == constellation_points(cs, s),
    decreases cs.len(),
{
    if cs.len() > 0 {
        let pts = constellation_points(cs, s);
        let before = constellation_points(cs.drop_last(), s);
        assert(before == pts.drop_last());
        lemma_distinct_places_keep_every_constellation(cs.drop_last(), s);
        let (prev, s1) = place_constellations(cs.drop_last(), s);
        let p = point_draw(s1);
        let (c, s2) = constellation_build(cs.last(), next_state(next_state(s1)));
        assert(pts.last() == p);
        lemma_keys_contains(prev, p);
        assert(!before.contains(p)) by {
            if before.contains(p) {
                let i = choose|i: int| 0 <= i < before.len() && before[i] == p;
                assert(pts[i] == pts[pts.len() - 1]);
            }
        }
        assert(keys_of(prev.push((p, c))) =~= before.push(p));
    }
}

/// A built galaxy whose constellations all drew different points holds as many
/// constellations as its builder had, so the count lies in the configured range; and at
/// every level no count exceeds its upper bound, none is zero where the range excludes
/// zero, and each system holds a planet count from its range.
pub proof fn lemma_built_counts_within_range(
    cfg: GenConfig,
    b: GalaxyBuilderView,
    s: u64,
    radius: nat,
)
    requires
        galaxy_builder_within(cfg, b),
        distinct_points(constellation_points(b.constellations, s)),
    ensures
        cfg.constellations_per_galaxy.lo() <= galaxy_build(b, s, radius).0.constellations.len()
            <= cfg.constellations_per_galaxy.hi(),
        galaxy_within(cfg, galaxy_build(b, s, radius).0),
{
    lemma_distinct_places_keep_every_constellation(b.constellations, s);
    lemma_place_constellations_within(cfg, b.constellations, s);
}

// ---- planets ----

/// A planet: a leaf of the tree, placed only as a member of its system.
#[derive(Debug)]
pub struct Planet {
    id: Ident,
}

impl View for Planet {
    type V = IdentView;

    closed spec fn view(&self) -> IdentView {
        self.id@
    }
}

impl Planet {
    /// A planet with the given identity.
    pub fn from_ident(id: Ident) -> (r: Planet)
        ensures
            r@ == id@,
    {
        Planet { id }
    }

    pub fn builder() -> (r: PlanetBuilder)
        ensures
            ident_shape(r@) == planet_ident(),
    {
        PlanetBuilder::new()
    }

    pub fn id(&self) -> (r: &Ident)
        ensures
            r@ == self@,
    {
        &self.id
    }
}

#[derive(Debug)]
pub struct PlanetBuilder {
    id: Ident,
}

impl View for PlanetBuilder {
    type V = IdentView;

    closed spec fn view(&self) -> IdentView {
        self.id@
    }
}

impl PlanetBuilder {
    pub fn id(&self) -> (r: &Ident)
        ensures
            r@ == self@,
    {
        &self.id
    }

    pub fn new() -> (r: PlanetBuilder)
        ensures
            ident_shape(r@) == planet_ident(),
    {
        PlanetBuilder { id: Ident::new(name::planet()) }
    }

    pub fn build(self) -> (r: Planet)
        ensures
            r@ == self@,
    {
        Planet { id: self.id }
    }

    /// A planet generated in full; a planet has no children, so nothing is drawn.
    pub fn total(src: &mut SeedSource) -> (r: PlanetBuilder)
        ensures
            ident_shape(r@) == planet_ident(),
            final(src).state() == old(src).state(),
    {
        PlanetBuilder::new()
    }
}

// ---- systems ----

#[derive(Debug)]
pub struct System {
    id: Ident,
    planets: Vec<Planet>,
}

impl View for System {
    type V = SystemView;

    closed spec fn view(&self) -> SystemView {
        SystemView { id: self.id@, planets: self.planets@.map_values(|p: Planet| p@) }
    }
}

impl System {
    /// A system with the given identity and planets.
    pub fn from_parts(id: Ident, planets: Vec<Planet>) -> (r: System)
        ensures
            r@ == (SystemView { id: id@, planets: planets@.map_values(|p: Planet| p@) }),
    {
        System { id, planets }
    }

    pub fn builder() -> (r: SystemBuilder)
        ensures
            system_shape(r@, name_and_key()) == (SystemView {
                id: system_ident(),
                planets: Seq::empty(),
            }),
    {
        SystemBuilder::new()
    }

    pub fn id(&self) -> (r: &Ident)
        ensures
            r@ == self@.id,
    {
        &self.id
    }

    /// The planets, in order.
    pub fn planets(&self) -> (r: &Vec<Planet>)
        ensures
            r@.map_values(|p: Planet| p@) == self@.planets,
    {
        &self.planets
    }
}

#[derive(Debug)]
pub struct SystemBuilder {
    id: Ident,
    planets: Vec<PlanetBuilder>,
}

impl View for SystemBuilder {
    type V = SystemView;

    closed spec fn view(&self) -> SystemView {
        SystemView { id: self.id@, planets: self.planets@.map_values(|p: PlanetBuilder| p@) }
    }
}

impl SystemBuilder {
    pub fn id(&self) -> (r: &Ident)
        ensures
            r@ == self@.id,
    {
        &self.id
    }

    /// The planets, in order.
    pub fn planets(&self) -> (r: &Vec<PlanetBuilder>)
        ensures
            r@.map_values(|p: PlanetBuilder| p@) == self@.planets,
    {
        &self.planets
    }

    /// A system generated in full: a count of planets is drawn from the configured range.
    pub fn total(src: &mut SeedSource, cfg: &GenConfig) -> (r: SystemBuilder)
        ensures
            (system_shape(r@, name_and_key()), final(src).state()) == system_gen(
                *cfg,
                old(src).state(),
            ),
            planets_within(*cfg, r@),
    {
        let mut ret = SystemBuilder::new();
        let n = cfg.planets_per_system.draw(src);
        let mut i: u8 = 0;
        assert(planets_shape(ret@.planets, name_and_key()) =~= Seq::new(0, |_k: int| planet_ident()));
        while i < n
            invariant
                0 <= i <= n,
                ident_shape(ret@.id) == system_ident(),
                planets_shape(ret@.planets, name_and_key()) == Seq::new(i as nat, |_k: int| planet_ident()),
                ret@.planets.len() == i,
                src.state() == next_state(old(src).state()),
                n == range_draw(
                    old(src).state(),
                    cfg.planets_per_system.lo(),
                    cfg.planets_per_system.hi(),
                ),
            decreases n - i,
        {
            let pb = PlanetBuilder::total(src);
            let ghost prev = ret@.planets;
            ret.planets.push(pb);
            assert(ret@.planets =~= prev.push(pb@));
            assert(planets_shape(ret@.planets, name_and_key()) =~= planets_shape(
                prev,
                name_and_key(),
            ).push(ident_shape(pb@)));
            i = i + 1;
            assert(planets_shape(ret@.planets, name_and_key()) =~= Seq::new(i as nat, |_k: int| planet_ident()));
        }
        ret
    }

    pub fn new() -> (r: SystemBuilder)
        ensures
            system_shape(r@, name_and_key()) == (SystemView {
                id: system_ident(),
                planets: Seq::empty(),
            }),
            r@.planets.len() == 0,
    {
        let r = SystemBuilder { id: Ident::new(name::system()), planets: Vec::new() };
        assert(planets_shape(r@.planets, name_and_key()) =~= Seq::empty());
        r
    }

    /// Adds one new planet; the system and its other planets keep their identities.
    pub fn add_planet(&mut self)
        ensures
            final(self)@.id == old(self)@.id,
            final(self)@.planets.len() == old(self)@.planets.len() + 1,
            final(self)@.planets.drop_last() == old(self)@.planets,
            ident_shape(final(self)@.planets.last()) == planet_ident(),
    {
        let pb = Planet::builder();
        self.planets.push(pb);
        assert(self@.planets =~= old(self)@.planets.push(pb@));
        assert(self@.planets.drop_last() =~= old(self)@.planets);
    }

    /// The finished system, with its planets in the same order.
    pub fn build(self) -> (r: System)
        ensures
            r@ == self@,
    {
        let SystemBuilder { id, mut planets } = self;
        let ghost all = planets@;
        let mut ret: Vec<Planet> = Vec::new();
        let ghost n = all.len();
        while planets.len() > 0
            invariant
                ret@.len() + planets@.len() == n,
                planets@ == all.subrange(ret@.len() as int, n as int),
                forall|j: int| 0 <= j < ret@.len() ==> (#[trigger] ret@[j])@ == all[j]@,
                n == all.len(),
            decreases planets@.len(),
        {
            let ghost k = ret@.len();
            let p = planets.remove(0);
            assert(p == all[k as int]);
            ret.push(p.build());
            assert(planets@ =~= all.subrange(ret@.len() as int, n as int));
        }
        assert(ret@.map_values(|p: Planet| p@) =~= all.map_values(|p: PlanetBuilder| p@));
        System { id, planets: ret }
    }
}

// ---- constellations ----

#[derive(Debug)]
pub struct Constellation {
    id: Ident,
    systems: CoordinateMap<System>,
}

impl View for Constellation {
    type V = ConstellationView;

    closed spec fn view(&self) -> ConstellationView {
        ConstellationView { id: self.id@, systems: self.systems@ }
    }
}

impl Constellation {
    /// No two systems share a point.
    pub open spec fn wf(&self) -> bool {
        unique_keys(self@.systems)
    }

    /// A constellation with the given identity and placed systems.
    pub fn from_parts(id: Ident, systems: CoordinateMap<System>) -> (r: Constellation)
        requires
            systems.wf(),
        ensures
            r@ == (ConstellationView { id: id@, systems: systems@ }),
            r.wf(),
    {
        Constellation { id, systems }
    }

    pub fn builder() -> (r: ConstellationBuilder)
        ensures
            constellation_builder_shape(r@, name_and_key()) == (ConstellationBuilderView {
                id: constellation_ident(),
                systems: Seq::empty(),
            }),
    {
        ConstellationBuilder::new()
    }

    pub fn id(&self) -> (r: &Ident)
        ensures
            r@ == self@.id,
    {
        &self.id
    }

    /// The systems, each at its point.
    pub fn systems(&self) -> (r: &CoordinateMap<System>)
        ensures
            r@ == self@.systems,
    {
        &self.systems
    }
}

#[derive(Debug)]
pub struct ConstellationBuilder {
    id: Ident,
    systems: Vec<SystemBuilder>,
}

impl View for ConstellationBuilder {
    type V = ConstellationBuilderView;

    closed spec fn view(&self) -> ConstellationBuilderView {
        ConstellationBuilderView {
            id: self.id@,
            systems: self.systems@.map_values(|b: SystemBuilder| b@),
        }
    }
}

impl ConstellationBuilder {
    pub fn id(&self) -> (r: &Ident)
        ensures
            r@ == self@.id,
    {
        &self.id
    }

    /// A constellation generated in full: a count of systems is drawn from the configured
    /// range, and each system is generated in full in turn.
    pub fn total(src: &mut SeedSource, cfg: &GenConfig) -> (r: ConstellationBuilder)
        ensures
            (constellation_builder_shape(r@, name_and_key()), final(src).state()) == constellation_gen(
                *cfg,
                old(src).state(),
            ),
            constellation_builder_within(*cfg, r@),
    {
        let mut ret = ConstellationBuilder::new();
        let n = cfg.systems_per_constellation.draw(src);
        let ghost s1 = src.state();
        let mut i: u8 = 0;
        assert(systems_shape(ret@.systems, name_and_key()) =~= systems_gen(*cfg, s1, 0).0);
        while i < n
            invariant
                0 <= i <= n,
                n == range_draw(
                    old(src).state(),
                    cfg.systems_per_constellation.lo(),
                    cfg.systems_per_constellation.hi(),
                ),
                s1 == next_state(old(src).state()),
                ident_shape(ret@.id) == constellation_ident(),
                (systems_shape(ret@.systems, name_and_key()), src.state()) == systems_gen(*cfg, s1, i as nat),
                cfg.systems_per_constellation.lo() <= n <= cfg.systems_per_constellation.hi(),
                ret@.systems.len() == i,
                forall|j: int| 0 <= j < i ==> planets_within(*cfg, #[trigger] ret@.systems[j]),
            decreases n - i,
        {
            let b = SystemBuilder::total(src, cfg);
            let ghost prev = ret@.systems;
            ret.systems.push(b);
            assert(ret@.systems =~= prev.push(b@));
            assert(systems_shape(ret@.systems, name_and_key()) =~= systems_shape(
                prev,
                name_and_key(),
            ).push(system_shape(b@, name_and_key())));
            i = i + 1;
        }
        ret
    }

    pub fn new() -> (r: ConstellationBuilder)
        ensures
            constellation_builder_shape(r@, name_and_key()) == (ConstellationBuilderView {
                id: constellation_ident(),
                systems: Seq::empty(),
            }),
            r@.systems.len() == 0,
    {
        let r = ConstellationBuilder { id: Ident::new(name::constellation()), systems: Vec::new() };
        assert(systems_shape(r@.systems, name_and_key()) =~= Seq::empty());
        r
    }

    /// Adds one new, empty system; the constellation and its other systems keep their
    /// identities.
    pub fn add_system(self) -> (r: ConstellationBuilder)
        ensures
            r@.id == self@.id,
            r@.systems.len() == self@.systems.len() + 1,
            r@.systems.drop_last() == self@.systems,
            system_shape(r@.systems.last(), name_and_key()) == (SystemView {
                id: system_ident(),
                planets: Seq::empty(),
            }),
    {
        let ghost prev = self@.systems;
        let mut ret = self;
        let b = System::builder();
        ret.systems.push(b);
        assert(ret@.systems =~= prev.push(b@));
        assert(ret@.systems.drop_last() =~= prev);
        ret
    }

    /// The finished constellation: for each system in order a point is drawn and the
    /// built system is put there; a later system at the same point replaces an earlier one.
    pub fn build(self, src: &mut SeedSource) -> (r: Constellation)
        ensures
            (r@, final(src).state()) == constellation_build(self@, old(src).state()),
            r.wf(),
    {
        let ghost allv = self@.systems;
        let ConstellationBuilder { id, mut systems } = self;
        let ghost all = systems@;
        let ghost n = all.len();
        let mut map: CoordinateMap<System> = CoordinateMap::new();
        let ghost mut k: int = 0;
        assert(allv.subrange(0, 0) =~= Seq::<SystemView>::empty());
        while systems.len() > 0
            invariant
                n == all.len(),
                allv == all.map_values(|b: SystemBuilder| b@),
                0 <= k <= n,
                k + systems@.len() == n,
                systems@ == all.subrange(k, n as int),
                (map@, src.state()) == place_systems(allv.subrange(0, k), old(src).state()),
                map.wf(),
            decreases systems@.len(),
        {
            let b = systems.remove(0);
            assert(b == all[k]);
            let p = src.point();
            map.insert(p, b.build());
            proof {
                assert(allv.subrange(0, k + 1).drop_last() =~= allv.subrange(0, k));
                k = k + 1;
            }
            assert(systems@ =~= all.subrange(k, n as int));
        }
        assert(allv.subrange(0, n as int) =~= allv);
        Constellation { id, systems: map }
    }
}

// ---- galaxies ----

#[derive(Debug)]
pub struct Galaxy {
    id: Ident,
    constellations: CoordinateMap<Constellation>,
    connections: Vec<(Point, Point)>,
    connection_radius: u16,
}

impl View for Galaxy {
    type V = GalaxyView;

    closed spec fn view(&self) -> GalaxyView {
        GalaxyView {
            id: self.id@,
            constellations: self.constellations@,
            connections: self.connections@,
        }
    }
}

impl Galaxy {
    /// The radius within which constellations were connected.
    pub closed spec fn radius(&self) -> u16 {
        self.connection_radius
    }

    /// No two constellations share a point, and the connections are exactly those that
    /// the radius gives over the constellations' points.
    pub open spec fn wf(&self) -> bool {
        &&& unique_keys(self@.constellations)
        &&& self@.connections == connections_of(keys_of(self@.constellations), self.radius() as nat)
    }

    /// A galaxy with the given identity and placed constellations; its connections are
    /// derived afresh within `connection_radius`.
    pub fn from_parts(
        id: Ident,
        constellations: CoordinateMap<Constellation>,
        connection_radius: u16,
    ) -> (r: Galaxy)
        requires
            constellations.wf(),
        ensures
            r@.id == id@,
            r@.constellations == constellations@,
            r.radius() == connection_radius,
            r.wf(),
    {
        let keys = constellations.keys();
        let connections = connect(&keys, connection_radius);
        Galaxy { id, constellations, connections, connection_radius }
    }

    pub fn builder() -> (r: GalaxyBuilder)
        ensures
            galaxy_builder_shape(r@, name_and_key()) == (GalaxyBuilderView {
                id: galaxy_ident(),
                constellations: Seq::empty(),
            }),
    {
        GalaxyBuilder::new()
    }

    pub fn id(&self) -> (r: &Ident)
        ensures
            r@ == self@.id,
    {
        &self.id
    }

    /// The constellations, each at its point.
    pub fn constellations(&self) -> (r: &CoordinateMap<Constellation>)
        ensures
            r@ == self@.constellations,
    {
        &self.constellations
    }

    /// The edges between constellation points.
    pub fn connections(&self) -> (r: &Vec<(Point, Point)>)
        ensures
            r@ == self@.connections,
    {
        &self.connections
    }

    pub fn connection_radius(&self) -> (r: u16)
        ensures
            r == self.radius(),
    {
        self.connection_radius
    }
}

#[derive(Debug)]
pub struct GalaxyBuilder {
    id: Ident,
    constellations: Vec<ConstellationBuilder>,
}

impl View for GalaxyBuilder {
    type V = GalaxyBuilderView;

    closed spec fn view(&self) -> GalaxyBuilderView {
        GalaxyBuilderView {
            id: self.id@,
            constellations: self.constellations@.map_values(|b: ConstellationBuilder| b@),
        }
    }
}

impl GalaxyBuilder {
    pub fn id(&self) -> (r: &Ident)
        ensures
            r@ == self@.id,
    {
        &self.id
    }

    /// A galaxy generated in full: a count of constellations is drawn from the configured
    /// range, and each constellation is generated in full in turn.
    pub fn total(src: &mut SeedSource, cfg: &GenConfig) -> (r: GalaxyBuilder)
        ensures
            (galaxy_builder_shape(r@, name_and_key()), final(src).state()) == galaxy_gen(
                *cfg,
                old(src).state(),
            ),
            galaxy_builder_within(*cfg, r@),
    {
        let mut ret = GalaxyBuilder::new();
        let n = cfg.constellations_per_galaxy.draw(src);
        let ghost s1 = src.state();
        let mut i: u8 = 0;
        assert(constellation_builders_shape(ret@.constellations, name_and_key()) =~= constellations_gen(
            *cfg,
            s1,
            0,
        ).0);
        while i < n
            invariant
                0 <= i <= n,
                n == range_draw(
                    old(src).state(),
                    cfg.constellations_per_galaxy.lo(),
                    cfg.constellations_per_galaxy.hi(),
                ),
                s1 == next_state(old(src).state()),
                ident_shape(ret@.id) == galaxy_ident(),
                (constellation_builders_shape(ret@.constellations, name_and_key()), src.state())
                    == constellations_gen(*cfg, s1, i as nat),
                cfg.constellations_per_galaxy.lo() <= n <= cfg.constellations_per_galaxy.hi(),
                ret@.constellations.len() == i,
                forall|j: int|
                    0 <= j < i ==> constellation_builder_within(*cfg, #[trigger] ret@.constellations[j]),
            decreases n - i,
        {
            let b = ConstellationBuilder::total(src, cfg);
            let ghost prev = ret@.constellations;
            ret.constellations.push(b);
            assert(ret@.constellations =~= prev.push(b@));
            assert(constellation_builders_shape(ret@.constellations, name_and_key()) =~= constellation_builders_shape(
                prev, name_and_key()).push(constellation_builder_shape(b@, name_and_key())));
            i = i + 1;
        }
        ret
    }

    pub fn new() -> (r: GalaxyBuilder)
        ensures
            galaxy_builder_shape(r@, name_and_key()) == (GalaxyBuilderView {
                id: galaxy_ident(),
                constellations: Seq::empty(),
            }),
            r@.constellations.len() == 0,
    {
        let r = GalaxyBuilder { id: Ident::new(name::galaxy()), constellations: Vec::new() };
        assert(constellation_builders_shape(r@.constellations, name_and_key()) =~= Seq::empty());
        r
    }

    /// Adds one new, empty constellation; the galaxy and its other constellations keep
    /// their identities.
    pub fn add_constellation(&mut self)
        ensures
            final(self)@.id == old(self)@.id,
            final(self)@.constellations.len() == old(self)@.constellations.len() + 1,
            final(self)@.constellations.drop_last() == old(self)@.constellations,
            constellation_builder_shape(final(self)@.constellations.last(), name_and_key()) == (
            ConstellationBuilderView { id: constellation_ident(), systems: Seq::empty() }),
    {
        let ghost prev = self@.constellations;
        let b = Constellation::builder();
        self.constellations.push(b);
        assert(self@.constellations =~= prev.push(b@));
        assert(self@.constellations.drop_last() =~= prev);
    }

    /// The finished galaxy: for each constellation in order a point is drawn and then the
    /// constellation is built and put there (a later one at the same point replaces an
    /// earlier one); then the constellations are connected within the configured radius.
    pub fn build(self, src: &mut SeedSource, cfg: &GenConfig) -> (r: Galaxy)
        ensures
            (r@, final(src).state()) == galaxy_build(
                self@,
                old(src).state(),
                cfg.connection_radius as nat,
            ),
            r.radius() == cfg.connection_radius,
            r.wf(),
            galaxy_builder_within(*cfg, self@) ==> galaxy_within(*cfg, r@),
    {
        let ghost allv = self@.constellations;
        let GalaxyBuilder { id, mut constellations } = self;
        let ghost all = constellations@;
        let ghost n = all.len();
        let mut map: CoordinateMap<Constellation> = CoordinateMap::new();
        let ghost mut k: int = 0;
        assert(allv.subrange(0, 0) =~= Seq::<ConstellationBuilderView>::empty());
        while constellations.len() > 0
            invariant
                n == all.len(),
                allv == all.map_values(|b: ConstellationBuilder| b@),
                0 <= k <= n,
                k + constellations@.len() == n,
                constellations@ == all.subrange(k, n as int),
                (map@, src.state()) == place_constellations(allv.subrange(0, k), old(src).state()),
                map.wf(),
            decreases constellations@.len(),
        {
            let b = constellations.remove(0);
            assert(b == all[k]);
            let p = src.point();
            let c = b.build(src);
            map.insert(p, c);
            proof {
                assert(allv.subrange(0, k + 1).drop_last() =~= allv.subrange(0, k));
                k = k + 1;
            }
            assert(constellations@ =~= all.subrange(k, n as int));
        }
        assert(allv.subrange(0, n as int) =~= allv);
        proof {
            if galaxy_builder_within(*cfg, self@) {
                lemma_place_constellations_within(*cfg, allv, old(src).state());
            }
        }
        let keys = map.keys();
        let connections = connect(&keys, cfg.connection_radius);
        Galaxy { id, constellations: map, connections, connection_radius: cfg.connection_radius }
    }
}

// ---- laws ----

/// The galaxy that a run gives from state `seed`: generated in full, then built, with
/// the same source driving both phases.
pub open spec fn generated_galaxy(cfg: GenConfig, seed: u64) -> GalaxyView {
    let (b, s1) = galaxy_gen(cfg, seed);
    galaxy_build(b, s1, cfg.connection_radius as nat).0
}

/// Two runs from the same seed and parameters give galaxies of the same shape: the same
/// counts, points, connections and identity names and keys (the random unique ids aside).
pub proof fn lemma_generation_deterministic(cfg: GenConfig, seed: u64, a: GalaxyView, b: GalaxyView)
    requires
        galaxy_shape(a, name_and_key()) == generated_galaxy(cfg, seed),
        galaxy_shape(b, name_and_key()) == generated_galaxy(cfg, seed),
    ensures
        galaxy_shape(a, name_and_key()) == galaxy_shape(b, name_and_key()),
{
}

proof fn lemma_place_systems_shape(systems: Seq<SystemView>, s: u64,
    e: spec_fn(IdentView) -> IdentView,
)
    ensures
        placed_systems_shape(place_systems(systems, s).0, e) == place_systems(
            systems_shape(systems, e),
            s,
        ).0,
        place_systems(systems, s).1 == place_systems(systems_shape(systems, e), s).1,
    decreases systems.len(),
{
    if systems.len() > 0 {
        lemma_place_systems_shape(systems.drop_last(), s, e);
        assert(systems_shape(systems, e).drop_last() =~= systems_shape(systems.drop_last(), e));
        let (prev, s1) = place_systems(systems.drop_last(), s);
        lemma_inserted_map(prev, point_draw(s1), systems.last(), |x: SystemView| system_shape(x, e));
    }
}

/// Building a constellation does not look at identities: under any identity erasure
/// `e`, the shape of the built constellation is the built constellation of the
/// builder's shape, from the same state.
pub proof fn lemma_constellation_build_shape(c: ConstellationBuilderView, s: u64,
    e: spec_fn(IdentView) -> IdentView,
)
    ensures
        constellation_shape(constellation_build(c, s).0, e) == constellation_build(
            constellation_builder_shape(c, e),
            s,
        ).0,
        constellation_build(c, s).1 == constellation_build(constellation_builder_shape(c, e), s).1,
{
    lemma_place_systems_shape(c.systems, s, e);
}

proof fn lemma_place_constellations_shape(cs: Seq<ConstellationBuilderView>, s: u64,
    e: spec_fn(IdentView) -> IdentView,
)
    ensures
        placed_constellations_shape(place_constellations(cs, s).0, e) == place_constellations(
            constellation_builders_shape(cs, e),
            s,
        ).0,
        place_constellations(cs, s).1 == place_constellations(
            constellation_builders_shape(cs, e),
            s,
        ).1,
    decreases cs.len(),
{
    if cs.len() > 0 {
        lemma_place_constellations_shape(cs.drop_last(), s, e);
        assert(constellation_builders_shape(cs, e).drop_last() =~= constellation_builders_shape(
            cs.drop_last(), e));
        let (prev, s1) = place_constellations(cs.drop_last(), s);
        lemma_constellation_build_shape(cs.last(), next_state(next_state(s1)), e);
        let (c, s2) = constellation_build(cs.last(), next_state(next_state(s1)));
        lemma_inserted_map(prev, point_draw(s1), c, |x: ConstellationView| constellation_shape(x, e));
    }
}

/// Building a galaxy does not look at identities: under any identity erasure `e`, the
/// shape of the built galaxy is the built galaxy of the builder's shape, from the same
/// state.
pub proof fn lemma_galaxy_build_shape(g: GalaxyBuilderView, s: u64, radius: nat,
    e: spec_fn(IdentView) -> IdentView,
)
    ensures
        galaxy_shape(galaxy_build(g, s, radius).0, e) == galaxy_build(
            galaxy_builder_shape(g, e),
            s,
            radius,
        ).0,
        galaxy_build(g, s, radius).1 == galaxy_build(galaxy_builder_shape(g, e), s, radius).1,
{
    lemma_place_constellations_shape(g.constellations, s, e);
    let cs = place_constellations(g.constellations, s).0;
    assert(keys_of(placed_constellations_shape(cs, e)) =~= keys_of(cs));
}

/// Two galaxy builders of the same shape under an identity erasure `e`, built from the
/// same state and radius, give galaxies of the same shape and leave the same state.
/// With `key_only()` the builders need agree only in counts and keys at every level, and
/// the galaxies then agree in points, counts, keys and connections.
pub proof fn lemma_build_deterministic(
    a: GalaxyBuilderView,
    b: GalaxyBuilderView,
    s: u64,
    radius: nat, e: spec_fn(IdentView) -> IdentView)
    requires
        galaxy_builder_shape(a, e) == galaxy_builder_shape(b, e),
    ensures
        galaxy_shape(galaxy_build(a, s, radius).0, e) == galaxy_shape(galaxy_build(b, s, radius).0, e),
        galaxy_build(a, s, radius).1 == galaxy_build(b, s, radius).1,
{
    lemma_galaxy_build_shape(a, s, radius, e);
    lemma_galaxy_build_shape(b, s, radius, e);
}

/// Two constellation builders of the same shape under an identity erasure `e`, built
/// from the same state, give constellations of the same shape and leave the same state.
pub proof fn lemma_constellation_build_deterministic(
    a: ConstellationBuilderView,
    b: ConstellationBuilderView,
    s: u64, e: spec_fn(IdentView) -> IdentView)
    requires
        constellation_builder_shape(a, e) == constellation_builder_shape(b, e),
    ensures
        constellation_shape(constellation_build(a, s).0, e) == constellation_shape(
            constellation_build(b, s).0, e),
        constellation_build(a, s).1 == constellation_build(b, s).1,
{
    lemma_constellation_build_shape(a, s, e);
    lemma_constellation_build_shape(b, s, e);
}

proof fn lemma_distinct_keys(g: &Galaxy)
    requires
        g.wf(),
    ensures
        distinct_points(keys_of(g@.constellations)),
        forall|p: Point| #[trigger] has_key(g@.constellations, p) <==> keys_of(g@.constellations).contains(p),
{
    let cs = g@.constellations;
    let keys = keys_of(cs);
    assert forall|i: int, j: int| 0 <= i < j < keys.len() implies keys[i] != keys[j] by {
        assert(keys[i] == cs[i].0 && keys[j] == cs[j].0);
    }
    assert forall|p: Point| #[trigger] has_key(cs, p) <==> keys.contains(p) by {
        if has_key(cs, p) {
            let i = choose|i: int| 0 <= i < cs.len() && cs[i].0 == p;
            assert(keys[i] == p);
        }
        if keys.contains(p) {
            let i = choose|i: int| 0 <= i < keys.len() && keys[i] == p;
            assert(cs[i].0 == p);
        }
    }
}

/// In a galaxy, no connection joins a point to itself, and no two points are joined
/// twice, in either order.
pub proof fn lemma_galaxy_connections_simple(g: &Galaxy)
    requires
        g.wf(),
    ensures
        forall|k: int|
            0 <= k < g@.connections.len() ==> (#[trigger] g@.connections[k]).0 != g@.connections[k].1,
        no_repeated_edge(g@.connections),
{
    lemma_distinct_keys(g);
    lemma_connections_simple(keys_of(g@.constellations), g.radius() as nat);
    let e = g@.connections;
    assert forall|k: int| 0 <= k < e.len() implies (#[trigger] e[k]).0 != e[k].1 by {
        assert(e[k] == connections_of(keys_of(g@.constellations), g.radius() as nat)[k]);
    }
}

/// In a galaxy, two different constellation points are joined exactly when their
/// distance is at most the connection radius, and every connection joins two
/// constellation points.
pub proof fn lemma_galaxy_connections_exact(g: &Galaxy)
    requires
        g.wf(),
    ensures
        forall|a: Point, b: Point|
            has_key(g@.constellations, a) && has_key(g@.constellations, b) && a != b ==> (
            #[trigger] joined(g@.connections, a, b) <==> within_radius_spec(a, b, g.radius() as nat)),
        forall|k: int|
            0 <= k < g@.connections.len() ==> has_key(
                g@.constellations,
                (#[trigger] g@.connections[k]).0,
            ) && has_key(g@.constellations, g@.connections[k].1),
{
    lemma_distinct_keys(g);
    let keys = keys_of(g@.constellations);
    lemma_connections_exact(keys, g.radius() as nat);
    let e = g@.connections;
    assert forall|k: int| 0 <= k < e.len() implies has_key(g@.constellations, (#[trigger] e[k]).0)
        && has_key(g@.constellations, e[k].1) by {
        assert(e[k] == connections_of(keys, g.radius() as nat)[k]);
    }
    assert forall|a: Point, b: Point|
        has_key(g@.constellations, a) && has_key(g@.constellations, b) && a != b implies (
        #[trigger] joined(e, a, b) <==> within_radius_spec(a, b, g.radius() as nat)) by {
        assert(keys.contains(a) && keys.contains(b));
        assert(joined(connections_of(keys, g.radius() as nat), a, b) <==> within_radius_spec(
            a,
            b,
            g.radius() as nat,
        ));
    }
}

} // verus!
