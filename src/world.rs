use crate::astronomical::{
    Galaxy, GalaxyBuilder, GalaxyBuilderView, GalaxyView, ConstellationBuilderView,
    constellation_builder_shape, constellation_ident, galaxy_build, galaxy_builder_shape,
    galaxy_builder_within, galaxy_gen, galaxy_shape, galaxy_within, generated_galaxy,
    lemma_galaxy_build_shape, name_and_key,
};
use crate::ident::{Ident, IdentView, ident_named, ident_shape};
use crate::seed::{GenConfig, SeedSource, next_state, word_draw};
use vstd::prelude::*;

verus! {

pub open spec fn digit_char(d: nat) -> char {
    (48 + d) as char
}

/// The decimal numeral of `n`, without leading zeros.
pub open spec fn decimal(n: nat) -> Seq<char>
    decreases n,
{
    if n < 10 {
        seq![digit_char(n)]
    } else {
        decimal(n / 10).push(digit_char(n % 10))
    }
}

/// Relies on `u64::to_string` (std's `Display` for integers): the decimal numeral.
#[verifier::external_body]
fn decimal_text(n: u64) -> (r: String)
    ensures
        r@ == decimal(n as nat),
{
    n.to_string()
}

/// The name that a new world is given when a word `w` is drawn for it.
pub open spec fn world_ident(w: u64) -> IdentView {
    ident_named(decimal(w as nat))
}

pub struct WorldView {
    pub id: IdentView,
    pub galaxy: GalaxyView,
}

pub struct WorldBuilderView {
    pub id: IdentView,
    pub galaxy: GalaxyBuilderView,
}

/// The whole generated universe: a named world that owns one galaxy.
#[derive(Debug)]
pub struct World {
    id: Ident,
    galaxy: Galaxy,
}

impl View for World {
    type V = WorldView;

    closed spec fn view(&self) -> WorldView {
        WorldView { id: self.id@, galaxy: self.galaxy@ }
    }
}

impl World {
    pub closed spec fn galaxy_value(&self) -> Galaxy {
        self.galaxy
    }

    pub open spec fn wf(&self) -> bool {
        self.galaxy_value().wf()
    }

    /// A world with the given identity and galaxy.
    pub fn from_parts(id: Ident, galaxy: Galaxy) -> (r: World)
        ensures
            r@ == (WorldView { id: id@, galaxy: galaxy@ }),
            r.galaxy_value() == galaxy,
    {
        World { id, galaxy }
    }

    /// A builder whose name and galaxy are drawn from `src`.
    pub fn builder(src: &mut SeedSource, cfg: &GenConfig) -> (r: WorldBuilder)
        ensures
            ident_shape(r@.id) == world_ident(word_draw(old(src).state())),
            (galaxy_builder_shape(r@.galaxy, name_and_key()), final(src).state()) == galaxy_gen(
                *cfg,
                next_state(old(src).state()),
            ),
            galaxy_builder_within(*cfg, r@.galaxy),
    {
        WorldBuilder::new(src, cfg)
    }

    pub fn id(&self) -> (r: &Ident)
        ensures
            r@ == self@.id,
    {
        &self.id
    }

    pub fn galaxy(&self) -> (r: &Galaxy)
        ensures
            r@ == self@.galaxy,
            *r == self.galaxy_value(),
    {
        &self.galaxy
    }
}

#[derive(Debug)]
pub struct WorldBuilder {
    id: Ident,
    galaxyb: GalaxyBuilder,
}

impl View for WorldBuilder {
    type V = WorldBuilderView;

    closed spec fn view(&self) -> WorldBuilderView {
        WorldBuilderView { id: self.id@, galaxy: self.galaxyb@ }
    }
}

impl WorldBuilder {
    pub fn id(&self) -> (r: &Ident)
        ensures
            r@ == self@.id,
    {
        &self.id
    }

    /// A word is drawn and written in decimal as the world's name; then a galaxy is
    /// generated in full.
    pub fn new(src: &mut SeedSource, cfg: &GenConfig) -> (r: WorldBuilder)
        ensures
            ident_shape(r@.id) == world_ident(word_draw(old(src).state())),
            (galaxy_builder_shape(r@.galaxy, name_and_key()), final(src).state()) == galaxy_gen(
                *cfg,
                next_state(old(src).state()),
            ),
            galaxy_builder_within(*cfg, r@.galaxy),
    {
        let w = src.word();
        let id = Ident::new(decimal_text(w));
        let galaxyb = GalaxyBuilder::total(src, cfg);
        WorldBuilder { id, galaxyb }
    }

    /// Adds `num` new, empty constellations to the galaxy; everything already there keeps
    /// its identity.
    pub fn constellations(self, num: u8) -> (r: WorldBuilder)
        ensures
            r@.id == self@.id,
            r@.galaxy.id == self@.galaxy.id,
            r@.galaxy.constellations.len() == self@.galaxy.constellations.len() + num,
            r@.galaxy.constellations.subrange(0, self@.galaxy.constellations.len() as int)
                == self@.galaxy.constellations,
            forall|k: int|
                self@.galaxy.constellations.len() <= k < r@.galaxy.constellations.len()
                    ==> constellation_builder_shape(#[trigger] r@.galaxy.constellations[k], name_and_key()) == (
                ConstellationBuilderView { id: constellation_ident(), systems: Seq::empty() }),
    {
        let ghost n0 = self@.galaxy.constellations.len();
        let mut ret = self;
        let mut i: u8 = 0;
        assert(ret@.galaxy.constellations.subrange(0, n0 as int) =~= self@.galaxy.constellations);
        while i < num
            invariant
                0 <= i <= num,
                n0 == self@.galaxy.constellations.len(),
                ret@.id == self@.id,
                ret@.galaxy.id == self@.galaxy.id,
                ret@.galaxy.constellations.len() == n0 + i,
                ret@.galaxy.constellations.subrange(0, n0 as int) == self@.galaxy.constellations,
                forall|k: int|
                    n0 <= k < ret@.galaxy.constellations.len() ==> constellation_builder_shape(
                        #[trigger] ret@.galaxy.constellations[k], name_and_key()) == (ConstellationBuilderView {
                        id: constellation_ident(),
                        systems: Seq::empty(),
                    }),
            decreases num - i,
        {
            let ghost prev = ret@.galaxy.constellations;
            ret.galaxyb.add_constellation();
            assert(ret@.galaxy.constellations == prev.push(ret@.galaxy.constellations.last()));
            assert(ret@.galaxy.constellations.subrange(0, n0 as int) =~= prev.subrange(
                0,
                n0 as int,
            ));
            i = i + 1;
        }
        ret
    }

    /// Renames the world.
    pub fn name(self, name: String) -> (r: WorldBuilder)
        ensures
            ident_shape(r@.id) == ident_named(name@),
            r@.galaxy == self@.galaxy,
    {
        let mut ret = self;
        ret.id = Ident::new(name);
        ret
    }

    /// The finished world: its galaxy built from `src`.
    pub fn build(self, src: &mut SeedSource, cfg: &GenConfig) -> (r: World)
        ensures
            r@.id == self@.id,
            (r@.galaxy, final(src).state()) == galaxy_build(
                self@.galaxy,
                old(src).state(),
                cfg.connection_radius as nat,
            ),
            r.wf(),
            r.galaxy_value().radius() == cfg.connection_radius,
            galaxy_builder_within(*cfg, self@.galaxy) ==> galaxy_within(*cfg, r@.galaxy),
    {
        let WorldBuilder { id, galaxyb } = self;
        let galaxy = galaxyb.build(src, cfg);
        World { id, galaxy }
    }
}

/// Generates a whole world from the source: its galaxy in full, built and connected,
/// named `name` when one is given and otherwise by a drawn number.
pub fn generate(src: &mut SeedSource, cfg: &GenConfig, name: Option<String>) -> (r: World)
    ensures
        galaxy_shape(r@.galaxy, name_and_key()) == generated_galaxy(*cfg, next_state(old(src).state())),
        ident_shape(r@.id) == (match name {
            Some(n) => ident_named(n@),
            None => world_ident(word_draw(old(src).state())),
        }),
        r.wf(),
        galaxy_within(*cfg, r@.galaxy),
{
    let b = WorldBuilder::new(src, cfg);
    let b = match name {
        Some(n) => b.name(n),
        None => b,
    };
    let ghost s1 = src.state();
    let r = b.build(src, cfg);
    proof {
        lemma_galaxy_build_shape(b@.galaxy, s1, cfg.connection_radius as nat, name_and_key());
    }
    r
}

} // verus!
