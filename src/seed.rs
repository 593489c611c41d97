use crate::point::Point;
use nanorand::{Rng, WyRand};
use vstd::prelude::*;

verus! {

/// What `WyRand::new_seed(seed).generate_range(lo..=hi)` gives. It is built from the
/// first byte of the generator's output in native byte order, so its values are fixed
/// for one target and may differ between little- and big-endian ones.
pub uninterp spec fn range_draw(seed: u64, lo: u8, hi: u8) -> u8;

/// What `WyRand::new_seed(seed).generate::<i8>()` gives: the first byte of the
/// generator's output in native byte order, so fixed for one target.
pub uninterp spec fn axis_draw(seed: u64) -> i8;

/// What `WyRand::new_seed(seed).generate::<u64>()` gives.
pub uninterp spec fn word_draw(seed: u64) -> u64;

/// Relies on nanorand's `WyRand::new_seed` and `Rng::generate_range`: a generator made
/// from a seed always gives the same number, and an inclusive range `lo..=hi` with
/// `lo <= hi` yields a number inside it (the source panics only on an inverted range).
#[verifier::external_body]
fn wyrand_range(seed: u64, lo: u8, hi: u8) -> (r: u8)
    requires
        lo <= hi,
    ensures
        r == range_draw(seed, lo, hi),
        lo <= r <= hi,
{
    WyRand::new_seed(seed).generate_range(lo..=hi)
}

/// Relies on nanorand's `WyRand::new_seed` and `Rng::generate::<i8>`: the same seed gives
/// the same byte.
#[verifier::external_body]
fn wyrand_axis(seed: u64) -> (r: i8)
    ensures
        r == axis_draw(seed),
{
    WyRand::new_seed(seed).generate::<i8>()
}

/// Relies on nanorand's `WyRand::new_seed` and `Rng::generate::<u64>`: the same seed gives
/// the same word.
#[verifier::external_body]
fn wyrand_word(seed: u64) -> (r: u64)
    ensures
        r == word_draw(seed),
{
    WyRand::new_seed(seed).generate::<u64>()
}

/// The state that follows `s`: one step of a wrapping counter.
pub open spec fn next_state(s: u64) -> u64 {
    if s == u64::MAX {
        0
    } else {
        (s + 1) as u64
    }
}

/// The point drawn from state `s`: its two axes come from `s` and the state after it.
pub open spec fn point_draw(s: u64) -> Point {
    Point { x: axis_draw(s), y: axis_draw(next_state(s)) }
}

/// The deterministic random source that drives generation. Each draw seeds a WyRand
/// generator with the current state and then steps the state by one, so that a run is
/// fixed by its starting seed and the order of its draws.
pub struct SeedSource {
    state: u64,
}

impl SeedSource {
    pub closed spec fn state(&self) -> u64 {
        self.state
    }

    pub fn new(seed: u64) -> (r: SeedSource)
        ensures
            r.state() == seed,
    {
        SeedSource { state: seed }
    }

    fn step(&mut self)
        ensures
            final(self).state() == next_state(old(self).state()),
    {
        if self.state == u64::MAX {
            self.state = 0;
        } else {
            self.state = self.state + 1;
        }
    }

    /// A count in `lo..=hi`.
    pub fn count(&mut self, lo: u8, hi: u8) -> (r: u8)
        requires
            lo <= hi,
        ensures
            r == range_draw(old(self).state(), lo, hi),
            lo <= r <= hi,
            final(self).state() == next_state(old(self).state()),
    {
        let r = wyrand_range(self.state, lo, hi);
        self.step();
        r
    }

    /// A value on one axis of the grid.
    pub fn axis(&mut self) -> (r: i8)
        ensures
            r == axis_draw(old(self).state()),
            final(self).state() == next_state(old(self).state()),
    {
        let r = wyrand_axis(self.state);
        self.step();
        r
    }

    /// A point of the grid: its x axis is drawn first, then its y axis.
    pub fn point(&mut self) -> (r: Point)
        ensures
            r == point_draw(old(self).state()),
            final(self).state() == next_state(next_state(old(self).state())),
    {
        let x = self.axis();
        let y = self.axis();
        Point { x, y }
    }

    /// A full 64-bit word.
    pub fn word(&mut self) -> (r: u64)
        ensures
            r == word_draw(old(self).state()),
            final(self).state() == next_state(old(self).state()),
    {
        let r = wyrand_word(self.state);
        self.step();
        r
    }
}

/// Why a generation parameter was refused.
#[derive(Debug, Clone, Copy, PartialEq, Eq, Structural)]
pub enum ConfigError {
    /// A count range whose lower bound exceeds its upper bound.
    InvertedRange { lo: u8, hi: u8 },
}

/// An inclusive, non-empty range of child counts.
#[derive(Debug, Clone, Copy)]
pub struct CountRange {
    lo: u8,
    hi: u8,
}

impl CountRange {
    #[verifier::type_invariant]
    spec fn ordered(&self) -> bool {
        self.lo <= self.hi
    }

    pub closed spec fn lo(&self) -> u8 {
        self.lo
    }

    pub closed spec fn hi(&self) -> u8 {
        self.hi
    }

    /// The range `lo..=hi`, refused when it is inverted.
    pub fn new(lo: u8, hi: u8) -> (r: Result<CountRange, ConfigError>)
        ensures
            lo <= hi ==> (r matches Ok(c) && c.lo() == lo && c.hi() == hi),
            lo > hi ==> r == Err::<CountRange, ConfigError>(ConfigError::InvertedRange { lo, hi }),
    {
        if lo <= hi {
            Ok(CountRange { lo, hi })
        } else {
            Err(ConfigError::InvertedRange { lo, hi })
        }
    }

    pub fn lower(&self) -> (r: u8)
        ensures
            r == self.lo(),
    {
        self.lo
    }

    pub fn upper(&self) -> (r: u8)
        ensures
            r == self.hi(),
    {
        self.hi
    }

    /// A count drawn from the range.
    pub fn draw(&self, src: &mut SeedSource) -> (r: u8)
        ensures
            r == range_draw(old(src).state(), self.lo(), self.hi()),
            self.lo() <= r <= self.hi(),
            final(src).state() == next_state(old(src).state()),
    {
        proof {
            use_type_invariant(self);
        }
        src.count(self.lo, self.hi)
    }
}

/// The parameters of generation: how many children each level gets, and how near two
/// constellations must lie to be connected.
#[derive(Debug, Clone, Copy)]
pub struct GenConfig {
    pub constellations_per_galaxy: CountRange,
    pub systems_per_constellation: CountRange,
    pub planets_per_system: CountRange,
    pub connection_radius: u16,
}

/// The usual radius within which two constellations are connected.
pub const CONNECTION_RADIUS: u16 = 128;

impl GenConfig {
    /// The usual parameters: 4 to 7 constellations per galaxy, 4 to 7 systems per
    /// constellation, 4 to 11 planets per system, and a connection radius of 128.
    pub fn standard() -> (r: GenConfig)
        ensures
            r.constellations_per_galaxy.lo() == 4,
            r.constellations_per_galaxy.hi() == 7,
            r.systems_per_constellation.lo() == 4,
            r.systems_per_constellation.hi() == 7,
            r.planets_per_system.lo() == 4,
            r.planets_per_system.hi() == 11,
            r.connection_radius == CONNECTION_RADIUS,
    {
        GenConfig {
            constellations_per_galaxy: CountRange { lo: 4, hi: 7 },
            systems_per_constellation: CountRange { lo: 4, hi: 7 },
            planets_per_system: CountRange { lo: 4, hi: 11 },
            connection_radius: CONNECTION_RADIUS,
        }
    }

    /// Parameters from plain bounds; an inverted range is refused, the first one found
    /// from the galaxy level down.
    pub fn new(
        constellations: (u8, u8),
        systems: (u8, u8),
        planets: (u8, u8),
        connection_radius: u16,
    ) -> (r: Result<GenConfig, ConfigError>)
        ensures
            r is Ok <==> constellations.0 <= constellations.1 && systems.0 <= systems.1
                && planets.0 <= planets.1,
            r matches Ok(c) ==> c.constellations_per_galaxy.lo() == constellations.0
                && c.constellations_per_galaxy.hi() == constellations.1
                && c.systems_per_constellation.lo() == systems.0
                && c.systems_per_constellation.hi() == systems.1
                && c.planets_per_system.lo() == planets.0 && c.planets_per_system.hi()
                == planets.1 && c.connection_radius == connection_radius,
            constellations.0 > constellations.1 ==> r == Err::<GenConfig, ConfigError>(
                ConfigError::InvertedRange { lo: constellations.0, hi: constellations.1 },
            ),
            constellations.0 <= constellations.1 && systems.0 > systems.1 ==> r == Err::<
                GenConfig,
                ConfigError,
            >(ConfigError::InvertedRange { lo: systems.0, hi: systems.1 }),
            constellations.0 <= constellations.1 && systems.0 <= systems.1 && planets.0
                > planets.1 ==> r == Err::<GenConfig, ConfigError>(
                ConfigError::InvertedRange { lo: planets.0, hi: planets.1 },
            ),
    {
        let c = match CountRange::new(constellations.0, constellations.1) {
            Ok(c) => c,
            Err(e) => return Err(e),
        };
        let s = match CountRange::new(systems.0, systems.1) {
            Ok(s) => s,
            Err(e) => return Err(e),
        };
        let p = match CountRange::new(planets.0, planets.1) {
            Ok(p) => p,
            Err(e) => return Err(e),
        };
        Ok(
            GenConfig {
                constellations_per_galaxy: c,
                systems_per_constellation: s,
                planets_per_system: p,
                connection_radius,
            },
        )
    }
}

} // verus!
