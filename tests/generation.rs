use neutron_star::astronomical::{
    Constellation, ConstellationBuilder, Galaxy, GalaxyBuilder, PlanetBuilder, System,
    SystemBuilder,
};
use neutron_star::coordinate_map::CoordinateMap;
use neutron_star::ident::Ident;
use neutron_star::display::layout;
use neutron_star::point::{within_radius, Point};
use neutron_star::seed::{ConfigError, CountRange, GenConfig, SeedSource, CONNECTION_RADIUS};
use neutron_star::world::{generate, World, WorldBuilder};
use uuid::Uuid;

/// Counts, points, and keys of a galaxy, level by level.
type Shape = Vec<(Point, String, Vec<(Point, String, Vec<String>)>)>;

fn shape(g: &Galaxy) -> Shape {
    let cons = g.constellations();
    let mut out = Vec::new();
    for i in 0..cons.len() {
        let (p, c) = cons.entry(i);
        let sys = c.systems();
        let mut systems = Vec::new();
        for j in 0..sys.len() {
            let (q, s) = sys.entry(j);
            let planets = s.planets().iter().map(|pl| pl.id().key().clone()).collect();
            systems.push((q, s.id().key().clone(), planets));
        }
        out.push((p, c.id().key().clone(), systems));
    }
    out
}

fn run(seed: u64) -> World {
    let cfg = GenConfig::standard();
    let mut src = SeedSource::new(seed);
    generate(&mut src, &cfg, None)
}

#[test]
fn same_seed_gives_same_galaxy() {
    for seed in [0u64, 1, 42, 0xdead_beef, u64::MAX] {
        let a = run(seed);
        let b = run(seed);
        assert_eq!(shape(a.galaxy()), shape(b.galaxy()));
        assert_eq!(a.galaxy().connections(), b.galaxy().connections());
        assert_eq!(a.id().name(), b.id().name());
        assert_eq!(a.id().key(), b.id().key());
    }
}

#[test]
fn seeded_draws_repeat() {
    let mut a = SeedSource::new(7);
    let mut b = SeedSource::new(7);
    for _ in 0..20 {
        assert_eq!(a.count(4, 11), b.count(4, 11));
        assert_eq!(a.point(), b.point());
        assert_eq!(a.word(), b.word());
    }
}

#[test]
fn counts_lie_in_range() {
    let mut src = SeedSource::new(99);
    for _ in 0..200 {
        let n = src.count(4, 11);
        assert!((4..=11).contains(&n));
    }
    for _ in 0..50 {
        assert_eq!(src.count(6, 6), 6);
    }
    for _ in 0..50 {
        let n = src.count(250, 255);
        assert!(n >= 250);
    }
}

#[test]
fn draws_are_not_all_equal() {
    let mut src = SeedSource::new(3);
    let first = src.word();
    let mut differs = false;
    for _ in 0..10 {
        if src.word() != first {
            differs = true;
        }
    }
    assert!(differs);
}

#[test]
fn generated_counts_stay_within_configured_ranges() {
    let cfg = GenConfig::standard();
    for seed in 0u64..30 {
        let mut src = SeedSource::new(seed);
        let b = GalaxyBuilder::total(&mut src, &cfg);
        let g = b.build(&mut src, &cfg);
        let cons = g.constellations();
        assert!(cons.len() >= 1 && cons.len() <= 7);
        for i in 0..cons.len() {
            let (_, c) = cons.entry(i);
            assert!(c.systems().len() >= 1 && c.systems().len() <= 7);
            for j in 0..c.systems().len() {
                let (_, s) = c.systems().entry(j);
                assert!(s.planets().len() >= 4 && s.planets().len() <= 11);
            }
        }
    }
}

#[test]
fn generated_connections_match_the_radius() {
    let cfg = GenConfig::standard();
    for seed in 0u64..30 {
        let w = run(seed);
        let g = w.galaxy();
        let keys = g.constellations().keys();
        let edges = g.connections();
        for e in edges.iter() {
            assert_ne!(e.0, e.1);
            assert!(keys.contains(&e.0) && keys.contains(&e.1));
        }
        for (i, e) in edges.iter().enumerate() {
            for f in edges.iter().skip(i + 1) {
                assert_ne!(e, f);
                assert_ne!((e.1, e.0), *f);
            }
        }
        for a in keys.iter() {
            for b in keys.iter() {
                if a != b {
                    let j = edges.contains(&(*a, *b)) || edges.contains(&(*b, *a));
                    assert_eq!(j, within_radius(*a, *b, cfg.connection_radius));
                }
            }
        }
    }
}

#[test]
fn standard_parameters() {
    let cfg = GenConfig::standard();
    assert_eq!(cfg.constellations_per_galaxy.lower(), 4);
    assert_eq!(cfg.constellations_per_galaxy.upper(), 7);
    assert_eq!(cfg.systems_per_constellation.lower(), 4);
    assert_eq!(cfg.systems_per_constellation.upper(), 7);
    assert_eq!(cfg.planets_per_system.lower(), 4);
    assert_eq!(cfg.planets_per_system.upper(), 11);
    assert_eq!(cfg.connection_radius, CONNECTION_RADIUS);
    assert_eq!(CONNECTION_RADIUS, 128);
}

#[test]
fn inverted_range_is_refused() {
    assert!(matches!(
        CountRange::new(5, 3),
        Err(ConfigError::InvertedRange { lo: 5, hi: 3 })
    ));
    assert!(CountRange::new(3, 3).is_ok());
    assert!(matches!(
        GenConfig::new((4, 7), (9, 2), (4, 11), 64),
        Err(ConfigError::InvertedRange { lo: 9, hi: 2 })
    ));
    assert!(matches!(
        GenConfig::new((8, 1), (9, 2), (4, 11), 64),
        Err(ConfigError::InvertedRange { lo: 8, hi: 1 })
    ));
    assert!(matches!(
        GenConfig::new((1, 1), (1, 1), (12, 11), 64),
        Err(ConfigError::InvertedRange { lo: 12, hi: 11 })
    ));
}

#[test]
fn custom_parameters_are_used() {
    let cfg = GenConfig::new((2, 2), (1, 1), (3, 3), 0).unwrap();
    let mut src = SeedSource::new(11);
    let w = generate(&mut src, &cfg, Some("Custom".to_string()));
    let g = w.galaxy();
    assert!(g.constellations().len() >= 1 && g.constellations().len() <= 2);
    assert!(g.connections().is_empty());
    assert_eq!(g.connection_radius(), 0);
    for i in 0..g.constellations().len() {
        let (_, c) = g.constellations().entry(i);
        assert_eq!(c.systems().len(), 1);
        assert_eq!(c.systems().entry(0).1.planets().len(), 3);
    }
    assert_eq!(w.id().name(), "Custom");
    assert_eq!(w.id().key(), "custom");
}

#[test]
fn world_is_named_by_a_drawn_number() {
    let mut a = SeedSource::new(5);
    let expected = SeedSource::new(5).word().to_string();
    let w = generate(&mut a, &GenConfig::standard(), None);
    assert_eq!(*w.id().name(), expected);
}

#[test]
fn manual_construction() {
    let cfg = GenConfig::standard();
    let mut src = SeedSource::new(1);
    let mut g = GalaxyBuilder::new();
    g.add_constellation();
    g.add_constellation();
    let galaxy = g.build(&mut src, &cfg);
    assert!(galaxy.constellations().len() >= 1 && galaxy.constellations().len() <= 2);
    assert_eq!(galaxy.id().name(), "Galaxy");
    for i in 0..galaxy.constellations().len() {
        assert_eq!(galaxy.constellations().entry(i).1.systems().len(), 0);
    }

    let c = ConstellationBuilder::new().add_system().add_system().add_system();
    let built = c.build(&mut src);
    assert!(built.systems().len() >= 1 && built.systems().len() <= 3);
    assert_eq!(built.id().key(), "constellation");

    let mut s = SystemBuilder::new();
    s.add_planet();
    s.add_planet();
    let sys = s.build();
    assert_eq!(sys.planets().len(), 2);
    assert_eq!(sys.planets()[0].id().name(), "Planet");

    let p = PlanetBuilder::total(&mut src).build();
    assert_eq!(p.id().key(), "planet");
}

#[test]
fn world_builder_steps() {
    let cfg = GenConfig::standard();
    let mut src = SeedSource::new(21);
    let b = WorldBuilder::new(&mut src, &cfg).name("Home".to_string()).constellations(2);
    let w = b.build(&mut src, &cfg);
    assert_eq!(w.id().name(), "Home");
    assert!(w.galaxy().constellations().len() <= 9);
    let b2 = World::builder(&mut SeedSource::new(21), &cfg);
    let w2 = b2.name("Home".to_string()).constellations(2).build(&mut SeedSource::new(0), &cfg);
    assert_eq!(w2.id().key(), "home");
}

#[test]
fn layout_follows_the_galaxy() {
    let w = run(8);
    let g = w.galaxy();
    let l = layout(g);
    assert_eq!(l.circles.len(), g.constellations().len());
    for i in 0..l.circles.len() {
        let (p, c) = g.constellations().entry(i);
        assert_eq!(l.circles[i], (p, c.systems().len()));
    }
    assert_eq!(&l.lines, g.connections());
}

#[test]
fn galaxy_from_parts_derives_connections() {
    let mut cons: CoordinateMap<Constellation> = CoordinateMap::new();
    for p in [Point::new(0, 0), Point::new(90, 0), Point::new(-120, 0)] {
        let mut systems: CoordinateMap<System> = CoordinateMap::new();
        systems.insert(Point::new(1, 1), System::from_parts(Ident::new("S".to_string()), Vec::new()));
        cons.insert(p, Constellation::from_parts(Ident::new("C".to_string()), systems));
    }
    let g = Galaxy::from_parts(Ident::new("G".to_string()), cons, 128);
    assert_eq!(
        *g.connections(),
        vec![
            (Point::new(0, 0), Point::new(90, 0)),
            (Point::new(0, 0), Point::new(-120, 0))
        ]
    );
    let w = World::from_parts(Ident::new("W".to_string()), g);
    assert_eq!(w.galaxy().constellations().len(), 3);
}

#[test]
fn building_keeps_unique_ids() {
    let cfg = GenConfig::standard();
    let mut src = SeedSource::new(17);

    let mut sb = SystemBuilder::new();
    sb.add_planet();
    sb.add_planet();
    let system_id = sb.id().uuidv4;
    let planet_ids: Vec<Uuid> = sb.planets().iter().map(|p| p.id().uuidv4).collect();
    let sys = sb.build();
    assert_eq!(sys.id().uuidv4, system_id);
    let built_ids: Vec<Uuid> = sys.planets().iter().map(|p| p.id().uuidv4).collect();
    assert_eq!(built_ids, planet_ids);

    let cb = ConstellationBuilder::new().add_system();
    let constellation_id = cb.id().uuidv4;
    let c = cb.build(&mut src);
    assert_eq!(c.id().uuidv4, constellation_id);

    let g = GalaxyBuilder::total(&mut src, &cfg);
    let galaxy_id = g.id().uuidv4;
    let built = g.build(&mut src, &cfg);
    assert_eq!(built.id().uuidv4, galaxy_id);

    let pb = PlanetBuilder::new();
    let planet_id = pb.id().uuidv4;
    assert_eq!(pb.build().id().uuidv4, planet_id);

    let wb = WorldBuilder::new(&mut src, &cfg).name("Kept".to_string());
    let world_id = wb.id().uuidv4;
    let w = wb.constellations(1).build(&mut src, &cfg);
    assert_eq!(w.id().uuidv4, world_id);
}
