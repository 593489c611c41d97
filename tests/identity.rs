use neutron_star::coordinate_map::CoordinateMap;
use neutron_star::ident::Ident;
use neutron_star::name;
use neutron_star::naval::Class;
use neutron_star::point::Point;

#[test]
fn key_is_lowercase_without_whitespace() {
    assert_eq!(Ident::create_refer("Hello  World\tNine"), "helloworldnine");
    assert_eq!(Ident::create_refer(""), "");
    assert_eq!(Ident::create_refer("   "), "");
}

#[test]
fn normalizing_a_key_again_changes_nothing() {
    for name in ["Hello World", "  Spaced   Out  ", "MiXeD\tCase\nLines", "already"] {
        let key = Ident::create_refer(name);
        assert_eq!(Ident::create_refer(&key), key);
        assert_eq!(Ident::create_refer(name), key);
    }
}

#[test]
fn new_identity_keeps_name_and_key() {
    let id = Ident::new("Andromeda Prime".to_string());
    assert_eq!(id.name(), "Andromeda Prime");
    assert_eq!(id.key(), "andromedaprime");
}

#[test]
fn key_recomputed_later_is_the_same() {
    let id = Ident::new("Orion Belt".to_string());
    assert_eq!(*id.key(), Ident::create_refer(id.name()));
    assert_eq!(*id.key(), Ident::create_refer("Orion Belt"));
}

#[test]
fn update_renames_and_keeps_id() {
    let mut id = Ident::new("Old Name".to_string());
    let before = id.uuidv4;
    id.update("New Name".to_string());
    assert_eq!(id.name(), "New Name");
    assert_eq!(id.key(), "newname");
    assert_eq!(id.uuidv4, before);
    assert_eq!(*id.key(), Ident::create_refer(id.name()));
}

#[test]
fn fresh_identities_have_version_four_ids() {
    let a = Ident::new("x".to_string());
    let b = Ident::new("x".to_string());
    assert_eq!(a.uuidv4.get_version_num(), 4);
    assert_ne!(a.uuidv4, b.uuidv4);
}

#[test]
fn with_id_keeps_given_id() {
    let a = Ident::new("Vega".to_string());
    let b = Ident::with_id("VEGA  ".to_string(), a.uuidv4);
    assert_eq!(b.uuidv4, a.uuidv4);
    assert_eq!(b.key(), "vega");
}

#[test]
fn names_of_kinds() {
    assert_eq!(name::ship(Class::Corvette), "Corvette");
    assert_eq!(name::ship(Class::Frigate), "Frigate");
    assert_eq!(name::constellation(), "Constellation");
    assert_eq!(name::world(), "World");
    assert_eq!(name::galaxy(), "Galaxy");
    assert_eq!(name::system(), "System");
    assert_eq!(name::planet(), "Planet");
}

#[test]
fn coordinate_map_later_insert_replaces() {
    let mut m: CoordinateMap<u8> = CoordinateMap::new();
    m.insert(Point::new(1, 2), 10);
    m.insert(Point::new(3, 4), 20);
    m.insert(Point::new(1, 2), 30);
    assert_eq!(m.len(), 2);
    assert_eq!(m.keys(), vec![Point::new(1, 2), Point::new(3, 4)]);
    assert_eq!(m.get(Point::new(1, 2)), Some(&30));
    assert_eq!(m.get(Point::new(3, 4)), Some(&20));
    assert_eq!(m.get(Point::new(0, 0)), None);
    assert_eq!(m.entry(1), (Point::new(3, 4), &20));
}
