use crate::naval::Class;
use vstd::prelude::*;
use vstd::string::StringExecFns;

verus! {

pub open spec fn ship_name(class: Class) -> Seq<char> {
    match class {
        Class::Corvette => "Corvette"@,
        Class::Frigate => "Frigate"@,
    }
}

/// The display name given to a ship of the class.
pub fn ship(class: Class) -> (r: String)
    ensures
        r@ == ship_name(class),
{
    let ret: &str = match class {
        Class::Corvette => "Corvette",
        Class::Frigate => "Frigate",
    };
    String::from_str(ret)
}

/// The display name given to a new galaxy.
pub fn galaxy() -> (r: String)
    ensures
        r@ == "Galaxy"@,
{
    String::from_str("Galaxy")
}

/// The display name given to a new constellation.
pub fn constellation() -> (r: String)
    ensures
        r@ == "Constellation"@,
{
    String::from_str("Constellation")
}

/// The display name given to a new system.
pub fn system() -> (r: String)
    ensures
        r@ == "System"@,
{
    String::from_str("System")
}

/// The display name given to a new planet.
pub fn planet() -> (r: String)
    ensures
        r@ == "Planet"@,
{
    String::from_str("Planet")
}

/// The display name given to a new world.
pub fn world() -> (r: String)
    ensures
        r@ == "World"@,
{
    String::from_str("World")
}

} // verus!
