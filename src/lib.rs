pub mod point;
pub mod ident;
pub mod name;
pub mod naval;
pub mod seed;
pub mod coordinate_map;
pub mod connectivity;
pub mod astronomical;
pub mod world;
pub mod display;
pub mod save_game;
