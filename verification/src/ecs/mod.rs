pub mod bitset;
pub mod channel;
pub mod components;
pub mod join;
pub mod resources;
pub mod storage;
pub mod systems;
pub mod world;
