//! Loading of rooms for a tile-based game: a JSON world file and per-room
//! files are decoded into typed room data, checked and demultiplexed, and
//! turned into the commands that populate a room.
pub mod json;
pub mod schema;
pub mod room;
pub mod world;
pub mod current;
pub mod spawn;
