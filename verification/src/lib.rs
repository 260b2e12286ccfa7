//! A verified core for reading transit-schedule archives: typed decoding of
//! the archive's delimited tables, relational queries joining routes, trips,
//! timed stop visits and stops, and construction of a route's stop-to-stop
//! topology graph.
pub mod archive;
pub mod codec;
pub mod fields;
pub mod geodata;
pub mod gtfs;
pub mod idmap;
pub mod route;
pub mod stop;
pub mod table;
pub mod tables;
pub mod text;
pub mod visualize;
