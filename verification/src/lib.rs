//! Verified core logic of an analog and mixed-signal circuit design framework:
//! integer geometry, GDS stream parsing, routing-grid abstractions, netlist
//! validation and cache bookkeeping.
pub mod atoll;
pub mod atoll2;
pub mod cache;
pub mod execute;
pub mod geometry;
pub mod gds;
pub mod io;
pub mod layout;
pub mod pdk;
pub mod rawfile;
pub mod schematic;
pub mod scir;
pub mod simulation;
pub mod sky130;
pub mod text;
