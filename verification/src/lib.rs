//! Logic of a street-map editor: neighborhoods as sets of road-bounded
//! blocks, the widgets' state (spinner, table), the freehand polygon tool and
//! the plan of what a traffic-signal phase shows. Everything here is plain
//! data and decisions; drawing and input are left to the program around it.
//!
//! Each module states what its functions do in their contracts, over a
//! model of its data; `partition_laws` holds what follows for neighborhoods.

pub mod text;
pub mod roads;
pub mod partition;
pub mod partition_laws;
pub mod spinner;
pub mod table;
pub mod draw_polygon;
pub mod traffic_signal;
