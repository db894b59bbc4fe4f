//! Spatial layout and interaction core of a 3D graph viewer: force-directed
//! placement of nodes, edge geometry derived from node positions, pointer
//! picking with nodes ahead of edges, click selection, and a crosshair that
//! follows the selected node. Positions are fixed-point integers (see
//! `geometry::SCALE`).

pub mod geometry;
pub mod store;
pub mod picking;
pub mod forces;
pub mod layout;
pub mod crosshair;
pub mod sync;
pub mod remote;
