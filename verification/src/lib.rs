//! SchedMap's core: the state that the web server shares between its
//! routes and its websocket handlers, and the rules by which that state
//! changes.

pub mod text;
pub mod employees;
pub mod state;
pub mod websockets;
pub mod svgmap;
pub mod version;
pub mod boundary;
pub mod routes;
