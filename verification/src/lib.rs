//! Verified core of the Droidloom Android cell: the Denial wire protocol, the
//! Composer state machines and the decisions of the services around them.

pub mod aidl;
pub mod classpath;
pub mod composer;
pub mod control;
pub mod describe;
pub mod endpoint;
pub mod events;
pub mod gles;
pub mod input;
pub mod ipc;
pub mod launcher;
pub mod lmkd;
pub mod minigbm;
pub mod ordered;
pub mod package;
pub mod protocol;
pub mod service;
pub mod sink;
pub mod surface;
pub mod text;
pub mod transport;
pub mod vsync;
