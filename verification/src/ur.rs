//! Universal Robots driver: the RTDE protocol, the control script, the
//! dashboard and gripper dialogues, and the decisions of the port drivers.

pub mod error;
pub mod rtde;
pub mod state;
pub mod stream;
pub mod script;
pub mod session;
pub mod dashboard;
pub mod gripper;
pub mod control;
pub mod io;
pub mod receive;
pub mod registry;
pub mod drivers;
