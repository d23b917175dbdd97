//! Verified core of the DimOS interactive viewer: LCM wire encoding of the
//! messages the viewer publishes, the keyboard teleop state machine, and the
//! rules that map a clicked entity to a robot.

pub mod interaction;
pub mod viewer;
