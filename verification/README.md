# dimos_viewer

The verified core of the DimOS interactive viewer, a Rerun viewer with
keyboard teleop and click-to-navigate over LCM.

- `src/interaction/lcm.rs`: LCM short-message framing and the encodings of
  `geometry_msgs/PointStamped` and `geometry_msgs/Twist`, with proofs that
  every field reads back from its offset.
- `src/interaction/keyboard.rs`: the teleop state machine. It maps held keys
  to velocity commands (in thousandths of m/s and rad/s), decides when to
  publish a command or a stop, publishes on the active robot's cmd_vel
  channel, and never leaves a robot moving: on every channel the last
  command is a stop unless that robot is being driven. Published commands
  collect, with their channels, in an outbox that the caller sends.
- `src/viewer.rs`: what a selected entity does (engage a robot, disengage,
  navigation goal), which entities are robots, and click debouncing.
- `app/`: the viewer program: egui input and drawing, UDP multicast, the
  conversion of speeds and coordinates to `f64`, and the Rerun viewer setup.
