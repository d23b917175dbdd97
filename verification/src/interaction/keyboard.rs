//! Keyboard handler for WASD movement controls that publish Twist messages.
//!
//! Supports multi-robot: tracks which robot is "active" for teleop.
//! WASD publishes to that robot's /cmd_vel channel.
//!
//! The handler decides; it does not perform I/O. Every Twist it publishes is
//! appended to its outbox, which the caller drains with `take_outbox` and
//! sends over LCM. Speeds are integers in thousandths (mm/s, mrad/s).
use vstd::prelude::*;
use vstd::string::*;

verus! {

/// LCM channel suffix for twist commands.
pub const CMD_VEL_SUFFIX: &'static str = "/cmd_vel#geometry_msgs.Twist";

/// Default channel when no robot is selected.
pub const DEFAULT_CMD_VEL: &'static str = "/cmd_vel#geometry_msgs.Twist";

/// Base linear speed, in mm/s (0.5 m/s).
pub const BASE_LINEAR_SPEED: i32 = 500;

/// Base angular speed, in mrad/s (0.8 rad/s).
pub const BASE_ANGULAR_SPEED: i32 = 800;

/// Speed multiplier while shift is held.
pub const FAST_MULTIPLIER: i32 = 2;

/// Which movement controls are held.
#[derive(Debug, Clone, Copy, PartialEq, Eq, Structural, Default)]
pub struct KeyState {
    pub forward: bool,
    pub backward: bool,
    pub left: bool,
    pub right: bool,
    pub strafe_l: bool,
    pub strafe_r: bool,
    pub fast: bool,
}

impl KeyState {
    /// No control held.
    pub open spec fn idle() -> KeyState {
        KeyState {
            forward: false,
            backward: false,
            left: false,
            right: false,
            strafe_l: false,
            strafe_r: false,
            fast: false,
        }
    }

    /// Some movement control (not counting the speed modifier) is held.
    pub open spec fn moving(self) -> bool {
        self.forward || self.backward || self.left || self.right || self.strafe_l || self.strafe_r
    }

    pub fn new() -> (s: Self)
        ensures
            s == KeyState::idle(),
        no_unwind
    {
        KeyState {
            forward: false,
            backward: false,
            left: false,
            right: false,
            strafe_l: false,
            strafe_r: false,
            fast: false,
        }
    }

    pub fn any_active(&self) -> (b: bool)
        ensures
            b == self.moving(),
    {
        self.forward || self.backward || self.left || self.right || self.strafe_l || self.strafe_r
    }

    pub fn reset(&mut self)
        ensures
            *final(self) == KeyState::idle(),
        no_unwind
    {
        *self = KeyState::new();
    }
}

/// The raw keys read from the keyboard in one frame.
#[derive(Debug, Clone, Copy, PartialEq, Eq, Structural, Default)]
pub struct KeysDown {
    pub w: bool,
    pub a: bool,
    pub s: bool,
    pub d: bool,
    pub q: bool,
    pub e: bool,
    pub arrow_up: bool,
    pub arrow_down: bool,
    pub arrow_left: bool,
    pub arrow_right: bool,
    pub shift: bool,
}

impl KeysDown {
    /// The controls these keys hold: WASD or the arrows move and turn, Q/E
    /// strafe, shift goes fast.
    pub open spec fn controls(self) -> KeyState {
        KeyState {
            forward: self.w || self.arrow_up,
            backward: self.s || self.arrow_down,
            left: self.a || self.arrow_left,
            right: self.d || self.arrow_right,
            strafe_l: self.q,
            strafe_r: self.e,
            fast: self.shift,
        }
    }
}

/// What the viewer reads in one frame for teleop.
#[derive(Debug, Clone, Copy, PartialEq, Eq, Structural, Default)]
pub struct FrameInput {
    /// A text field has keyboard focus.
    pub text_has_focus: bool,
    /// Space was pressed this frame (emergency stop).
    pub space_pressed: bool,
    /// The keys held this frame.
    pub keys: KeysDown,
}

/// A velocity command, in thousandths (mm/s and mrad/s).
#[derive(Debug, Clone, Copy, PartialEq, Eq, Structural)]
pub struct TwistCommand {
    pub linear_x: i32,
    pub linear_y: i32,
    pub linear_z: i32,
    pub angular_x: i32,
    pub angular_y: i32,
    pub angular_z: i32,
}

/// The all-zero command.
pub open spec fn stop_command() -> TwistCommand {
    TwistCommand {
        linear_x: 0,
        linear_y: 0,
        linear_z: 0,
        angular_x: 0,
        angular_y: 0,
        angular_z: 0,
    }
}

/// Contribution of a pair of opposite controls to one axis.
pub open spec fn axis(pos: bool, neg: bool, base: int) -> int {
    (if pos {
        base
    } else {
        0
    }) - (if neg {
        base
    } else {
        0
    })
}

/// A base speed, doubled while fast.
pub open spec fn scaled(s: KeyState, base: int) -> int {
    if s.fast {
        base * FAST_MULTIPLIER
    } else {
        base
    }
}

/// The command the held controls ask for: forward/backward drive x,
/// strafe left/right drive y, left/right turn about z; opposite controls
/// cancel, and fast doubles every component.
pub open spec fn twist_of(s: KeyState) -> TwistCommand {
    TwistCommand {
        linear_x: axis(s.forward, s.backward, scaled(s, BASE_LINEAR_SPEED as int)) as i32,
        linear_y: axis(s.strafe_l, s.strafe_r, scaled(s, BASE_LINEAR_SPEED as int)) as i32,
        linear_z: 0,
        angular_x: 0,
        angular_y: 0,
        angular_z: axis(s.left, s.right, scaled(s, BASE_ANGULAR_SPEED as int)) as i32,
    }
}

impl TwistCommand {
    /// The all-zero command.
    pub fn stop() -> (t: Self)
        ensures
            t == stop_command(),
    {
        TwistCommand {
            linear_x: 0,
            linear_y: 0,
            linear_z: 0,
            angular_x: 0,
            angular_y: 0,
            angular_z: 0,
        }
    }
}

/// The characters of an optional string.
pub open spec fn opt_chars(o: Option<String>) -> Option<Seq<char>> {
    match o {
        Some(s) => Some(s@),
        None => None,
    }
}

/// The LCM channel that teleop publishes to for a robot (or the default
/// channel when no robot is selected).
pub open spec fn cmd_vel_channel_of(robot_prefix: Option<Seq<char>>) -> Seq<char> {
    match robot_prefix {
        Some(p) => p + CMD_VEL_SUFFIX@,
        None => DEFAULT_CMD_VEL@,
    }
}

/// The LCM channel that teleop publishes to for a robot.
pub fn cmd_vel_channel(robot_prefix: &Option<String>) -> (c: String)
    ensures
        c@ == cmd_vel_channel_of(opt_chars(*robot_prefix)),
{
    match robot_prefix {
        Some(prefix) => prefix.clone().concat(CMD_VEL_SUFFIX),
        None => DEFAULT_CMD_VEL.to_owned(),
    }
}

/// A command published on an LCM channel.
#[derive(Debug, Clone, PartialEq, Eq)]
pub struct Outgoing {
    /// The channel it is published on.
    pub channel: String,
    /// The command.
    pub command: TwistCommand,
}

/// A published command as its channel's characters and the command.
pub open spec fn outgoing_view(o: Outgoing) -> (Seq<char>, TwistCommand) {
    (o.channel@, o.command)
}

/// The abstract state of a keyboard handler.
pub ghost struct TeleopView {
    /// The controls held, as last read.
    pub keys: KeyState,
    /// The last command published asked the robot to move.
    pub was_active: bool,
    /// The emergency stop fired this frame.
    pub estop_flash: bool,
    /// Teleop is engaged (robot clicked in the 3D view).
    pub engaged: bool,
    /// The selected robot's entity path prefix; `None` for the default channel.
    pub active_robot: Option<Seq<char>>,
    /// The channel commands are published on.
    pub channel: Seq<char>,
    /// Commands published and not yet taken by the caller, with their channels.
    pub outbox: Seq<(Seq<char>, TwistCommand)>,
    /// The last command published on each channel.
    pub last_on: Map<Seq<char>, TwistCommand>,
    /// The last command published, with its channel.
    pub last_sent: Option<(Seq<char>, TwistCommand)>,
}

impl TeleopView {
    /// Commands go to the active robot's cmd_vel channel.
    pub open spec fn channel_follows_robot(self) -> bool {
        self.channel == cmd_vel_channel_of(self.active_robot)
    }

    /// The robot is never left moving: on every channel the last command
    /// published is a stop, except on the current channel while driving,
    /// where the last command published (there and overall) is the command
    /// for the held controls.
    pub open spec fn never_left_moving(self) -> bool {
        &&& forall|ch: Seq<char>|
            #[trigger] self.last_on.contains_key(ch) && (ch != self.channel || !self.was_active)
                ==> self.last_on[ch] == stop_command()
        &&& self.was_active ==> {
            &&& self.last_on.contains_key(self.channel)
            &&& self.last_on[self.channel] == twist_of(self.keys)
            &&& self.last_sent == Some((self.channel, twist_of(self.keys)))
        }
    }

    /// The newest command waiting in the outbox is the last command
    /// published: what is recorded as published is what is sent.
    pub open spec fn outbox_holds_last_sent(self) -> bool {
        self.outbox.len() > 0 ==> self.last_sent == Some(self.outbox.last())
    }

    /// What every handler keeps true.
    pub open spec fn consistent(self) -> bool {
        &&& self.channel_follows_robot()
        &&& self.never_left_moving()
        &&& self.outbox_holds_last_sent()
    }

    /// This state after publishing `cmd` on the current channel.
    pub open spec fn sent(self, cmd: TwistCommand) -> TeleopView {
        TeleopView {
            outbox: self.outbox.push((self.channel, cmd)),
            last_on: self.last_on.insert(self.channel, cmd),
            last_sent: Some((self.channel, cmd)),
            ..self
        }
    }

    /// This state after publishing a stop and marking the robot idle.
    pub open spec fn halted(self) -> TeleopView {
        TeleopView { was_active: false, ..self.sent(stop_command()) }
    }

    /// This state after halting if the robot was moving.
    pub open spec fn halted_if_active(self) -> TeleopView {
        if self.was_active {
            self.halted()
        } else {
            self
        }
    }
}

/// With no movement control held, publishing the command for the controls
/// publishes the same as publishing a stop.
pub proof fn lemma_idle_twist_is_stop(v: TeleopView)
    requires
        !v.keys.moving(),
    ensures
        v.sent(twist_of(v.keys)) == v.sent(stop_command()),
{
    lemma_no_controls_stop(v.keys);
}

/// The state of teleop. Its operations are the handler's; the handler keeps
/// it consistent between them.
struct TeleopState {
    state: KeyState,
    was_active: bool,
    estop_flash: bool,
    /// Whether teleop is engaged (robot clicked in 3D view)
    engaged: bool,
    /// Currently selected robot entity path prefix, or None for default /cmd_vel
    active_robot: Option<String>,
    /// The channel of the publisher
    channel: String,
    /// Commands published and not yet taken by the caller
    outbox: Vec<Outgoing>,
    /// The last command published on each channel
    last_on: Ghost<Map<Seq<char>, TwistCommand>>,
    /// The last command published
    last_sent: Ghost<Option<(Seq<char>, TwistCommand)>>,
}

impl View for TeleopState {
    type V = TeleopView;

    closed spec fn view(&self) -> TeleopView {
        TeleopView {
            keys: self.state,
            was_active: self.was_active,
            estop_flash: self.estop_flash,
            engaged: self.engaged,
            active_robot: opt_chars(self.active_robot),
            channel: self.channel@,
            outbox: self.outbox@.map_values(|o: Outgoing| outgoing_view(o)),
            last_on: self.last_on@,
            last_sent: self.last_sent@,
        }
    }
}

/// The state of a new handler.
pub open spec fn initial_view() -> TeleopView {
    TeleopView {
        keys: KeyState::idle(),
        was_active: false,
        estop_flash: false,
        engaged: false,
        active_robot: None,
        channel: DEFAULT_CMD_VEL@,
        outbox: Seq::empty(),
        last_on: Map::empty(),
        last_sent: None,
    }
}

impl TeleopState {
    fn new() -> (t: Self)
        ensures
            t@ == initial_view(),
    {
        let t = TeleopState {
            state: KeyState::new(),
            was_active: false,
            estop_flash: false,
            engaged: false,
            active_robot: None,
            channel: cmd_vel_channel(&None),
            outbox: Vec::new(),
            last_on: Ghost(Map::empty()),
            last_sent: Ghost(None),
        };
        assert(t@.outbox =~= Seq::<(Seq<char>, TwistCommand)>::empty());
        t
    }

    fn compute_twist(&self) -> (t: (i32, i32, i32, i32, i32, i32))
        ensures
            t == ({
                let c = twist_of(self@.keys);
                (c.linear_x, c.linear_y, c.linear_z, c.angular_x, c.angular_y, c.angular_z)
            }),
    {
        let mut lx: i32 = 0;
        let mut ly: i32 = 0;
        let mut az: i32 = 0;
        if self.state.forward {
            lx += BASE_LINEAR_SPEED;
        }
        if self.state.backward {
            lx -= BASE_LINEAR_SPEED;
        }
        if self.state.strafe_l {
            ly += BASE_LINEAR_SPEED;
        }
        if self.state.strafe_r {
            ly -= BASE_LINEAR_SPEED;
        }
        if self.state.left {
            az += BASE_ANGULAR_SPEED;
        }
        if self.state.right {
            az -= BASE_ANGULAR_SPEED;
        }
        if self.state.fast {
            lx *= FAST_MULTIPLIER;
            ly *= FAST_MULTIPLIER;
            az *= FAST_MULTIPLIER;
        }
        (lx, ly, 0, 0, 0, az)
    }

    /// Publishes `cmd` on the current channel.
    fn send(&mut self, cmd: TwistCommand)
        ensures
            final(self)@ == old(self)@.sent(cmd),
    {
        let out = Outgoing { channel: self.channel.clone(), command: cmd };
        self.outbox.push(out);
        proof {
            self.last_on@ = self.last_on@.insert(self.channel@, cmd);
            self.last_sent@ = Some((self.channel@, cmd));
            assert(self.outbox@.map_values(|o: Outgoing| outgoing_view(o)) =~= old(
                self,
            ).outbox@.map_values(|o: Outgoing| outgoing_view(o)).push((self.channel@, cmd)));
        }
    }

    /// Publishes the command for the held controls.
    fn publish_twist(&mut self)
        ensures
            final(self)@ == old(self)@.sent(twist_of(old(self)@.keys)),
    {
        let (lx, ly, lz, ax, ay, az) = self.compute_twist();
        let cmd = TwistCommand {
            linear_x: lx,
            linear_y: ly,
            linear_z: lz,
            angular_x: ax,
            angular_y: ay,
            angular_z: az,
        };
        self.send(cmd);
    }

    /// Publishes a stop.
    fn publish_stop(&mut self)
        ensures
            final(self)@ == old(self)@.sent(stop_command()),
    {
        self.send(TwistCommand::stop());
    }

    fn set_engaged(&mut self, engaged: bool)
        ensures
            old(self)@.engaged && !engaged ==> final(self)@ == (TeleopView {
                keys: KeyState::idle(),
                engaged: false,
                ..old(self)@.halted()
            }),
            !(old(self)@.engaged && !engaged) ==> final(self)@ == (TeleopView {
                engaged,
                ..old(self)@
            }),
    {
        if self.engaged && !engaged {
            self.publish_stop();
            self.state.reset();
            self.was_active = false;
        }
        self.engaged = engaged;
    }

    fn update_key_state(&mut self, keys: &KeysDown)
        ensures
            final(self)@ == (TeleopView { keys: keys.controls(), ..old(self)@ }),
    {
        self.state.forward = keys.w || keys.arrow_up;
        self.state.backward = keys.s || keys.arrow_down;
        self.state.left = keys.a || keys.arrow_left;
        self.state.right = keys.d || keys.arrow_right;
        self.state.strafe_l = keys.q;
        self.state.strafe_r = keys.e;
        self.state.fast = keys.shift;
    }

    fn process(&mut self, input: &FrameInput) -> (moving: bool)
        ensures
            process_post(old(self)@, *input, final(self)@, moving),
    {
        self.estop_flash = false;
        // Only capture keys when engaged and no text field focused
        if !self.engaged || input.text_has_focus {
            if self.was_active {
                self.publish_stop();
                self.was_active = false;
            }
            return false;
        }
        self.update_key_state(&input.keys);
        if input.space_pressed {
            self.state.reset();
            self.publish_stop();
            self.was_active = false;
            self.estop_flash = true;
            return true;
        }
        if self.state.any_active() {
            self.publish_twist();
            self.was_active = true;
        } else if self.was_active {
            self.publish_stop();
            self.was_active = false;
        }
        self.state.any_active()
    }

    fn is_active_robot(&self, robot_prefix: &Option<String>) -> (b: bool)
        ensures
            b == (self@.active_robot == opt_chars(*robot_prefix)),
    {
        match (&self.active_robot, robot_prefix) {
            (Some(a), Some(b)) => *a == *b,
            (None, None) => true,
            _ => false,
        }
    }

    fn set_active_robot(&mut self, robot_prefix: Option<String>, publisher_opened: bool)
        ensures
            set_active_robot_post(old(self)@, opt_chars(robot_prefix), publisher_opened, final(self)@),
    {
        if self.is_active_robot(&robot_prefix) {
            return;
        }
        if self.was_active {
            self.publish_stop();
            self.was_active = false;
        }
        if publisher_opened {
            self.channel = cmd_vel_channel(&robot_prefix);
            self.active_robot = robot_prefix;
        }
    }

    fn take_outbox(&mut self) -> (cmds: Vec<Outgoing>)
        ensures
            cmds@.map_values(|o: Outgoing| outgoing_view(o)) == old(self)@.outbox,
            final(self)@ == (TeleopView { outbox: Seq::empty(), ..old(self)@ }),
    {
        let mut out: Vec<Outgoing> = Vec::new();
        std::mem::swap(&mut out, &mut self.outbox);
        assert(self.outbox@.map_values(|o: Outgoing| outgoing_view(o)) =~= Seq::<
            (Seq<char>, TwistCommand),
        >::empty());
        out
    }
}

/// What one frame of input does to the handler: keys are only captured
/// while engaged and no text field has focus, otherwise a moving robot is
/// stopped; space is an emergency stop; while movement controls are held
/// the matching command is published, and when they are released a stop.
/// `moving` is what the frame returns.
pub open spec fn process_post(old: TeleopView, input: FrameInput, new: TeleopView, moving: bool) -> bool {
    let k = input.keys.controls();
    if !old.engaged || input.text_has_focus {
        !moving && new == (TeleopView { estop_flash: false, ..old.halted_if_active() })
    } else if input.space_pressed {
        moving && new == (TeleopView { keys: KeyState::idle(), estop_flash: true, ..old.halted() })
    } else if k.moving() {
        moving && new == (TeleopView {
            keys: k,
            estop_flash: false,
            was_active: true,
            ..(TeleopView { keys: k, ..old }).sent(twist_of(k))
        })
    } else {
        !moving && new == (TeleopView { keys: k, estop_flash: false, ..old.halted_if_active() })
    }
}

/// What selecting a robot does: nothing if it is already active; otherwise
/// the robot being driven is stopped on its own channel, and the new robot
/// and its channel become active together, only if its publisher opened.
pub open spec fn set_active_robot_post(
    old: TeleopView,
    robot_prefix: Option<Seq<char>>,
    publisher_opened: bool,
    new: TeleopView,
) -> bool {
    if old.active_robot == robot_prefix {
        new == old
    } else {
        new == (TeleopView {
            active_robot: if publisher_opened {
                robot_prefix
            } else {
                old.active_robot
            },
            channel: if publisher_opened {
                cmd_vel_channel_of(robot_prefix)
            } else {
                old.channel
            },
            ..old.halted_if_active()
        })
    }
}

/// Handles keyboard input and publishes Twist commands.
/// Supports multi-robot via `set_active_robot()`.
pub struct KeyboardHandler {
    teleop: TeleopState,
}

impl View for KeyboardHandler {
    type V = TeleopView;

    closed spec fn view(&self) -> TeleopView {
        self.teleop@
    }
}

impl KeyboardHandler {
    /// The channel follows the active robot and the robot is never left
    /// moving: see `TeleopView::consistent`.
    #[verifier::type_invariant]
    spec fn inv(self) -> bool {
        self@.consistent()
    }

    /// A handler that is not engaged, has no robot selected (so publishes on
    /// the default channel), holds no keys and has published nothing.
    pub fn new() -> (h: Self)
        ensures
            h@ == initial_view(),
            h@.consistent(),
    {
        KeyboardHandler { teleop: TeleopState::new() }
    }

    /// Takes the teleop state out, leaving a new one in its place.
    fn take_teleop(&mut self) -> (t: TeleopState)
        ensures
            t@ == old(self)@,
            t@.consistent(),
    {
        proof {
            use_type_invariant(&*self);
        }
        let mut t = TeleopState::new();
        std::mem::swap(&mut t, &mut self.teleop);
        t
    }

    /// Puts a consistent teleop state back.
    fn put_teleop(&mut self, t: TeleopState)
        requires
            t@.consistent(),
        ensures
            final(self)@ == t@,
    {
        self.teleop = t;
    }

    /// The velocity command for the held controls, as
    /// `(linear x, linear y, linear z, angular x, angular y, angular z)`.
    pub fn compute_twist(&self) -> (t: (i32, i32, i32, i32, i32, i32))
        ensures
            t == ({
                let c = twist_of(self@.keys);
                (c.linear_x, c.linear_y, c.linear_z, c.angular_x, c.angular_y, c.angular_z)
            }),
    {
        self.teleop.compute_twist()
    }

    /// Whether the last command published asked the robot to move. Whenever
    /// it did not, the last command published on every channel was a stop.
    pub fn was_active(&self) -> (b: bool)
        ensures
            b == self@.was_active,
            self@.consistent(),
    {
        proof {
            use_type_invariant(self);
        }
        self.teleop.was_active
    }

    /// Whether the emergency stop fired in the last processed frame.
    pub fn estop_flash(&self) -> (b: bool)
        ensures
            b == self@.estop_flash,
    {
        self.teleop.estop_flash
    }

    /// The controls held, as last read.
    pub fn key_state(&self) -> (s: KeyState)
        ensures
            s == self@.keys,
    {
        self.teleop.state
    }

    /// The selected robot's entity path prefix, if any.
    pub fn active_robot(&self) -> (r: Option<&str>)
        ensures
            match r {
                Some(p) => self@.active_robot == Some(p@),
                None => self@.active_robot is None,
            },
    {
        match &self.teleop.active_robot {
            Some(p) => Some(p.as_str()),
            None => None,
        }
    }

    /// The channel commands are published on: the active robot's cmd_vel
    /// channel.
    pub fn channel(&self) -> (c: &str)
        ensures
            c@ == self@.channel,
            c@ == cmd_vel_channel_of(self@.active_robot),
    {
        proof {
            use_type_invariant(self);
        }
        self.teleop.channel.as_str()
    }

    /// Whether teleop is currently engaged (robot selected).
    pub fn engaged(&self) -> (b: bool)
        ensures
            b == self@.engaged,
    {
        self.teleop.engaged
    }

    /// Takes the commands published since the last call, oldest first, each
    /// with the channel it is published on.
    pub fn take_outbox(&mut self) -> (cmds: Vec<Outgoing>)
        ensures
            cmds@.map_values(|o: Outgoing| outgoing_view(o)) == old(self)@.outbox,
            final(self)@ == (TeleopView { outbox: Seq::empty(), ..old(self)@ }),
            final(self)@.consistent(),
    {
        let mut t = self.take_teleop();
        let cmds = t.take_outbox();
        self.put_teleop(t);
        cmds
    }

    /// Set engaged state. Sends stop when disengaging.
    pub fn set_engaged(&mut self, engaged: bool)
        ensures
            old(self)@.engaged && !engaged ==> final(self)@ == (TeleopView {
                keys: KeyState::idle(),
                engaged: false,
                ..old(self)@.halted()
            }),
            !(old(self)@.engaged && !engaged) ==> final(self)@ == (TeleopView {
                engaged,
                ..old(self)@
            }),
            final(self)@.consistent(),
    {
        let mut t = self.take_teleop();
        t.set_engaged(engaged);
        self.put_teleop(t);
    }

    /// Processes one frame of input and publishes what it calls for (see
    /// `process_post`). Returns whether the frame drove the robot (always
    /// true for an emergency stop).
    pub fn process(&mut self, input: &FrameInput) -> (moving: bool)
        ensures
            process_post(old(self)@, *input, final(self)@, moving),
            !moving ==> !final(self)@.was_active,
            final(self)@.consistent(),
    {
        let mut t = self.take_teleop();
        let moving = t.process(input);
        self.put_teleop(t);
        moving
    }

    /// The channel to open a publisher on before `set_active_robot`, or
    /// `None` when `robot_prefix` is already the active robot.
    pub fn retarget_channel(&self, robot_prefix: &Option<String>) -> (c: Option<String>)
        ensures
            c is None <==> self@.active_robot == opt_chars(*robot_prefix),
            c matches Some(ch) ==> ch@ == cmd_vel_channel_of(opt_chars(*robot_prefix)),
    {
        if self.teleop.is_active_robot(robot_prefix) {
            None
        } else {
            Some(cmd_vel_channel(robot_prefix))
        }
    }

    /// Set the active robot for teleop.
    ///
    /// Switching robots stops the robot being driven, on its own channel.
    /// The new robot and its channel become active only if the publisher for
    /// that channel (see `retarget_channel`) was opened; `publisher_opened`
    /// reports that.
    pub fn set_active_robot(&mut self, robot_prefix: Option<String>, publisher_opened: bool)
        ensures
            set_active_robot_post(old(self)@, opt_chars(robot_prefix), publisher_opened, final(self)@),
            final(self)@.consistent(),
    {
        let mut t = self.take_teleop();
        t.set_active_robot(robot_prefix, publisher_opened);
        self.put_teleop(t);
    }

    /// The HUD title: the active robot's name (the last segment of its path)
    /// while engaged, a hint to click a robot otherwise.
    pub fn hud_title(&self) -> (t: String)
        ensures
            t@ == hud_title_of(self@),
    {
        if self.teleop.engaged {
            match &self.teleop.active_robot {
                Some(name) => TITLE_PREFIX.to_owned().concat(last_segment_of(name.as_str())),
                None => TITLE_TELEOP.to_owned(),
            }
        } else {
            TITLE_IDLE.to_owned()
        }
    }
}

/// Start of the HUD title while a robot is engaged.
pub const TITLE_PREFIX: &'static str = "\u{1F3AE} ";

/// HUD title while engaged with no robot selected.
pub const TITLE_TELEOP: &'static str = "\u{1F3AE} Teleop";

/// HUD title while not engaged.
pub const TITLE_IDLE: &'static str = "\u{1F3AE} Teleop (click robot)";

/// The part of a path after its last `/` (all of it when there is none).
pub open spec fn last_segment(s: Seq<char>) -> Seq<char>
    decreases s.len(),
{
    if s.len() == 0 {
        s
    } else if s.last() == '/' {
        Seq::empty()
    } else {
        last_segment(s.drop_last()).push(s.last())
    }
}

/// The HUD title for a handler state.
pub open spec fn hud_title_of(v: TeleopView) -> Seq<char> {
    if v.engaged {
        match v.active_robot {
            Some(name) => TITLE_PREFIX@ + last_segment(name),
            None => TITLE_TELEOP@,
        }
    } else {
        TITLE_IDLE@
    }
}

/// The part of a path after its last `/` (all of it when there is none).
pub fn last_segment_of(name: &str) -> (seg: &str)
    ensures
        seg@ == last_segment(name@),
{
    broadcast use vstd::string::axiom_spec_iter;

    let n = name.unicode_len();
    let mut start: usize = 0;
    let mut i: usize = 0;
    assert(name@.subrange(0, 0) =~= Seq::<char>::empty());
    for c in it: name.chars()
        invariant
            n == name@.len(),
            it.seq() == name@,
            i == it.index(),
            start <= i <= n,
            last_segment(name@.subrange(0, i as int)) == name@.subrange(start as int, i as int),
    {
        let ghost pre = name@.subrange(0, i + 1);
        assert(pre.drop_last() == name@.subrange(0, i as int));
        assert(pre.last() == c);
        if c == '/' {
            start = i + 1;
            assert(name@.subrange(start as int, i + 1) =~= Seq::<char>::empty());
        } else {
            assert(name@.subrange(start as int, i + 1) =~= name@.subrange(start as int, i as int).push(c));
        }
        i = i + 1;
    }
    assert(name@.subrange(0, n as int) =~= name@);
    name.substring_char(start, n)
}

/// Holding shift doubles every component of the command.
pub proof fn lemma_fast_doubles(s: KeyState)
    ensures
        ({
            let slow = twist_of(KeyState { fast: false, ..s });
            let fast = twist_of(KeyState { fast: true, ..s });
            &&& fast.linear_x == 2 * slow.linear_x
            &&& fast.linear_y == 2 * slow.linear_y
            &&& fast.linear_z == 2 * slow.linear_z
            &&& fast.angular_x == 2 * slow.angular_x
            &&& fast.angular_y == 2 * slow.angular_y
            &&& fast.angular_z == 2 * slow.angular_z
        }),
{
}

/// Opposite controls held together cancel on their axis.
pub proof fn lemma_opposite_controls_cancel(s: KeyState)
    ensures
        s.forward && s.backward ==> twist_of(s).linear_x == 0,
        s.strafe_l && s.strafe_r ==> twist_of(s).linear_y == 0,
        s.left && s.right ==> twist_of(s).angular_z == 0,
{
}

/// With no movement control held the command is a stop, whatever the
/// speed modifier.
pub proof fn lemma_no_controls_stop(s: KeyState)
    requires
        !s.moving(),
    ensures
        twist_of(s) == stop_command(),
{
}

/// A command only drives forward/backward and sideways and turns about the
/// vertical axis, at the base speeds or (fast) twice them.
pub proof fn lemma_twist_axes(s: KeyState)
    ensures
        twist_of(s).linear_z == 0,
        twist_of(s).angular_x == 0,
        twist_of(s).angular_y == 0,
        twist_of(s).linear_x == 0 || twist_of(s).linear_x == scaled(s, BASE_LINEAR_SPEED as int)
            || twist_of(s).linear_x == -scaled(s, BASE_LINEAR_SPEED as int),
        twist_of(s).linear_y == 0 || twist_of(s).linear_y == scaled(s, BASE_LINEAR_SPEED as int)
            || twist_of(s).linear_y == -scaled(s, BASE_LINEAR_SPEED as int),
        twist_of(s).angular_z == 0 || twist_of(s).angular_z == scaled(s, BASE_ANGULAR_SPEED as int)
            || twist_of(s).angular_z == -scaled(s, BASE_ANGULAR_SPEED as int),
{
}

/// The arrow keys alias W/S/A/D: two sets of keys that agree on each
/// key-or-arrow pair, on Q, E and shift hold the same controls. Strafing
/// comes from Q and E alone, and the speed modifier from shift alone.
pub proof fn lemma_arrow_aliases(k1: KeysDown, k2: KeysDown)
    requires
        (k1.w || k1.arrow_up) == (k2.w || k2.arrow_up),
        (k1.s || k1.arrow_down) == (k2.s || k2.arrow_down),
        (k1.a || k1.arrow_left) == (k2.a || k2.arrow_left),
        (k1.d || k1.arrow_right) == (k2.d || k2.arrow_right),
        k1.q == k2.q,
        k1.e == k2.e,
        k1.shift == k2.shift,
    ensures
        k1.controls() == k2.controls(),
        k1.controls().strafe_l == k1.q,
        k1.controls().strafe_r == k1.e,
        k1.controls().fast == k1.shift,
{
}

/// Publishing appends exactly the command, on the current channel, to the
/// outbox, and records it as the last command on that channel and overall.
pub proof fn lemma_sent_publishes_the_command(v: TeleopView, cmd: TwistCommand)
    ensures
        v.sent(cmd).outbox.len() == v.outbox.len() + 1,
        v.sent(cmd).outbox.subrange(0, v.outbox.len() as int) == v.outbox,
        v.sent(cmd).outbox.last() == (v.channel, cmd),
        v.sent(cmd).last_on[v.channel] == cmd,
        v.sent(cmd).last_sent == Some((v.channel, cmd)),
        v.sent(cmd).channel == v.channel,
        v.sent(cmd).keys == v.keys,
{
    assert(v.sent(cmd).outbox.subrange(0, v.outbox.len() as int) =~= v.outbox);
}

/// A frame that drives the robot publishes, as the newest outbox entry on
/// the handler's channel, the very command that `compute_twist` reports for
/// the keys it read; and that entry is the last command published.
pub proof fn lemma_driving_frame_publishes_compute_twist(
    old: TeleopView,
    input: FrameInput,
    new: TeleopView,
    moving: bool,
)
    requires
        process_post(old, input, new, moving),
        old.engaged,
        !input.text_has_focus,
        !input.space_pressed,
        moving,
    ensures
        new.outbox.len() == old.outbox.len() + 1,
        new.outbox.last() == (old.channel, twist_of(new.keys)),
        new.last_sent == Some(new.outbox.last()),
        new.was_active,
{
    let k = input.keys.controls();
    lemma_sent_publishes_the_command(TeleopView { keys: k, ..old }, twist_of(k));
}

/// A frame in which no movement key is held (shift alone, or nothing)
/// does not drive the robot, and publishes nothing when the robot was not
/// moving.
pub proof fn lemma_no_movement_keys_publish_nothing(
    old: TeleopView,
    input: FrameInput,
    new: TeleopView,
    moving: bool,
)
    requires
        process_post(old, input, new, moving),
        !input.space_pressed,
        !old.was_active,
        !input.keys.w && !input.keys.a && !input.keys.s && !input.keys.d,
        !input.keys.q && !input.keys.e,
        !input.keys.arrow_up && !input.keys.arrow_down,
        !input.keys.arrow_left && !input.keys.arrow_right,
    ensures
        !moving,
        new.outbox == old.outbox,
        !new.was_active,
{
}

/// The speed modifier alone is not movement.
pub proof fn lemma_shift_is_not_movement(s: KeyState)
    ensures
        s.moving() == (KeyState { fast: false, ..s }).moving(),
        !(KeyState { fast: true, ..KeyState::idle() }).moving(),
        s.moving() ==> s.forward || s.backward || s.left || s.right || s.strafe_l || s.strafe_r,
{
}

/// Which keys hold which controls: W or up drives forward, S or down
/// backward, A or left turns left, D or right turns right, Q and E strafe
/// left and right, shift is the speed modifier.
pub proof fn lemma_key_bindings(k: KeysDown)
    ensures
        k.controls().forward == (k.w || k.arrow_up),
        k.controls().backward == (k.s || k.arrow_down),
        k.controls().left == (k.a || k.arrow_left),
        k.controls().right == (k.d || k.arrow_right),
        k.controls().strafe_l == k.q,
        k.controls().strafe_r == k.e,
        k.controls().fast == k.shift,
{
}

/// Each axis of the command depends only on its own pair of controls and
/// on the speed modifier: forward/backward for linear x, strafe left/right
/// for linear y, turn left/right for angular z.
pub proof fn lemma_axes_independent(s1: KeyState, s2: KeyState)
    ensures
        s1.forward == s2.forward && s1.backward == s2.backward && s1.fast == s2.fast
            ==> twist_of(s1).linear_x == twist_of(s2).linear_x,
        s1.strafe_l == s2.strafe_l && s1.strafe_r == s2.strafe_r && s1.fast == s2.fast
            ==> twist_of(s1).linear_y == twist_of(s2).linear_y,
        s1.left == s2.left && s1.right == s2.right && s1.fast == s2.fast
            ==> twist_of(s1).angular_z == twist_of(s2).angular_z,
        twist_of(s1).linear_z == twist_of(s2).linear_z,
        twist_of(s1).angular_x == twist_of(s2).angular_x,
        twist_of(s1).angular_y == twist_of(s2).angular_y,
{
}

/// The speed on each axis: forward, strafe left and turn left are positive,
/// their opposites negative, at 500 mm/s or 800 mrad/s, doubled while fast;
/// an axis with neither or both of its controls is still.
pub proof fn lemma_axis_speeds(s: KeyState)
    ensures
        ({
            let m: int = if s.fast {
                2
            } else {
                1
            };
            let t = twist_of(s);
            &&& t.linear_x == if s.forward && !s.backward {
                500 * m
            } else if s.backward && !s.forward {
                -500 * m
            } else {
                0
            }
            &&& t.linear_y == if s.strafe_l && !s.strafe_r {
                500 * m
            } else if s.strafe_r && !s.strafe_l {
                -500 * m
            } else {
                0
            }
            &&& t.angular_z == if s.left && !s.right {
                800 * m
            } else if s.right && !s.left {
                -800 * m
            } else {
                0
            }
            &&& t.linear_z == 0 && t.angular_x == 0 && t.angular_y == 0
        }),
{
}

/// The HUD title names the robot only while teleop is engaged: otherwise it
/// is the hint to click a robot, whatever robot is selected; engaged with no
/// robot it is the plain teleop title; engaged with a robot it is the title
/// prefix followed by the robot's name.
pub proof fn lemma_hud_title(v: TeleopView)
    ensures
        !v.engaged ==> hud_title_of(v) == TITLE_IDLE@,
        v.engaged && v.active_robot is None ==> hud_title_of(v) == TITLE_TELEOP@,
        v.engaged && v.active_robot is Some ==> hud_title_of(v) == TITLE_PREFIX@ + last_segment(
            v.active_robot->0,
        ),
{
}

/// The name shown for a robot is the end of its path with no `/` in it.
pub proof fn lemma_last_segment(s: Seq<char>)
    ensures
        last_segment(s).len() <= s.len(),
        last_segment(s) == s.subrange(s.len() - last_segment(s).len(), s.len() as int),
        forall|i: int| 0 <= i < last_segment(s).len() ==> last_segment(s)[i] != '/',
        last_segment(s).len() < s.len() ==> s[s.len() - last_segment(s).len() - 1] == '/',
    decreases s.len(),
{
    if s.len() > 0 && s.last() != '/' {
        lemma_last_segment(s.drop_last());
        let r = last_segment(s.drop_last());
        assert(last_segment(s) == r.push(s.last()));
        assert(s.subrange(s.len() - r.len() - 1, s.len() as int) =~= s.drop_last().subrange(
            s.len() - 1 - r.len(),
            s.len() - 1,
        ).push(s.last()));
    } else if s.len() > 0 {
        assert(s.subrange(s.len() as int, s.len() as int) =~= Seq::<char>::empty());
    } else {
        assert(s.subrange(0, 0) =~= s);
    }
}

} // verus!
