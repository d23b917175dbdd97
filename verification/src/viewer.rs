//! Rules of the viewer's click handling: which entities are robots, and
//! which clicks are too close to the previous one.
use vstd::prelude::*;
use vstd::string::*;

verus! {

/// Minimum time between two navigation clicks, in milliseconds.
pub const CLICK_DEBOUNCE_MS: u128 = 100;

/// Entity path prefixes that are considered "robot" entities, in the order
/// they are tried. Clicking one of these activates teleop for that robot.
pub open spec fn robot_prefixes() -> Seq<&'static str> {
    seq!["/world/go2", "/world/g1", "/world/robot"]
}

/// The first of `prefixes` whose bytes start `path`.
pub open spec fn first_prefix_of(prefixes: Seq<&'static str>, path: Seq<u8>) -> Option<
    &'static str,
>
    decreases prefixes.len(),
{
    if prefixes.len() == 0 {
        None
    } else if prefixes[0].spec_bytes().is_prefix_of(path) {
        Some(prefixes[0])
    } else {
        first_prefix_of(prefixes.drop_first(), path)
    }
}

/// Whether `s` starts with `prefix`.
pub fn starts_with(s: &str, prefix: &str) -> (b: bool)
    ensures
        b == prefix.spec_bytes().is_prefix_of(s.spec_bytes()),
{
    let sb = s.as_bytes();
    let pb = prefix.as_bytes();
    if pb.len() > sb.len() {
        return false;
    }
    let mut i: usize = 0;
    while i < pb.len()
        invariant
            pb@ == prefix.spec_bytes(),
            sb@ == s.spec_bytes(),
            pb@.len() <= sb@.len(),
            i <= pb@.len(),
            forall|j: int| 0 <= j < i ==> pb@[j] == sb@[j],
        decreases pb@.len() - i,
    {
        if pb[i] != sb[i] {
            assert(pb@[i as int] != sb@.subrange(0, pb@.len() as int)[i as int]);
            return false;
        }
        i = i + 1;
    }
    assert(pb@ =~= sb@.subrange(0, pb@.len() as int));
    true
}

/// Check if an entity path belongs to a known robot.
/// Returns the robot prefix (e.g. "/world/go2") if matched.
pub fn robot_prefix_for(entity_path: &str) -> (r: Option<&'static str>)
    ensures
        r == first_prefix_of(robot_prefixes(), entity_path.spec_bytes()),
        r matches Some(p) ==> (p == "/world/go2" || p == "/world/g1" || p == "/world/robot")
            && p.spec_bytes().is_prefix_of(entity_path.spec_bytes()),
        r is None <==> !"/world/go2".spec_bytes().is_prefix_of(entity_path.spec_bytes())
            && !"/world/g1".spec_bytes().is_prefix_of(entity_path.spec_bytes())
            && !"/world/robot".spec_bytes().is_prefix_of(entity_path.spec_bytes()),
{
    proof {
        lemma_known_robots(entity_path.spec_bytes());
    }
    let prefixes: [&'static str; 3] = ["/world/go2", "/world/g1", "/world/robot"];
    assert(prefixes@ == robot_prefixes());
    assert(robot_prefixes().skip(0) =~= robot_prefixes());
    let mut i: usize = 0;
    while i < 3
        invariant
            i <= 3,
            prefixes@ == robot_prefixes(),
            first_prefix_of(robot_prefixes(), entity_path.spec_bytes()) == first_prefix_of(
                robot_prefixes().skip(i as int),
                entity_path.spec_bytes(),
            ),
        decreases 3 - i,
    {
        let p = prefixes[i];
        assert(robot_prefixes().skip(i as int)[0] == p);
        assert(robot_prefixes().skip(i as int).drop_first() =~= robot_prefixes().skip(i + 1));
        if starts_with(entity_path, p) {
            return Some(p);
        }
        i = i + 1;
    }
    assert(robot_prefixes().skip(3) =~= Seq::<&'static str>::empty());
    None
}

/// What the viewer does with one selected entity.
#[derive(Debug, Clone, Copy, PartialEq, Eq)]
pub struct SelectionAction {
    /// The robot to make active and engage teleop on. A robot click does
    /// nothing else, and the remaining selected items are not handled.
    pub engage: Option<&'static str>,
    /// Teleop is to be disengaged.
    pub disengage: bool,
    /// The click is to be published as a navigation goal.
    pub nav_goal: bool,
}

/// Decides what selecting `entity_path` does: a robot click engages teleop
/// on that robot and publishes no goal; any other click disengages teleop
/// (when engaged) and, when ctrl is held and the click has a position
/// outside the debounce window, becomes a navigation goal. `elapsed_ms` is
/// the time since the last accepted navigation click.
pub fn on_selection(
    entity_path: &str,
    has_position: bool,
    ctrl_held: bool,
    engaged: bool,
    elapsed_ms: u128,
) -> (a: SelectionAction)
    ensures
        a.engage == first_prefix_of(robot_prefixes(), entity_path.spec_bytes()),
        a.engage is Some ==> !a.disengage && !a.nav_goal,
        a.engage is None ==> a.disengage == engaged && a.nav_goal == (ctrl_held && has_position
            && elapsed_ms >= CLICK_DEBOUNCE_MS),
{
    match robot_prefix_for(entity_path) {
        Some(prefix) => SelectionAction { engage: Some(prefix), disengage: false, nav_goal: false },
        None => SelectionAction {
            engage: None,
            disengage: engaged,
            nav_goal: ctrl_held && has_position && !click_debounced(elapsed_ms),
        },
    }
}

/// Whether a click that comes `elapsed_ms` after the previous accepted one
/// is dropped as a bounce.
pub fn click_debounced(elapsed_ms: u128) -> (b: bool)
    ensures
        b == (elapsed_ms < CLICK_DEBOUNCE_MS),
{
    elapsed_ms < CLICK_DEBOUNCE_MS
}

/// The prefix found is one of the candidates and starts the path, and no
/// earlier candidate does; when none is found, no candidate starts the path.
pub proof fn lemma_first_prefix(prefixes: Seq<&'static str>, path: Seq<u8>)
    ensures
        first_prefix_of(prefixes, path) matches Some(p) ==> exists|k: int|
            0 <= k < prefixes.len() && prefixes[k] == p && p.spec_bytes().is_prefix_of(path)
                && forall|j: int| 0 <= j < k ==> !(#[trigger] prefixes[j]).spec_bytes().is_prefix_of(path),
        first_prefix_of(prefixes, path) is None ==> forall|j: int|
            0 <= j < prefixes.len() ==> !(#[trigger] prefixes[j]).spec_bytes().is_prefix_of(path),
    decreases prefixes.len(),
{
    if prefixes.len() > 0 {
        let rest = prefixes.drop_first();
        lemma_first_prefix(rest, path);
        if !prefixes[0].spec_bytes().is_prefix_of(path) {
            if let Some(p) = first_prefix_of(rest, path) {
                let k = choose|k: int|
                    0 <= k < rest.len() && rest[k] == p && p.spec_bytes().is_prefix_of(path)
                        && forall|j: int| 0 <= j < k ==> !(#[trigger] rest[j]).spec_bytes().is_prefix_of(path);
                assert(prefixes[k + 1] == p);
                assert forall|j: int| 0 <= j < k + 1 implies !(#[trigger] prefixes[j]).spec_bytes().is_prefix_of(path) by {
                    if j > 0 {
                        assert(prefixes[j] == rest[j - 1]);
                    }
                }
            } else {
                assert forall|j: int| 0 <= j < prefixes.len() implies !(#[trigger] prefixes[j]).spec_bytes().is_prefix_of(path) by {
                    if j > 0 {
                        assert(prefixes[j] == rest[j - 1]);
                    }
                }
            }
        }
    }
}

/// The robots are exactly the three known ones, tried in order: a path that
/// starts with "/world/go2" is that robot, else one that starts with
/// "/world/g1", else one that starts with "/world/robot"; any other path is
/// no robot.
pub proof fn lemma_known_robots(path: Seq<u8>)
    ensures
        ({
            let r = first_prefix_of(robot_prefixes(), path);
            let go2 = "/world/go2".spec_bytes().is_prefix_of(path);
            let g1 = "/world/g1".spec_bytes().is_prefix_of(path);
            let robot = "/world/robot".spec_bytes().is_prefix_of(path);
            &&& go2 ==> r == Some("/world/go2")
            &&& !go2 && g1 ==> r == Some("/world/g1")
            &&& !go2 && !g1 && robot ==> r == Some("/world/robot")
            &&& !go2 && !g1 && !robot ==> r is None
        }),
{
    let ps = robot_prefixes();
    let ps1 = ps.drop_first();
    let ps2 = ps1.drop_first();
    let ps3 = ps2.drop_first();
    assert(ps[0] == "/world/go2");
    assert(ps1 =~= seq!["/world/g1", "/world/robot"]);
    assert(ps1[0] == "/world/g1");
    assert(ps2 =~= seq!["/world/robot"]);
    assert(ps2[0] == "/world/robot");
    assert(ps3 =~= Seq::<&'static str>::empty());
    assert(first_prefix_of(ps3, path) is None);
    assert(first_prefix_of(ps2, path) == if "/world/robot".spec_bytes().is_prefix_of(path) {
        Some("/world/robot")
    } else {
        first_prefix_of(ps3, path)
    });
    assert(first_prefix_of(ps1, path) == if "/world/g1".spec_bytes().is_prefix_of(path) {
        Some("/world/g1")
    } else {
        first_prefix_of(ps2, path)
    });
    assert(first_prefix_of(ps, path) == if "/world/go2".spec_bytes().is_prefix_of(path) {
        Some("/world/go2")
    } else {
        first_prefix_of(ps1, path)
    });
}

} // verus!
