use vstd::prelude::*;

verus! {

/// One thing to do to the environment, in the order a frame schedules it.
#[derive(Clone, Copy, Debug, PartialEq, Eq, Structural)]
pub enum Action {
    /// Discard all bodies and start over from the initial population.
    Reset,
    /// Insert one body of the given size class at the pointer.
    Spawn(usize),
    /// Advance the simulation by one substep.
    Step,
    /// Pull every body toward the pointer, for the current substep.
    Attract,
    /// Slow every body down, for the current substep.
    Dampen,
}

/// What the user asked for during one frame.
#[derive(Clone, Debug)]
pub struct FrameInput {
    /// The reset control was pressed in this frame.
    pub reset: bool,
    /// For each size class, whether its spawn control was pressed in this frame.
    pub spawn_keys: Vec<bool>,
    /// The attraction control is held.
    pub attract: bool,
    /// The damping control is held.
    pub dampen: bool,
}

/// The first index at or after `start` whose key is pressed.
pub open spec fn first_pressed_from(keys: Seq<bool>, start: nat) -> Option<usize>
    decreases keys.len() - start,
{
    if start >= keys.len() {
        None
    } else if keys[start as int] {
        Some(start as usize)
    } else {
        first_pressed_from(keys, start + 1)
    }
}

/// The actions of one substep: the step itself, then the held controls.
pub open spec fn substep_actions(attract: bool, dampen: bool) -> Seq<Action> {
    seq![Action::Step] + (if attract {
        seq![Action::Attract]
    } else {
        Seq::<Action>::empty()
    }) + (if dampen {
        seq![Action::Dampen]
    } else {
        Seq::<Action>::empty()
    })
}

/// `count` substeps, one after the other.
pub open spec fn repeated_substeps(attract: bool, dampen: bool, count: nat) -> Seq<Action>
    decreases count,
{
    if count == 0 {
        Seq::empty()
    } else {
        repeated_substeps(attract, dampen, (count - 1) as nat) + substep_actions(attract, dampen)
    }
}

/// The schedule of a frame: a reset if asked, then at most one spawn (the
/// lowest size class pressed), then the substeps.
pub open spec fn frame_plan(
    reset: bool,
    spawn_keys: Seq<bool>,
    attract: bool,
    dampen: bool,
    substeps: nat,
) -> Seq<Action> {
    (if reset {
        seq![Action::Reset]
    } else {
        Seq::<Action>::empty()
    }) + (match first_pressed_from(spawn_keys, 0) {
        Some(i) => seq![Action::Spawn(i)],
        None => Seq::<Action>::empty(),
    }) + repeated_substeps(attract, dampen, substeps)
}

/// The lowest index whose key is pressed, if any.
pub fn first_pressed(keys: &Vec<bool>) -> (r: Option<usize>)
    ensures
        r == first_pressed_from(keys@, 0),
        match r {
            Some(i) => i < keys@.len() && keys@[i as int] && forall|k: int|
                0 <= k < i ==> !keys@[k],
            None => forall|k: int| 0 <= k < keys@.len() ==> !keys@[k],
        },
{
    let mut i: usize = 0;
    while i < keys.len()
        invariant
            i <= keys@.len(),
            forall|k: int| 0 <= k < i ==> !keys@[k],
            first_pressed_from(keys@, 0) == first_pressed_from(keys@, i as nat),
        decreases keys@.len() - i,
    {
        if keys[i] {
            return Some(i);
        }
        i += 1;
    }
    None
}

/// The actions to run for one frame, in order.
///
/// A reset comes first. At most one body is spawned per frame, so that no
/// two insertions fall between the same two steps. Each of the `substeps`
/// steps is followed by the attraction and then the damping, when their
/// controls are held.
pub fn plan_frame(input: &FrameInput, substeps: usize) -> (r: Vec<Action>)
    ensures
        r@ == frame_plan(input.reset, input.spawn_keys@, input.attract, input.dampen, substeps as nat),
{
    let mut r: Vec<Action> = Vec::new();
    if input.reset {
        r.push(Action::Reset);
    }
    match first_pressed(&input.spawn_keys) {
        Some(i) => r.push(Action::Spawn(i)),
        None => {},
    }
    let ghost opening = r@;
    assert(r@ == opening + repeated_substeps(input.attract, input.dampen, 0));
    let mut done: usize = 0;
    while done < substeps
        invariant
            done <= substeps,
            r@ == opening + repeated_substeps(input.attract, input.dampen, done as nat),
        decreases substeps - done,
    {
        let ghost before = r@;
        r.push(Action::Step);
        if input.attract {
            r.push(Action::Attract);
        }
        if input.dampen {
            r.push(Action::Dampen);
        }
        proof {
            let next = (done + 1) as nat;
            assert(repeated_substeps(input.attract, input.dampen, next) == repeated_substeps(
                input.attract,
                input.dampen,
                done as nat,
            ) + substep_actions(input.attract, input.dampen));
            assert(r@ =~= before + substep_actions(input.attract, input.dampen));
            assert(r@ =~= opening + repeated_substeps(input.attract, input.dampen, next));
        }
        done += 1;
    }
    assert(r@ =~= frame_plan(
        input.reset,
        input.spawn_keys@,
        input.attract,
        input.dampen,
        substeps as nat,
    ));
    r
}

/// No action of a run of substeps is a spawn.
proof fn lemma_substeps_spawn_nothing(attract: bool, dampen: bool, count: nat)
    ensures
        forall|k: int|
            0 <= k < repeated_substeps(attract, dampen, count).len() ==> !(#[trigger] repeated_substeps(
                attract,
                dampen,
                count,
            )[k] is Spawn),
    decreases count,
{
    if count > 0 {
        lemma_substeps_spawn_nothing(attract, dampen, (count - 1) as nat);
    }
}

/// A frame never inserts two bodies between the same two steps: a spawn in
/// its plan is preceded by nothing but a reset, so the plan holds at most one
/// spawn and none after a step.
pub proof fn lemma_plan_spawns_before_any_step(
    reset: bool,
    spawn_keys: Seq<bool>,
    attract: bool,
    dampen: bool,
    substeps: nat,
)
    ensures
        forall|b: int|
            0 <= b < frame_plan(reset, spawn_keys, attract, dampen, substeps).len() && (#[trigger] frame_plan(
                reset,
                spawn_keys,
                attract,
                dampen,
                substeps,
            )[b] is Spawn) ==> forall|a: int|
                0 <= a < b ==> frame_plan(reset, spawn_keys, attract, dampen, substeps)[a]
                    == Action::Reset,
{
    lemma_substeps_spawn_nothing(attract, dampen, substeps);
    let opening = (if reset {
        seq![Action::Reset]
    } else {
        Seq::<Action>::empty()
    }) + (match first_pressed_from(spawn_keys, 0) {
        Some(i) => seq![Action::Spawn(i)],
        None => Seq::<Action>::empty(),
    });
    let rest = repeated_substeps(attract, dampen, substeps);
    let plan = frame_plan(reset, spawn_keys, attract, dampen, substeps);
    assert(plan == opening + rest);
    assert forall|b: int| 0 <= b < plan.len() && (#[trigger] plan[b] is Spawn) implies forall|a: int|
        0 <= a < b ==> plan[a] == Action::Reset by {
        if b >= opening.len() {
            assert(plan[b] == rest[b - opening.len()]);
        }
    }
}

} // verus!
