use three_body::{first_pressed, plan_frame, Action, FrameInput};

fn idle(keys: usize) -> FrameInput {
    FrameInput {
        reset: false,
        spawn_keys: vec![false; keys],
        attract: false,
        dampen: false,
    }
}

#[test]
fn no_key_pressed() {
    assert_eq!(first_pressed(&vec![]), None);
    assert_eq!(first_pressed(&vec![false, false, false]), None);
}

#[test]
fn lowest_pressed_key_wins() {
    assert_eq!(first_pressed(&vec![true, true]), Some(0));
    assert_eq!(first_pressed(&vec![false, true, false, true]), Some(1));
    assert_eq!(first_pressed(&vec![false; 9].into_iter().chain([true]).collect()), Some(9));
}

#[test]
fn idle_frame_only_steps() {
    assert_eq!(plan_frame(&idle(10), 5), vec![Action::Step; 5]);
}

#[test]
fn no_substeps_no_steps() {
    assert!(plan_frame(&idle(10), 0).is_empty());
}

#[test]
fn reset_comes_before_spawn_and_steps() {
    let mut input = idle(10);
    input.reset = true;
    input.spawn_keys[3] = true;
    assert_eq!(
        plan_frame(&input, 2),
        vec![Action::Reset, Action::Spawn(3), Action::Step, Action::Step]
    );
}

#[test]
fn at_most_one_spawn_per_frame() {
    let mut input = idle(10);
    input.spawn_keys[7] = true;
    input.spawn_keys[2] = true;
    input.spawn_keys[9] = true;
    let plan = plan_frame(&input, 1);
    assert_eq!(plan, vec![Action::Spawn(2), Action::Step]);
}

#[test]
fn held_controls_follow_each_step() {
    let mut input = idle(10);
    input.attract = true;
    input.dampen = true;
    assert_eq!(
        plan_frame(&input, 2),
        vec![
            Action::Step,
            Action::Attract,
            Action::Dampen,
            Action::Step,
            Action::Attract,
            Action::Dampen
        ]
    );
    input.attract = false;
    assert_eq!(
        plan_frame(&input, 2),
        vec![Action::Step, Action::Dampen, Action::Step, Action::Dampen]
    );
}
