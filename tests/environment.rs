use three_body::Environment;

#[test]
fn new_environment_may_be_empty() {
    let env: Environment<u32> = Environment::new(Vec::new());
    assert_eq!(env.len(), 0);
    assert!(env.bodies().is_empty());
}

#[test]
fn new_environment_keeps_given_order() {
    let env = Environment::new(vec![3, 1, 2]);
    assert_eq!(env.bodies(), &vec![3, 1, 2]);
    assert_eq!(env.len(), 3);
}

#[test]
fn add_appends_after_existing_bodies() {
    let mut env = Environment::new(vec![10]);
    env.add(20);
    env.add(10);
    assert_eq!(env.bodies(), &vec![10, 20, 10]);
}

#[test]
fn bodies_mut_changes_the_bodies_in_place() {
    let mut env = Environment::new(vec![(0, 0), (5, 5)]);
    for body in env.bodies_mut().iter_mut() {
        body.0 += 1;
    }
    assert_eq!(env.bodies(), &vec![(1, 0), (6, 5)]);
}
