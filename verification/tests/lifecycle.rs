use rust_edge_agent::{Lifecycle, LifecycleState};

#[test]
fn lifecycle_starts_in_init() {
    let lifecycle = Lifecycle::new();
    assert_eq!(lifecycle.state(), LifecycleState::Init);
}

#[test]
fn lifecycle_moves_to_running() {
    let mut lifecycle = Lifecycle::new();
    lifecycle.transition_to_running();
    assert_eq!(lifecycle.state(), LifecycleState::Running);
    lifecycle.transition_to_running();
    assert_eq!(lifecycle.state(), LifecycleState::Running);
    assert_ne!(lifecycle.state(), LifecycleState::Shutdown);
}
