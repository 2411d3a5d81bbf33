use outputctl::{
    Action, Anomaly, Event, HeadAttribute, Mode, ModeAttribute, OutputQueryState, Position,
    QueryError, Resolution, MANAGER_INTERFACE, MANAGER_VERSION, SCALE_ONE,
};

fn feed(state: &mut OutputQueryState, events: Vec<Event>) -> Vec<Action> {
    events.into_iter().map(|e| state.event(e)).collect()
}

fn global(name: u32, interface: &str) -> Event {
    Event::Global { name, interface: String::from(interface) }
}

fn head_attr(head: u32, attribute: HeadAttribute) -> Event {
    Event::HeadAttribute { head, attribute }
}

fn mode_attr(mode: u32, attribute: ModeAttribute) -> Event {
    Event::ModeAttribute { mode, attribute }
}

fn size(width: i32, height: i32) -> ModeAttribute {
    ModeAttribute::Size(Resolution { width, height })
}

fn mode(width: i32, height: i32, refresh: i32, preferred: bool) -> Mode {
    Mode { resolution: Resolution { width, height }, refresh, preferred }
}

fn bound_state() -> OutputQueryState {
    let mut state = OutputQueryState::new();
    let actions = feed(
        &mut state,
        vec![global(1, "wl_compositor"), global(7, MANAGER_INTERFACE), Event::GlobalsDone],
    );
    assert_eq!(
        actions,
        vec![
            Action::Continue,
            Action::Bind { name: 7, version: MANAGER_VERSION },
            Action::Continue,
        ]
    );
    state
}

#[test]
fn binds_manager_once_and_records_capabilities() {
    let mut state = bound_state();
    assert_eq!(MANAGER_VERSION, 1);
    assert!(state.is_bound());
    assert_eq!(state.event(global(9, "zwlr_output_manager_v1")), Action::Continue);
    let caps: Vec<&str> = state.capabilities().iter().map(|s| s.as_str()).collect();
    assert_eq!(caps, vec!["wl_compositor", "zwlr_output_manager_v1", "zwlr_output_manager_v1"]);
}

#[test]
fn missing_capability_fails_the_query() {
    let mut state = OutputQueryState::new();
    let actions = feed(&mut state, vec![global(1, "wl_seat"), Event::GlobalsDone]);
    assert_eq!(
        actions,
        vec![Action::Continue, Action::Fail(QueryError::CapabilityNotFound)]
    );
    assert!(!state.is_bound());
    assert!(!state.is_finished());
    assert!(state.outputs().is_empty());
}

#[test]
fn single_head_with_two_modes() {
    let mut state = bound_state();
    let actions = feed(
        &mut state,
        vec![
            Event::HeadCreated { head: 10 },
            head_attr(10, HeadAttribute::Name(String::from("eDP-1"))),
            Event::ModeCreated { head: 10, mode: 20 },
            mode_attr(20, size(1920, 1080)),
            mode_attr(20, ModeAttribute::Refresh(60000)),
            mode_attr(20, ModeAttribute::Preferred),
            Event::ModeCreated { head: 10, mode: 21 },
            mode_attr(21, size(1920, 1080)),
            mode_attr(21, ModeAttribute::Refresh(144000)),
            head_attr(10, HeadAttribute::Enabled(true)),
            Event::CurrentModeSet { head: 10, mode: 21 },
            head_attr(10, HeadAttribute::Scale(SCALE_ONE)),
            head_attr(10, HeadAttribute::Position(Position { x: 0, y: 0 })),
        ],
    );
    assert!(actions.iter().all(|a| *a == Action::Continue));
    assert!(!state.is_finished());
    assert_eq!(state.event(Event::BatchComplete), Action::Finished);
    assert!(state.is_finished());
    let outputs = state.outputs();
    assert_eq!(outputs.len(), 1);
    let o = &outputs[0];
    assert_eq!(o.name, "eDP-1");
    assert!(o.enabled);
    assert_eq!(o.scale, SCALE_ONE);
    assert_eq!(o.position, Some(Position { x: 0, y: 0 }));
    assert_eq!(o.modes, vec![mode(1920, 1080, 60000, true), mode(1920, 1080, 144000, false)]);
    assert_eq!(o.preferred_mode, Some(mode(1920, 1080, 60000, true)));
    assert_eq!(o.current_mode, Some(mode(1920, 1080, 144000, false)));
}

#[test]
fn attribute_of_uncreated_mode_is_reported_and_ignored() {
    let mut state = bound_state();
    feed(
        &mut state,
        vec![
            Event::HeadCreated { head: 1 },
            Event::ModeCreated { head: 1, mode: 2 },
            mode_attr(2, size(800, 600)),
        ],
    );
    assert_eq!(
        state.event(mode_attr(7, size(4000, 3000))),
        Action::Warn(Anomaly::UnknownMode(7))
    );
    assert_eq!(
        state.event(mode_attr(7, ModeAttribute::Preferred)),
        Action::Warn(Anomaly::UnknownMode(7))
    );
    state.event(Event::ModeCreated { head: 1, mode: 7 });
    state.event(Event::BatchComplete);
    let o = &state.outputs()[0];
    assert_eq!(o.modes, vec![mode(800, 600, 0, false), mode(0, 0, 0, false)]);
    assert_eq!(o.preferred_mode, None);
}

#[test]
fn attribute_of_uncreated_head_is_reported_and_ignored() {
    let mut state = bound_state();
    feed(&mut state, vec![Event::HeadCreated { head: 1 }]);
    assert_eq!(
        state.event(head_attr(5, HeadAttribute::Name(String::from("ghost")))),
        Action::Warn(Anomaly::UnknownHead(5))
    );
    assert_eq!(
        state.event(Event::CurrentModeSet { head: 5, mode: 3 }),
        Action::Warn(Anomaly::UnknownHead(5))
    );
    assert_eq!(
        state.event(Event::ModeCreated { head: 5, mode: 3 }),
        Action::Warn(Anomaly::UnknownHead(5))
    );
    state.event(Event::BatchComplete);
    let outputs = state.outputs();
    assert_eq!(outputs.len(), 1);
    assert_eq!(outputs[0].name, "unknown");
    assert!(outputs[0].modes.is_empty());
}

#[test]
fn last_write_wins_across_interleaved_heads() {
    let mut state = bound_state();
    feed(
        &mut state,
        vec![
            Event::HeadCreated { head: 1 },
            Event::HeadCreated { head: 2 },
            head_attr(1, HeadAttribute::Name(String::from("DP-1"))),
            head_attr(2, HeadAttribute::Name(String::from("HDMI-A-1"))),
            head_attr(1, HeadAttribute::Description(String::from("first"))),
            head_attr(2, HeadAttribute::Scale(512)),
            head_attr(1, HeadAttribute::Name(String::from("DP-2"))),
            head_attr(2, HeadAttribute::Position(Position { x: 5, y: 6 })),
            head_attr(1, HeadAttribute::Enabled(true)),
            head_attr(1, HeadAttribute::Enabled(false)),
            head_attr(2, HeadAttribute::Position(Position { x: 1920, y: 0 })),
            Event::BatchComplete,
        ],
    );
    let outputs = state.outputs();
    assert_eq!(outputs.len(), 2);
    assert_eq!(outputs[0].name, "DP-2");
    assert_eq!(outputs[0].description, "first");
    assert!(!outputs[0].enabled);
    assert_eq!(outputs[0].scale, SCALE_ONE);
    assert_eq!(outputs[0].position, None);
    assert_eq!(outputs[1].name, "HDMI-A-1");
    assert_eq!(outputs[1].description, "");
    assert_eq!(outputs[1].scale, 512);
    assert_eq!(outputs[1].position, Some(Position { x: 1920, y: 0 }));
}

#[test]
fn recreated_head_starts_over() {
    let mut state = bound_state();
    feed(
        &mut state,
        vec![
            Event::HeadCreated { head: 3 },
            head_attr(3, HeadAttribute::Name(String::from("old"))),
            Event::ModeCreated { head: 3, mode: 4 },
            Event::HeadCreated { head: 3 },
            Event::BatchComplete,
        ],
    );
    let outputs = state.outputs();
    assert_eq!(outputs.len(), 1);
    assert_eq!(outputs[0].name, "unknown");
    assert!(outputs[0].modes.is_empty());
}

#[test]
fn modes_keep_creation_order_per_head() {
    let mut state = bound_state();
    feed(
        &mut state,
        vec![
            Event::HeadCreated { head: 1 },
            Event::HeadCreated { head: 2 },
            Event::ModeCreated { head: 2, mode: 30 },
            Event::ModeCreated { head: 1, mode: 12 },
            Event::ModeCreated { head: 2, mode: 31 },
            Event::ModeCreated { head: 1, mode: 11 },
            mode_attr(11, ModeAttribute::Refresh(11)),
            mode_attr(12, ModeAttribute::Refresh(12)),
            mode_attr(30, ModeAttribute::Refresh(30)),
            mode_attr(31, ModeAttribute::Refresh(31)),
            Event::BatchComplete,
        ],
    );
    let outputs = state.outputs();
    let refresh = |i: usize| outputs[i].modes.iter().map(|m| m.refresh).collect::<Vec<i32>>();
    assert_eq!(refresh(0), vec![12, 11]);
    assert_eq!(refresh(1), vec![30, 31]);
}

#[test]
fn current_mode_that_names_no_mode_is_absent() {
    let mut state = bound_state();
    feed(
        &mut state,
        vec![
            Event::HeadCreated { head: 1 },
            Event::ModeCreated { head: 1, mode: 2 },
            Event::CurrentModeSet { head: 1, mode: 2 },
            Event::CurrentModeSet { head: 1, mode: 99 },
            Event::BatchComplete,
        ],
    );
    assert_eq!(state.outputs()[0].current_mode, None);
}

#[test]
fn preferred_mode_is_first_flagged_even_when_not_current() {
    let mut state = bound_state();
    feed(
        &mut state,
        vec![
            Event::HeadCreated { head: 1 },
            Event::ModeCreated { head: 1, mode: 2 },
            Event::ModeCreated { head: 1, mode: 3 },
            Event::ModeCreated { head: 1, mode: 4 },
            mode_attr(3, ModeAttribute::Preferred),
            mode_attr(3, ModeAttribute::Refresh(3)),
            mode_attr(4, ModeAttribute::Preferred),
            mode_attr(4, ModeAttribute::Refresh(4)),
            Event::CurrentModeSet { head: 1, mode: 4 },
            Event::BatchComplete,
        ],
    );
    let o = &state.outputs()[0];
    assert_eq!(o.preferred_mode, Some(mode(0, 0, 3, true)));
    assert_eq!(o.current_mode, Some(mode(0, 0, 4, true)));
}

#[test]
fn second_batch_complete_keeps_snapshot() {
    let mut state = bound_state();
    feed(
        &mut state,
        vec![
            Event::HeadCreated { head: 1 },
            head_attr(1, HeadAttribute::Name(String::from("DP-1"))),
            Event::BatchComplete,
        ],
    );
    assert_eq!(state.event(Event::BatchComplete), Action::Warn(Anomaly::AfterBatchComplete));
    assert_eq!(
        state.event(head_attr(1, HeadAttribute::Name(String::from("DP-9")))),
        Action::Warn(Anomaly::AfterBatchComplete)
    );
    assert_eq!(
        state.event(Event::HeadCreated { head: 2 }),
        Action::Warn(Anomaly::AfterBatchComplete)
    );
    let outputs = state.outputs();
    assert_eq!(outputs.len(), 1);
    assert_eq!(outputs[0].name, "DP-1");
}

#[test]
fn snapshot_is_empty_before_batch_complete() {
    let mut state = bound_state();
    feed(&mut state, vec![Event::HeadCreated { head: 1 }]);
    assert!(state.outputs().is_empty());
    assert!(!state.is_finished());
}
