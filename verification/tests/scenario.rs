use openstrike::json::JsonV1;
use openstrike::scenario::{
    validate_axes, validate_header, validate_path, validate_tick, ActionV1, AssertionV1, AxesV1,
    AxisKindV1, CaptureV1, EventNameV1, InputFrameV1, InputTapeV1, ScenarioErrorV1, ScenarioV1,
    TapeCursorV1, TapeStateV1, TickKindV1,
};

fn axes(x: f32, y: f32) -> AxesV1 {
    AxesV1 { x_bits: x.to_bits(), y_bits: y.to_bits() }
}

fn frame(tick: u32) -> InputFrameV1 {
    InputFrameV1 { tick, movement: None, look: None, actions: None }
}

fn tape(schema: u32, frames: Vec<InputFrameV1>) -> InputTapeV1 {
    InputTapeV1 { schema, tick_rate: 60, frames }
}

fn scenario(name: &str, max_ticks: u32, captures: Vec<CaptureV1>) -> ScenarioV1 {
    ScenarioV1 {
        schema: 1,
        name: name.to_string(),
        map: "m".to_string(),
        seed: 1,
        tick_rate: 60,
        max_ticks,
        player_spawn: "p".to_string(),
        input_tape: "i".to_string(),
        assertions: Vec::new(),
        captures,
    }
}

fn capture(tick: u32, name: &str) -> CaptureV1 {
    CaptureV1 { tick, name: name.to_string() }
}

#[test]
fn accepts_versioned_scenario_and_normalized_change_points() {
    let mut definition = scenario("slice.hit", 112, vec![capture(96, "hit")]);
    definition.map = "slice_test_room".to_string();
    definition.player_spawn = "player_start".to_string();
    definition.input_tape = "test/input/slice-hit.json".to_string();
    definition.assertions = vec![AssertionV1::EventCount { event: EventNameV1::TargetHit, count: 1 }];
    assert_eq!(definition.validate(), Ok(()));
    assert_eq!(definition.name, "slice.hit");

    let input = tape(
        1,
        vec![
            InputFrameV1 {
                tick: 0,
                movement: Some(axes(0.0, 0.0)),
                look: Some(axes(0.0, 0.0)),
                actions: Some(vec![]),
            },
            InputFrameV1 { actions: Some(vec![ActionV1::Fire]), ..frame(96) },
            InputFrameV1 { actions: Some(vec![]), ..frame(97) },
        ],
    );
    assert_eq!(input.validate(), Ok(()));
    assert_eq!(input.frames.len(), 3);
}

#[test]
fn rejects_unknown_fields_versions_actions_and_non_normalized_axes() {
    assert!(tape(2, vec![]).validate().is_err());
    assert!(tape(1, vec![InputFrameV1 { movement: Some(axes(0.0, 1.1)), ..frame(0) }])
        .validate()
        .is_err());
}

#[test]
fn rejects_duplicate_or_decreasing_change_points_and_captures() {
    assert!(tape(1, vec![frame(2), frame(2)]).validate().is_err());
    assert!(scenario("x", 10, vec![capture(3, "a"), capture(3, "b")]).validate().is_err());
}

#[test]
fn change_points_persist_and_empty_actions_release_fire() {
    let input = tape(
        1,
        vec![
            InputFrameV1 {
                movement: Some(axes(0.25, 1.0)),
                actions: Some(vec![ActionV1::Fire]),
                ..frame(0)
            },
            InputFrameV1 { actions: Some(vec![]), ..frame(4) },
        ],
    );
    assert_eq!(input.validate(), Ok(()));
    let mut state = TapeStateV1::new();
    state.apply(&input.frames[0]);
    assert_eq!(f32::from_bits(state.sim_input().move_y_bits), 1.0);
    assert!(state.sim_input().fire);
    state.apply(&input.frames[1]);
    assert_eq!(f32::from_bits(state.sim_input().move_x_bits), 0.25);
    assert!(!state.sim_input().fire);
}

#[test]
fn tape_errors_name_the_failing_rule() {
    assert_eq!(
        tape(2, vec![]).validate(),
        Err(ScenarioErrorV1::UnsupportedSchema { schema: 2 })
    );
    assert_eq!(
        InputTapeV1 { schema: 1, tick_rate: 64, frames: vec![] }.validate(),
        Err(ScenarioErrorV1::UnsupportedTickRate { tick_rate: 64 })
    );
    assert_eq!(
        tape(1, vec![frame(3), frame(1)]).validate(),
        Err(ScenarioErrorV1::NonIncreasingFrameTicks)
    );
    assert_eq!(
        tape(1, vec![InputFrameV1 { look: Some(axes(-1.5, 0.0)), ..frame(0) }]).validate(),
        Err(ScenarioErrorV1::InvalidAxes { kind: AxisKindV1::Look })
    );
    assert_eq!(
        tape(1, vec![InputFrameV1 { movement: Some(axes(f32::NAN, 0.0)), ..frame(0) }]).validate(),
        Err(ScenarioErrorV1::InvalidAxes { kind: AxisKindV1::Move })
    );
    assert_eq!(
        tape(
            1,
            vec![InputFrameV1 {
                actions: Some(vec![ActionV1::Reload, ActionV1::Fire, ActionV1::Reload]),
                ..frame(7)
            }]
        )
        .validate(),
        Err(ScenarioErrorV1::DuplicateAction { action: ActionV1::Reload, tick: 7 })
    );
}

#[test]
fn axes_accept_exactly_the_closed_unit_range() {
    for ok in [-1.0f32, -0.0, 0.0, 0.5, 1.0, f32::MIN_POSITIVE] {
        assert_eq!(validate_axes(Some(axes(ok, ok)), AxisKindV1::Move), Ok(()));
    }
    for bad in [1.0000001f32, -1.0000001, f32::INFINITY, f32::NEG_INFINITY, f32::NAN, 2.0] {
        assert_eq!(
            validate_axes(Some(axes(0.0, bad)), AxisKindV1::Move),
            Err(ScenarioErrorV1::InvalidAxes { kind: AxisKindV1::Move })
        );
    }
    assert_eq!(validate_axes(None, AxisKindV1::Look), Ok(()));
}

#[test]
fn header_tick_and_path_rules() {
    assert_eq!(validate_header(1, 60), Ok(()));
    assert_eq!(validate_header(1, 30), Err(ScenarioErrorV1::UnsupportedTickRate { tick_rate: 30 }));
    assert_eq!(validate_tick(10, 10, TickKindV1::Capture), Ok(()));
    assert_eq!(
        validate_tick(11, 10, TickKindV1::Capture),
        Err(ScenarioErrorV1::TickExceedsMaxTicks { kind: TickKindV1::Capture, tick: 11, max_ticks: 10 })
    );
    assert_eq!(validate_path("player.position.0"), Ok(()));
    assert_eq!(validate_path("phase"), Ok(()));
    for bad in ["", ".", "a.", ".a", "a..b"] {
        assert_eq!(validate_path(bad), Err(ScenarioErrorV1::InvalidAssertionPath));
    }
}

#[test]
fn scenario_errors_name_the_failing_rule() {
    let mut empty = scenario("", 10, vec![]);
    assert_eq!(empty.validate(), Err(ScenarioErrorV1::EmptyScenarioField));
    empty.name = "x".to_string();
    empty.max_ticks = 0;
    assert_eq!(empty.validate(), Err(ScenarioErrorV1::NonPositiveMaxTicks));

    let mut late = scenario("x", 10, vec![]);
    late.assertions = vec![AssertionV1::Equals {
        tick: 11,
        path: "phase".to_string(),
        value: JsonV1::Null,
    }];
    assert_eq!(
        late.validate(),
        Err(ScenarioErrorV1::TickExceedsMaxTicks { kind: TickKindV1::Assertion, tick: 11, max_ticks: 10 })
    );

    let mut near = scenario("x", 10, vec![]);
    near.assertions = vec![AssertionV1::Near {
        tick: 1,
        path: "player.position.0".to_string(),
        value_bits: 2.0f64.to_bits(),
        tolerance_bits: (-0.01f64).to_bits(),
    }];
    assert_eq!(near.validate(), Err(ScenarioErrorV1::InvalidNearAssertion));
    near.assertions = vec![AssertionV1::Near {
        tick: 1,
        path: "player.position.0".to_string(),
        value_bits: 2.0f64.to_bits(),
        tolerance_bits: (-0.0f64).to_bits(),
    }];
    assert_eq!(near.validate(), Ok(()));
    near.assertions = vec![AssertionV1::Near {
        tick: 1,
        path: "player..0".to_string(),
        value_bits: f64::INFINITY.to_bits(),
        tolerance_bits: 0.0f64.to_bits(),
    }];
    assert_eq!(near.validate(), Err(ScenarioErrorV1::InvalidAssertionPath));
    near.assertions = vec![AssertionV1::Near {
        tick: 1,
        path: "a".to_string(),
        value_bits: f64::NAN.to_bits(),
        tolerance_bits: 0.0f64.to_bits(),
    }];
    assert_eq!(near.validate(), Err(ScenarioErrorV1::InvalidNearAssertion));

    assert_eq!(
        scenario("x", 10, vec![capture(3, "")]).validate(),
        Err(ScenarioErrorV1::EmptyCaptureName)
    );
    assert_eq!(
        scenario("x", 10, vec![capture(3, "a"), capture(4, "a")]).validate(),
        Err(ScenarioErrorV1::DuplicateCaptureName { name: "a".to_string() })
    );
    assert_eq!(
        scenario("x", 10, vec![capture(3, "a"), capture(3, "b")]).validate(),
        Err(ScenarioErrorV1::DuplicateCaptureTick { tick: 3 })
    );
    assert_eq!(
        scenario("x", 10, vec![capture(3, "a"), capture(11, "b")]).validate(),
        Err(ScenarioErrorV1::TickExceedsMaxTicks { kind: TickKindV1::Capture, tick: 11, max_ticks: 10 })
    );
    assert_eq!(scenario("x", 10, vec![capture(10, "a"), capture(0, "b")]).validate(), Ok(()));
}

#[test]
fn cursor_holds_every_change_point_up_to_the_tick() {
    let input = tape(
        1,
        vec![
            InputFrameV1 { movement: Some(axes(0.5, 0.0)), ..frame(0) },
            InputFrameV1 { actions: Some(vec![ActionV1::Fire]), ..frame(2) },
            InputFrameV1 { look: Some(axes(1.0, -1.0)), ..frame(3) },
            InputFrameV1 { actions: Some(vec![ActionV1::Reload]), ..frame(5) },
        ],
    );
    assert_eq!(input.validate(), Ok(()));
    let mut cursor = TapeCursorV1::new();
    cursor.advance(&input, 0);
    assert_eq!(cursor.next_frame, 1);
    assert_eq!(cursor.state.movement, axes(0.5, 0.0));
    cursor.advance(&input, 1);
    assert_eq!(cursor.next_frame, 1);
    cursor.advance(&input, 2);
    assert!(cursor.state.fire);
    cursor.advance(&input, 3);
    assert!(cursor.state.fire);
    assert_eq!(cursor.state.look, axes(1.0, -1.0));
    assert_eq!(cursor.state.movement, axes(0.5, 0.0));
    cursor.advance(&input, 4);
    cursor.advance(&input, 5);
    assert!(!cursor.state.fire);
    assert!(cursor.state.reload);
    assert_eq!(cursor.next_frame, 4);
    let input_now = cursor.state.sim_input();
    assert_eq!(input_now.move_x_bits, 0.5f32.to_bits());
    assert!(input_now.reload && !input_now.fire);
}
