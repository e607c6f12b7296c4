use openstrike::contract::{SliceCommandV1, SliceEventV1, SlicePhaseV1, TargetConfigV1, WeaponConfigV1};
use openstrike::json::{JsonNumberV1, JsonV1};
use openstrike::host::{
    command_batch_from_json, command_from_json, CommandDecodeErrorV1,
    load_map_command, plan_boot_spawns, read_u32, BootSpawnPlanV1, BotSpawnsV1, HostCmd,
    SliceCommandKindV1,
};
use openstrike::runner::{
    capture_record, check_tape_fits, event_kind_of, event_name, record_events,
    failed_summary, override_echo, run_summary, scenario_path_candidates, select_spawn,
    to_hex_lower, EventSummariesV1, EventSummaryV1, RunSummaryV1, SpawnListV1,
};
use openstrike::scenario::{
    CaptureV1, EventNameV1, InputFrameV1, InputTapeV1, ScenarioErrorV1, ScenarioV1, TickKindV1,
};

fn scenario(name: &str) -> ScenarioV1 {
    ScenarioV1 {
        schema: 1,
        name: name.to_string(),
        map: "m".to_string(),
        seed: 1,
        tick_rate: 60,
        max_ticks: 10,
        player_spawn: "p".to_string(),
        input_tape: "i".to_string(),
        assertions: Vec::new(),
        captures: vec![
            CaptureV1 { tick: 3, name: "a".to_string() },
            CaptureV1 { tick: 7, name: "b".to_string() },
        ],
    }
}

fn frame(tick: u32) -> InputFrameV1 {
    InputFrameV1 { tick, movement: None, look: None, actions: None }
}

#[test]
fn overrides_replace_seed_and_tick_limit_then_revalidate() {
    let run = scenario("x").apply_overrides("x", Some(9), Some(20)).unwrap();
    assert_eq!(run.seed, 9);
    assert_eq!(run.max_ticks, 20);
    let unchanged = scenario("x").apply_overrides("x", None, None).unwrap();
    assert_eq!(unchanged, scenario("x"));
    assert_eq!(
        scenario("x").apply_overrides("x", Some(0), None),
        Err(ScenarioErrorV1::ZeroSeed)
    );
    assert_eq!(
        scenario("x").apply_overrides("x", None, Some(0)),
        Err(ScenarioErrorV1::NonPositiveMaxTicksOverride)
    );
    assert_eq!(
        scenario("x").apply_overrides("x", None, Some(5)),
        Err(ScenarioErrorV1::TickExceedsMaxTicks { kind: TickKindV1::Capture, tick: 7, max_ticks: 5 })
    );
}

#[test]
fn a_scenario_requested_by_name_must_carry_that_name() {
    assert_eq!(
        scenario("x").apply_overrides("y", None, None),
        Err(ScenarioErrorV1::NameMismatch { name: "x".to_string(), requested: "y".to_string() })
    );
    assert!(scenario("x").apply_overrides("dir/y", None, None).is_ok());
    assert!(scenario("x").apply_overrides("y.json", None, None).is_ok());
}

#[test]
fn captures_are_found_by_exact_tick() {
    let s = scenario("x");
    assert_eq!(s.capture_at(7).map(|c| c.name.as_str()), Some("b"));
    assert_eq!(s.capture_at(3).map(|c| c.name.as_str()), Some("a"));
    assert!(s.capture_at(4).is_none());
}

#[test]
fn tape_must_fit_the_effective_tick_limit() {
    let tape = InputTapeV1 { schema: 1, tick_rate: 60, frames: vec![frame(0), frame(12)] };
    assert_eq!(check_tape_fits(&tape, 12), Ok(()));
    assert_eq!(
        check_tape_fits(&tape, 11),
        Err(ScenarioErrorV1::FrameExceedsMaxTicks { tick: 12, max_ticks: 11 })
    );
    let empty = InputTapeV1 { schema: 1, tick_rate: 60, frames: vec![] };
    assert_eq!(check_tape_fits(&empty, 0), Ok(()));
}

#[test]
fn event_summaries_count_and_keep_first_and_last_ticks() {
    let mut summary = EventSummaryV1::new();
    summary.record(4);
    summary.record(9);
    assert_eq!(summary, EventSummaryV1 { count: 2, first_tick: Some(4), last_tick: Some(9) });

    let mut summaries = EventSummariesV1::new();
    record_events(
        2,
        &[
            SliceEventV1::ShotFired { weapon_id: 0, ammo: 7 },
            SliceEventV1::TargetHit { target_id: 1, damage: 40, hp: 60, fatal: false },
        ],
        &mut summaries,
    );
    record_events(
        5,
        &[
            SliceEventV1::ShotFired { weapon_id: 0, ammo: 6 },
            SliceEventV1::TargetHit { target_id: 1, damage: 60, hp: 0, fatal: true },
            SliceEventV1::TargetDestroyed { target_id: 1 },
        ],
        &mut summaries,
    );
    assert_eq!(summaries.count_of(EventNameV1::ShotFired), 2);
    assert_eq!(summaries.count_of(EventNameV1::TargetDestroyed), 1);
    assert_eq!(summaries.count_of(EventNameV1::PlayerDied), 0);
    assert_eq!(
        summaries.get(EventNameV1::TargetHit),
        EventSummaryV1 { count: 2, first_tick: Some(2), last_tick: Some(5) }
    );
    assert_eq!(
        summaries.get(EventNameV1::TargetDestroyed),
        EventSummaryV1 { count: 1, first_tick: Some(5), last_tick: Some(5) }
    );
    assert_eq!(summaries.get(EventNameV1::RoundReset), EventSummaryV1::new());
}

#[test]
fn event_names_follow_the_wire_vocabulary() {
    assert_eq!(event_name(EventNameV1::ShotFired), "shotFired");
    assert_eq!(event_name(EventNameV1::TargetHit), "targetHit");
    assert_eq!(event_name(EventNameV1::TargetDestroyed), "targetDestroyed");
    assert_eq!(event_name(EventNameV1::PlayerDamaged), "playerDamaged");
    assert_eq!(event_name(EventNameV1::PlayerDied), "playerDied");
    assert_eq!(event_name(EventNameV1::RoundReset), "roundReset");
    assert_eq!(event_kind_of(&SliceEventV1::RoundReset { round: 2 }), EventNameV1::RoundReset);
    assert_eq!(
        event_kind_of(&SliceEventV1::PlayerDamaged { amount: 5, hp: 95 }),
        EventNameV1::PlayerDamaged
    );
}

#[test]
fn capture_records_hash_the_png_bytes() {
    let capture = CaptureV1 { tick: 96, name: "hit".to_string() };
    let record = capture_record(&capture, 480, 272, b"abc");
    assert_eq!(record.tick, 96);
    assert_eq!(record.width, 480);
    assert_eq!(record.height, 272);
    assert_eq!(record.filename, "hit.png");
    assert_eq!(
        record.sha256,
        "ba7816bf8f01cfea414140de5dae2223b00361a396177a9cb410ff61f20015ad"
    );
    assert_eq!(to_hex_lower(&[0x00, 0x0f, 0xa0, 0xff]), "000fa0ff");
    assert_eq!(to_hex_lower(&[]), "");
}

#[test]
fn player_start_selects_the_first_available_spawn() {
    assert_eq!(select_spawn("player_start", 2, 1), Ok(SpawnListV1::CounterTerrorist));
    assert_eq!(select_spawn("player_start", 0, 1), Ok(SpawnListV1::Terrorist));
    assert_eq!(
        select_spawn("player_start", 0, 0),
        Err(ScenarioErrorV1::NoMatchingSpawn { name: "player_start".to_string() })
    );
    assert_eq!(
        select_spawn("ct_spawn", 3, 3),
        Err(ScenarioErrorV1::NoMatchingSpawn { name: "ct_spawn".to_string() })
    );
}

#[test]
fn scenario_files_are_searched_in_order() {
    assert_eq!(
        scenario_path_candidates("slice.hit", "/repo/crates/openstrike"),
        vec![
            "test/scenarios/slice.hit.json".to_string(),
            "/repo/crates/openstrike/../../test/scenarios/slice.hit.json".to_string(),
            "local/scenarios/slice.hit.json".to_string(),
        ]
    );
    assert_eq!(scenario_path_candidates("dir/x", "/m"), vec!["dir/x".to_string()]);
    assert_eq!(scenario_path_candidates("x.json", "/m"), vec!["x.json".to_string()]);
}

#[test]
fn host_intents_and_command_tags() {
    assert_eq!(load_map_command(3), Some(HostCmd::LoadMap(3)));
    assert_eq!(load_map_command(0), Some(HostCmd::LoadMap(0)));
    assert_eq!(load_map_command(-1), None);
    assert_eq!(SliceCommandKindV1::from_tag("setPhase"), Some(SliceCommandKindV1::SetPhase));
    assert_eq!(SliceCommandKindV1::from_tag("resetRound"), Some(SliceCommandKindV1::ResetRound));
    assert_eq!(SliceCommandKindV1::from_tag("addWin"), Some(SliceCommandKindV1::AddWin));
    assert_eq!(SliceCommandKindV1::from_tag("addLoss"), Some(SliceCommandKindV1::AddLoss));
    assert_eq!(
        SliceCommandKindV1::from_tag("configureWeapon"),
        Some(SliceCommandKindV1::ConfigureWeapon)
    );
    assert_eq!(
        SliceCommandKindV1::from_tag("configureTarget"),
        Some(SliceCommandKindV1::ConfigureTarget)
    );
    assert_eq!(SliceCommandKindV1::from_tag("jump"), None);
    assert_eq!(read_u32(Some(&JsonV1::Number(JsonNumberV1::PosInt(7)))), Some(7));
    assert_eq!(read_u32(Some(&JsonV1::Number(JsonNumberV1::PosInt(4_294_967_295)))), Some(u32::MAX));
    assert_eq!(read_u32(Some(&JsonV1::Number(JsonNumberV1::PosInt(4_294_967_296)))), None);
    assert_eq!(read_u32(Some(&JsonV1::Number(JsonNumberV1::NegInt(-5)))), None);
    assert_eq!(read_u32(Some(&JsonV1::Number(JsonNumberV1::Float(3.0f64.to_bits())))), None);
    assert_eq!(read_u32(Some(&JsonV1::Text("7".to_string()))), None);
    assert_eq!(read_u32(None), None);
}

#[test]
fn boot_plan_places_target_or_bots() {
    assert_eq!(plan_boot_spawns("de_dust2", 0, 4), Err("map has no CT spawns"));
    assert_eq!(
        plan_boot_spawns("slice_test_room", 1, 1),
        Ok(BootSpawnPlanV1 { stationary_target: true, bots: BotSpawnsV1::NoBots })
    );
    assert_eq!(
        plan_boot_spawns("slice_test_room", 1, 0),
        Ok(BootSpawnPlanV1 { stationary_target: false, bots: BotSpawnsV1::CounterTerrorist })
    );
    assert_eq!(
        plan_boot_spawns("de_dust2", 2, 3),
        Ok(BootSpawnPlanV1 { stationary_target: false, bots: BotSpawnsV1::Terrorist })
    );
}

fn text(s: &str) -> JsonV1 {
    JsonV1::Text(s.to_string())
}

fn count(n: u64) -> JsonV1 {
    JsonV1::Number(JsonNumberV1::PosInt(n))
}

fn object(entries: Vec<(&str, JsonV1)>) -> JsonV1 {
    JsonV1::Object(entries.into_iter().map(|(k, v)| (k.to_string(), v)).collect())
}

fn weapon_json(damage: JsonV1) -> JsonV1 {
    object(vec![
        (
            "config",
            object(vec![
                ("damage", damage),
                ("fireIntervalTicks", count(6)),
                ("magazineCapacity", count(8)),
                ("reloadTicks", count(90)),
                ("reserveCapacity", count(24)),
            ]),
        ),
        ("type", text("configureWeapon")),
    ])
}

#[test]
fn command_batches_decode_in_order() {
    let batch = object(vec![
        ("afterTick", count(12)),
        (
            "commands",
            JsonV1::Array(vec![
                weapon_json(count(40)),
                object(vec![("phase", text("live")), ("type", text("setPhase"))]),
                object(vec![("type", text("addWin"))]),
                object(vec![
                    ("config", object(vec![("health", count(100))])),
                    ("type", text("configureTarget")),
                ]),
            ]),
        ),
        ("schema", count(1)),
    ]);
    let decoded = command_batch_from_json(&batch).unwrap();
    assert_eq!(decoded.schema, 1);
    assert_eq!(decoded.after_tick, 12);
    assert_eq!(
        decoded.commands,
        vec![
            SliceCommandV1::ConfigureWeapon(WeaponConfigV1 {
                magazine_capacity: 8,
                reserve_capacity: 24,
                fire_interval_ticks: 6,
                reload_ticks: 90,
                damage: 40,
            }),
            SliceCommandV1::SetPhase(SlicePhaseV1::Live),
            SliceCommandV1::AddWin,
            SliceCommandV1::ConfigureTarget(TargetConfigV1 { health: 100 }),
        ]
    );
    assert_eq!(decoded.validate(12), Ok(()));
}

#[test]
fn unknown_commands_and_missing_fields_are_errors() {
    assert_eq!(
        command_from_json(&object(vec![("type", text("jump"))]), 2),
        Err(CommandDecodeErrorV1::UnknownCommandType { index: 2 })
    );
    assert_eq!(
        command_from_json(&object(vec![("phase", text("menu")), ("type", text("setPhase"))]), 0),
        Err(CommandDecodeErrorV1::InvalidPhase { index: 0 })
    );
    assert_eq!(
        command_from_json(&object(vec![("type", text("setPhase"))]), 1),
        Err(CommandDecodeErrorV1::MalformedCommand { index: 1 })
    );
    assert_eq!(
        command_from_json(&weapon_json(JsonV1::Number(JsonNumberV1::NegInt(-1))), 3),
        Err(CommandDecodeErrorV1::MalformedCommand { index: 3 })
    );
    assert_eq!(
        command_from_json(&object(vec![("type", text("configureTarget"))]), 0),
        Err(CommandDecodeErrorV1::MalformedCommand { index: 0 })
    );
    assert_eq!(command_from_json(&count(3), 0), Err(CommandDecodeErrorV1::MalformedCommand { index: 0 }));
    assert_eq!(
        command_batch_from_json(&object(vec![("afterTick", count(1)), ("schema", count(1))])),
        Err(CommandDecodeErrorV1::MissingCommands)
    );
    assert_eq!(
        command_batch_from_json(&object(vec![
            ("afterTick", count(1)),
            ("commands", JsonV1::Array(vec![object(vec![("type", text("addLoss"))])])),
        ])),
        Err(CommandDecodeErrorV1::MissingSchema)
    );
    assert_eq!(
        command_batch_from_json(&object(vec![
            ("commands", JsonV1::Array(vec![])),
            ("schema", count(1)),
        ])),
        Err(CommandDecodeErrorV1::MissingAfterTick)
    );
    assert_eq!(
        command_batch_from_json(&object(vec![
            ("commands", JsonV1::Array(vec![object(vec![("type", text("addLoss"))]), count(0)])),
        ])),
        Err(CommandDecodeErrorV1::MalformedCommand { index: 1 })
    );
}

#[test]
fn overrides_are_echoed_in_key_order() {
    assert_eq!(override_echo(None, None, None), vec![]);
    assert_eq!(
        override_echo(Some(9), Some(20), Some("out/x")),
        vec![
            ("captureDir".to_string(), text("out/x")),
            ("maxTicks".to_string(), count(20)),
            ("seed".to_string(), count(9)),
        ]
    );
    assert_eq!(override_echo(Some(3), None, None), vec![("seed".to_string(), count(3))]);
}

#[test]
fn run_summaries_report_verdict_and_effective_inputs() {
    let s = scenario("x");
    assert_eq!(
        run_summary(&s, 0),
        RunSummaryV1 { passed: true, seed: 1, ticks_run: 10, gpu_initialized: true }
    );
    let mut plain = scenario("x");
    plain.captures.clear();
    assert_eq!(
        run_summary(&plain, 2),
        RunSummaryV1 { passed: false, seed: 1, ticks_run: 10, gpu_initialized: false }
    );
    assert_eq!(
        failed_summary(Some(7)),
        RunSummaryV1 { passed: false, seed: 7, ticks_run: 0, gpu_initialized: false }
    );
    assert_eq!(failed_summary(None).seed, 0);
}
