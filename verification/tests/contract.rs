use openstrike::contract::{
    validate_event_batch_v1, ContractErrorV1, Phase, PlayerFactsV1, ScoreFactsV1,
    SliceCommandBatchV1, SliceCommandV1, SliceEventV1, SliceFactsV1, SlicePhaseV1,
    TargetConfigV1, TargetFactsV1, WeaponConfigV1, WeaponFactsV1, FACT_PATHS_V1,
    MAX_COMMANDS_V1, MAX_EVENTS_V1, MAX_FACT_SCALARS_V1, SLICE_SCHEMA_V1, TICK_RATE_V1,
};

fn weapon() -> WeaponConfigV1 {
    WeaponConfigV1 {
        magazine_capacity: 8,
        reserve_capacity: 24,
        fire_interval_ticks: 6,
        reload_ticks: 90,
        damage: 40,
    }
}

fn facts() -> SliceFactsV1 {
    SliceFactsV1 {
        schema: SLICE_SCHEMA_V1,
        tick: 5,
        seed: 1,
        phase: SlicePhaseV1::Live,
        player: PlayerFactsV1 { hp: 100, alive: true, speed_q: 0 },
        weapon: WeaponFactsV1 { ammo: 8, reserve: 24, reloading: false, reload_ticks_remaining: 0 },
        targets: TargetFactsV1 { alive: 1, total: 1 },
        score: ScoreFactsV1 { wins: 0, losses: 0 },
    }
}

#[test]
fn phase_wire_names_are_closed_and_round_trip() {
    for phase in [
        SlicePhaseV1::Starting,
        SlicePhaseV1::Live,
        SlicePhaseV1::Won,
        SlicePhaseV1::Lost,
    ] {
        assert_eq!(SlicePhaseV1::from_wire_name(phase.wire_name()), Ok(phase));
    }
    assert_eq!(
        SlicePhaseV1::from_wire_name("menu"),
        Err(ContractErrorV1::UnknownPhase)
    );
    assert_eq!(
        Phase::from(SlicePhaseV1::from(Phase::Ended { won: true })),
        Phase::Ended { won: true }
    );
}

#[test]
fn command_batch_preserves_order_and_tick_causality() {
    let commands = vec![
        SliceCommandV1::ConfigureWeapon(weapon()),
        SliceCommandV1::SetPhase(SlicePhaseV1::Live),
        SliceCommandV1::AddWin,
    ];
    let batch = SliceCommandBatchV1 {
        schema: SLICE_SCHEMA_V1,
        after_tick: 12,
        commands: commands.clone(),
    };
    assert_eq!(batch.validate(12), Ok(()));
    assert_eq!(batch.commands, commands);
    assert_eq!(batch.validate(11), Err(ContractErrorV1::WrongCommandTick));
}

#[test]
fn limits_and_configurations_fail_instead_of_clamping() {
    let oversized = SliceCommandBatchV1 {
        schema: SLICE_SCHEMA_V1,
        after_tick: 0,
        commands: vec![SliceCommandV1::ResetRound; MAX_COMMANDS_V1 + 1],
    };
    assert_eq!(oversized.validate(0), Err(ContractErrorV1::TooManyCommands));

    let mut invalid = weapon();
    invalid.fire_interval_ticks = 0;
    assert_eq!(
        invalid.validate(),
        Err(ContractErrorV1::InvalidWeaponConfig)
    );
    assert_eq!(
        TargetConfigV1 { health: 0 }.validate(),
        Err(ContractErrorV1::InvalidTargetConfig)
    );
}

#[test]
fn schema_and_event_limit_are_shared_host_gates() {
    assert_eq!(SliceFactsV1::SCALAR_LEAVES, 15);
    assert!(FACT_PATHS_V1.len() <= MAX_FACT_SCALARS_V1);
    let events = vec![SliceEventV1::PlayerDied; MAX_EVENTS_V1];
    assert_eq!(validate_event_batch_v1(SLICE_SCHEMA_V1, &events), Ok(()));
    assert_eq!(
        validate_event_batch_v1(SLICE_SCHEMA_V1 + 1, &events),
        Err(ContractErrorV1::UnsupportedSchema)
    );
    let too_many = vec![SliceEventV1::PlayerDied; MAX_EVENTS_V1 + 1];
    assert_eq!(
        validate_event_batch_v1(SLICE_SCHEMA_V1, &too_many),
        Err(ContractErrorV1::TooManyEvents)
    );
}

#[test]
fn wire_names_are_exact() {
    assert_eq!(SlicePhaseV1::Starting.wire_name(), "starting");
    assert_eq!(SlicePhaseV1::Live.wire_name(), "live");
    assert_eq!(SlicePhaseV1::Won.wire_name(), "won");
    assert_eq!(SlicePhaseV1::Lost.wire_name(), "lost");
    assert_eq!(SlicePhaseV1::from_wire_name("Live"), Err(ContractErrorV1::UnknownPhase));
    assert_eq!(SlicePhaseV1::from_wire_name(""), Err(ContractErrorV1::UnknownPhase));
    assert_eq!(SlicePhaseV1::from_wire_name("lives"), Err(ContractErrorV1::UnknownPhase));
}

#[test]
fn phase_conversions_round_trip_both_ways() {
    for phase in [
        Phase::Starting,
        Phase::Live,
        Phase::Ended { won: true },
        Phase::Ended { won: false },
    ] {
        assert_eq!(Phase::from(SlicePhaseV1::from(phase)), phase);
    }
    assert_eq!(SlicePhaseV1::from(Phase::Ended { won: false }), SlicePhaseV1::Lost);
    assert_eq!(Phase::from(SlicePhaseV1::Won), Phase::Ended { won: true });
}

#[test]
fn facts_validation_checks_schema_health_and_target_counts() {
    assert_eq!(facts().validate(), Ok(()));
    let mut wrong_schema = facts();
    wrong_schema.schema = 2;
    assert_eq!(wrong_schema.validate(), Err(ContractErrorV1::UnsupportedSchema));
    let mut dead = facts();
    dead.player.hp = -1;
    assert_eq!(dead.validate(), Err(ContractErrorV1::InvalidFacts));
    let mut zero_hp = facts();
    zero_hp.player.hp = 0;
    assert_eq!(zero_hp.validate(), Ok(()));
    let mut extra_targets = facts();
    extra_targets.targets = TargetFactsV1 { alive: 2, total: 1 };
    assert_eq!(extra_targets.validate(), Err(ContractErrorV1::InvalidFacts));
}

#[test]
fn weapon_and_target_bounds_are_inclusive() {
    let max = WeaponConfigV1 {
        magazine_capacity: 1_024,
        reserve_capacity: 65_535,
        fire_interval_ticks: 3_600,
        reload_ticks: 36_000,
        damage: 1_000_000,
    };
    assert_eq!(max.validate(), Ok(()));
    let min = WeaponConfigV1 {
        magazine_capacity: 1,
        reserve_capacity: 0,
        fire_interval_ticks: 1,
        reload_ticks: 0,
        damage: 1,
    };
    assert_eq!(min.validate(), Ok(()));
    for over in [
        WeaponConfigV1 { magazine_capacity: 1_025, ..max },
        WeaponConfigV1 { reserve_capacity: 65_536, ..max },
        WeaponConfigV1 { fire_interval_ticks: 3_601, ..max },
        WeaponConfigV1 { reload_ticks: 36_001, ..max },
        WeaponConfigV1 { damage: 1_000_001, ..max },
        WeaponConfigV1 { damage: 0, ..min },
        WeaponConfigV1 { magazine_capacity: 0, ..min },
    ] {
        assert_eq!(over.validate(), Err(ContractErrorV1::InvalidWeaponConfig));
    }
    assert_eq!(TargetConfigV1 { health: 1_000_000 }.validate(), Ok(()));
    assert_eq!(TargetConfigV1 { health: 1 }.validate(), Ok(()));
    assert_eq!(
        TargetConfigV1 { health: 1_000_001 }.validate(),
        Err(ContractErrorV1::InvalidTargetConfig)
    );
}

#[test]
fn batch_reports_gates_in_order_and_first_invalid_command() {
    let batch = SliceCommandBatchV1 {
        schema: 2,
        after_tick: 3,
        commands: vec![SliceCommandV1::ResetRound; MAX_COMMANDS_V1 + 1],
    };
    assert_eq!(batch.validate(4), Err(ContractErrorV1::UnsupportedSchema));
    let batch = SliceCommandBatchV1 { schema: SLICE_SCHEMA_V1, ..batch };
    assert_eq!(batch.validate(4), Err(ContractErrorV1::WrongCommandTick));
    let mut bad_weapon = weapon();
    bad_weapon.damage = 0;
    let mixed = SliceCommandBatchV1 {
        schema: SLICE_SCHEMA_V1,
        after_tick: 4,
        commands: vec![
            SliceCommandV1::AddLoss,
            SliceCommandV1::ConfigureTarget(TargetConfigV1 { health: 0 }),
            SliceCommandV1::ConfigureWeapon(bad_weapon),
        ],
    };
    assert_eq!(mixed.validate(4), Err(ContractErrorV1::InvalidTargetConfig));
    let exactly_limit = SliceCommandBatchV1 {
        schema: SLICE_SCHEMA_V1,
        after_tick: 0,
        commands: vec![SliceCommandV1::AddWin; MAX_COMMANDS_V1],
    };
    assert_eq!(exactly_limit.validate(0), Ok(()));
    assert_eq!(
        SliceCommandV1::ConfigureWeapon(bad_weapon).validate(),
        Err(ContractErrorV1::InvalidWeaponConfig)
    );
    assert_eq!(SliceCommandV1::SetPhase(SlicePhaseV1::Won).validate(), Ok(()));
}

#[test]
fn shared_constants_match_the_slice_budget() {
    assert_eq!(SLICE_SCHEMA_V1, 1);
    assert_eq!(TICK_RATE_V1, 60);
    assert_eq!(MAX_FACT_SCALARS_V1, 24);
    assert_eq!(MAX_EVENTS_V1, 16);
    assert_eq!(MAX_COMMANDS_V1, 8);
    assert_eq!(FACT_PATHS_V1.len(), SliceFactsV1::SCALAR_LEAVES);
    assert_eq!(FACT_PATHS_V1[4], "player.hp");
}
