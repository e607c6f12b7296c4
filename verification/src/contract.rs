//! Versioned guest/native wire contract for the first vertical slice.
//!
//! Validation lives here so that every host rejects the same payloads.
//! Platform adapters only translate these values to and from their script
//! engine's API.

use vstd::prelude::*;
use vstd::std_specs::convert::FromSpecImpl;

use crate::text::str_eq;

verus! {

pub const SLICE_SCHEMA_V1: u32 = 1;

pub const MAX_FACT_SCALARS_V1: usize = 24;

pub const MAX_EVENTS_V1: usize = 16;

pub const MAX_COMMANDS_V1: usize = 8;

pub const TICK_RATE_V1: u32 = 60;

pub const FACT_PATHS_V1: [&'static str; 15] = [
    "schema",
    "tick",
    "seed",
    "phase",
    "player.hp",
    "player.alive",
    "player.speedQ",
    "weapon.ammo",
    "weapon.reserve",
    "weapon.reloading",
    "weapon.reloadTicksRemaining",
    "targets.alive",
    "targets.total",
    "score.wins",
    "score.losses",
];

/// Round phase as published on the wire.
#[derive(Clone, Copy, Debug, PartialEq, Eq, Structural)]
pub enum SlicePhaseV1 {
    Starting,
    Live,
    Won,
    Lost,
}

/// Round phase as the simulation holds it.
#[derive(Clone, Copy, Debug, PartialEq, Eq, Structural)]
pub enum Phase {
    Starting,
    Live,
    Ended { won: bool },
}

/// The wire name of a phase.
pub open spec fn phase_wire_name(phase: SlicePhaseV1) -> Seq<char> {
    match phase {
        SlicePhaseV1::Starting => "starting"@,
        SlicePhaseV1::Live => "live"@,
        SlicePhaseV1::Won => "won"@,
        SlicePhaseV1::Lost => "lost"@,
    }
}

/// The phase whose wire name is `name`, if any.
pub open spec fn phase_from_wire_name(name: Seq<char>) -> Result<SlicePhaseV1, ContractErrorV1> {
    if name == "starting"@ {
        Ok(SlicePhaseV1::Starting)
    } else if name == "live"@ {
        Ok(SlicePhaseV1::Live)
    } else if name == "won"@ {
        Ok(SlicePhaseV1::Won)
    } else if name == "lost"@ {
        Ok(SlicePhaseV1::Lost)
    } else {
        Err(ContractErrorV1::UnknownPhase)
    }
}

pub open spec fn wire_phase_of(phase: Phase) -> SlicePhaseV1 {
    match phase {
        Phase::Starting => SlicePhaseV1::Starting,
        Phase::Live => SlicePhaseV1::Live,
        Phase::Ended { won } => if won {
            SlicePhaseV1::Won
        } else {
            SlicePhaseV1::Lost
        },
    }
}

pub open spec fn sim_phase_of(phase: SlicePhaseV1) -> Phase {
    match phase {
        SlicePhaseV1::Starting => Phase::Starting,
        SlicePhaseV1::Live => Phase::Live,
        SlicePhaseV1::Won => Phase::Ended { won: true },
        SlicePhaseV1::Lost => Phase::Ended { won: false },
    }
}

impl SlicePhaseV1 {
    pub fn wire_name(self) -> (name: &'static str)
        ensures
            name@ == phase_wire_name(self),
    {
        match self {
            SlicePhaseV1::Starting => "starting",
            SlicePhaseV1::Live => "live",
            SlicePhaseV1::Won => "won",
            SlicePhaseV1::Lost => "lost",
        }
    }

    pub fn from_wire_name(name: &str) -> (r: Result<SlicePhaseV1, ContractErrorV1>)
        ensures
            r == phase_from_wire_name(name@),
    {
        if str_eq(name, "starting") {
            Ok(SlicePhaseV1::Starting)
        } else if str_eq(name, "live") {
            Ok(SlicePhaseV1::Live)
        } else if str_eq(name, "won") {
            Ok(SlicePhaseV1::Won)
        } else if str_eq(name, "lost") {
            Ok(SlicePhaseV1::Lost)
        } else {
            Err(ContractErrorV1::UnknownPhase)
        }
    }
}

impl From<Phase> for SlicePhaseV1 {
    fn from(phase: Phase) -> (r: SlicePhaseV1) {
        match phase {
            Phase::Starting => SlicePhaseV1::Starting,
            Phase::Live => SlicePhaseV1::Live,
            Phase::Ended { won: true } => SlicePhaseV1::Won,
            Phase::Ended { won: false } => SlicePhaseV1::Lost,
        }
    }
}

impl FromSpecImpl<Phase> for SlicePhaseV1 {
    open spec fn obeys_from_spec() -> bool {
        true
    }

    open spec fn from_spec(phase: Phase) -> SlicePhaseV1 {
        wire_phase_of(phase)
    }
}

impl From<SlicePhaseV1> for Phase {
    fn from(phase: SlicePhaseV1) -> (r: Phase) {
        match phase {
            SlicePhaseV1::Starting => Phase::Starting,
            SlicePhaseV1::Live => Phase::Live,
            SlicePhaseV1::Won => Phase::Ended { won: true },
            SlicePhaseV1::Lost => Phase::Ended { won: false },
        }
    }
}

impl FromSpecImpl<SlicePhaseV1> for Phase {
    open spec fn obeys_from_spec() -> bool {
        true
    }

    open spec fn from_spec(phase: SlicePhaseV1) -> Phase {
        sim_phase_of(phase)
    }
}

} // verus!
verus! {

#[derive(Clone, Copy, Debug, PartialEq, Eq, Structural)]
pub struct PlayerFactsV1 {
    pub hp: i32,
    pub alive: bool,
    pub speed_q: i32,
}

#[derive(Clone, Copy, Debug, PartialEq, Eq, Structural)]
pub struct WeaponFactsV1 {
    pub ammo: u32,
    pub reserve: u32,
    pub reloading: bool,
    pub reload_ticks_remaining: u32,
}

#[derive(Clone, Copy, Debug, PartialEq, Eq, Structural)]
pub struct TargetFactsV1 {
    pub alive: u32,
    pub total: u32,
}

#[derive(Clone, Copy, Debug, PartialEq, Eq, Structural)]
pub struct ScoreFactsV1 {
    pub wins: u32,
    pub losses: u32,
}

/// The per-tick facts snapshot published to the guest.
#[derive(Clone, Copy, Debug, PartialEq, Eq, Structural)]
pub struct SliceFactsV1 {
    pub schema: u32,
    pub tick: u32,
    pub seed: u32,
    pub phase: SlicePhaseV1,
    pub player: PlayerFactsV1,
    pub weapon: WeaponFactsV1,
    pub targets: TargetFactsV1,
    pub score: ScoreFactsV1,
}

/// The outcome of the shared schema gate.
pub open spec fn schema_result(schema: u32) -> Result<(), ContractErrorV1> {
    if schema == SLICE_SCHEMA_V1 {
        Ok(())
    } else {
        Err(ContractErrorV1::UnsupportedSchema)
    }
}

/// The outcome of validating a facts snapshot.
pub open spec fn facts_result(facts: SliceFactsV1) -> Result<(), ContractErrorV1> {
    if facts.schema != SLICE_SCHEMA_V1 {
        Err(ContractErrorV1::UnsupportedSchema)
    } else if SliceFactsV1::SCALAR_LEAVES > MAX_FACT_SCALARS_V1 {
        Err(ContractErrorV1::TooManyFactScalars)
    } else if facts.player.hp < 0 || facts.targets.alive > facts.targets.total {
        Err(ContractErrorV1::InvalidFacts)
    } else {
        Ok(())
    }
}

impl SliceFactsV1 {
    /// Number of scalar leaves in the canonical nested wire representation.
    pub const SCALAR_LEAVES: usize = 15;

    pub fn validate(&self) -> (r: Result<(), ContractErrorV1>)
        ensures
            r == facts_result(*self),
    {
        require_schema(self.schema)?;
        if Self::SCALAR_LEAVES > MAX_FACT_SCALARS_V1 {
            return Err(ContractErrorV1::TooManyFactScalars);
        }
        if self.player.hp < 0 || self.targets.alive > self.targets.total {
            return Err(ContractErrorV1::InvalidFacts);
        }
        Ok(())
    }
}

/// Every leaf of the facts snapshot has a documented path, within the
/// per-tick scalar budget.
pub proof fn fact_leaves_fit_budget()
    ensures
        SliceFactsV1::SCALAR_LEAVES == FACT_PATHS_V1@.len(),
        SliceFactsV1::SCALAR_LEAVES <= MAX_FACT_SCALARS_V1,
{
}

/// One event produced by a simulation tick.
#[derive(Clone, Copy, Debug, PartialEq, Eq, Structural)]
pub enum SliceEventV1 {
    ShotFired { weapon_id: u32, ammo: u32 },
    TargetHit { target_id: u32, damage: u32, hp: u32, fatal: bool },
    TargetDestroyed { target_id: u32 },
    PlayerDamaged { amount: u32, hp: u32 },
    PlayerDied,
    RoundReset { round: u32 },
}

#[derive(Clone, Copy, Debug, PartialEq, Eq, Structural)]
pub struct WeaponConfigV1 {
    pub magazine_capacity: u32,
    pub reserve_capacity: u32,
    pub fire_interval_ticks: u32,
    pub reload_ticks: u32,
    pub damage: u32,
}

/// The ranges in which a weapon configuration is accepted.
pub open spec fn weapon_config_valid(config: WeaponConfigV1) -> bool {
    &&& 1 <= config.magazine_capacity <= 1_024
    &&& config.reserve_capacity <= 65_535
    &&& 1 <= config.fire_interval_ticks <= 3_600
    &&& config.reload_ticks <= 36_000
    &&& 1 <= config.damage <= 1_000_000
}

impl WeaponConfigV1 {
    pub fn validate(&self) -> (r: Result<(), ContractErrorV1>)
        ensures
            r == (if weapon_config_valid(*self) {
                Ok(())
            } else {
                Err(ContractErrorV1::InvalidWeaponConfig)
            }),
    {
        if self.magazine_capacity == 0 || self.magazine_capacity > 1_024
            || self.reserve_capacity > 65_535 || self.fire_interval_ticks == 0
            || self.fire_interval_ticks > 3_600 || self.reload_ticks > 36_000
            || self.damage == 0 || self.damage > 1_000_000 {
            return Err(ContractErrorV1::InvalidWeaponConfig);
        }
        Ok(())
    }
}

#[derive(Clone, Copy, Debug, PartialEq, Eq, Structural)]
pub struct TargetConfigV1 {
    pub health: u32,
}

/// The range in which a target configuration is accepted.
pub open spec fn target_config_valid(config: TargetConfigV1) -> bool {
    1 <= config.health <= 1_000_000
}

impl TargetConfigV1 {
    pub fn validate(&self) -> (r: Result<(), ContractErrorV1>)
        ensures
            r == (if target_config_valid(*self) {
                Ok(())
            } else {
                Err(ContractErrorV1::InvalidTargetConfig)
            }),
    {
        if self.health == 0 || self.health > 1_000_000 {
            Err(ContractErrorV1::InvalidTargetConfig)
        } else {
            Ok(())
        }
    }
}

/// One policy command returned by the guest.
#[derive(Clone, Copy, Debug, PartialEq, Eq, Structural)]
pub enum SliceCommandV1 {
    SetPhase(SlicePhaseV1),
    ResetRound,
    AddWin,
    AddLoss,
    ConfigureWeapon(WeaponConfigV1),
    ConfigureTarget(TargetConfigV1),
}

/// The outcome of validating one command.
pub open spec fn command_result(command: SliceCommandV1) -> Result<(), ContractErrorV1> {
    match command {
        SliceCommandV1::ConfigureWeapon(config) => if weapon_config_valid(config) {
            Ok(())
        } else {
            Err(ContractErrorV1::InvalidWeaponConfig)
        },
        SliceCommandV1::ConfigureTarget(config) => if target_config_valid(config) {
            Ok(())
        } else {
            Err(ContractErrorV1::InvalidTargetConfig)
        },
        _ => Ok(()),
    }
}

impl SliceCommandV1 {
    pub fn validate(&self) -> (r: Result<(), ContractErrorV1>)
        ensures
            r == command_result(*self),
    {
        match self {
            SliceCommandV1::ConfigureWeapon(config) => config.validate(),
            SliceCommandV1::ConfigureTarget(config) => config.validate(),
            _ => Ok(()),
        }
    }
}

/// The error of the first invalid command, in order, or `Ok` when every
/// command is valid.
pub open spec fn commands_result(commands: Seq<SliceCommandV1>) -> Result<(), ContractErrorV1>
    decreases commands.len(),
{
    if commands.len() == 0 {
        Ok(())
    } else if command_result(commands[0]) is Err {
        command_result(commands[0])
    } else {
        commands_result(commands.drop_first())
    }
}

/// The ordered command batch the guest returns after tick `after_tick`.
#[derive(Clone, Debug, PartialEq, Eq)]
pub struct SliceCommandBatchV1 {
    pub schema: u32,
    pub after_tick: u32,
    pub commands: Vec<SliceCommandV1>,
}

/// The outcome of validating a command batch against the published tick.
pub open spec fn batch_result(
    schema: u32,
    after_tick: u32,
    commands: Seq<SliceCommandV1>,
    published_tick: u32,
) -> Result<(), ContractErrorV1> {
    if schema != SLICE_SCHEMA_V1 {
        Err(ContractErrorV1::UnsupportedSchema)
    } else if after_tick != published_tick {
        Err(ContractErrorV1::WrongCommandTick)
    } else if commands.len() > MAX_COMMANDS_V1 {
        Err(ContractErrorV1::TooManyCommands)
    } else {
        commands_result(commands)
    }
}

proof fn lemma_commands_result_skip(commands: Seq<SliceCommandV1>, i: int)
    requires
        0 <= i < commands.len(),
        command_result(commands[i]) is Ok,
    ensures
        commands_result(commands.skip(i)) == commands_result(commands.skip(i + 1)),
{
    assert(commands.skip(i).drop_first() =~= commands.skip(i + 1));
}

impl SliceCommandBatchV1 {
    pub fn validate(&self, published_tick: u32) -> (r: Result<(), ContractErrorV1>)
        ensures
            r == batch_result(self.schema, self.after_tick, self.commands@, published_tick),
    {
        require_schema(self.schema)?;
        if self.after_tick != published_tick {
            return Err(ContractErrorV1::WrongCommandTick);
        }
        if self.commands.len() > MAX_COMMANDS_V1 {
            return Err(ContractErrorV1::TooManyCommands);
        }
        let n = self.commands.len();
        assert(self.commands@.skip(0) =~= self.commands@);
        for i in 0..n
            invariant
                n == self.commands@.len(),
                self.schema == SLICE_SCHEMA_V1,
                self.after_tick == published_tick,
                n <= MAX_COMMANDS_V1,
                commands_result(self.commands@) == commands_result(self.commands@.skip(i as int)),
        {
            let command = self.commands[i];
            assert(self.commands@.skip(i as int)[0] == self.commands@[i as int]);
            match command.validate() {
                Err(e) => {
                    return Err(e);
                },
                Ok(()) => {
                    proof {
                        lemma_commands_result_skip(self.commands@, i as int);
                    }
                },
            }
        }
        assert(self.commands@.skip(n as int) =~= Seq::<SliceCommandV1>::empty());
        Ok(())
    }
}

/// The outcome of gating one tick's event batch.
pub open spec fn event_batch_result(schema: u32, event_count: int) -> Result<(), ContractErrorV1> {
    if schema != SLICE_SCHEMA_V1 {
        Err(ContractErrorV1::UnsupportedSchema)
    } else if event_count > MAX_EVENTS_V1 {
        Err(ContractErrorV1::TooManyEvents)
    } else {
        Ok(())
    }
}

pub fn validate_event_batch_v1(schema: u32, events: &[SliceEventV1]) -> (r: Result<
    (),
    ContractErrorV1,
>)
    ensures
        r == event_batch_result(schema, events@.len() as int),
{
    require_schema(schema)?;
    if events.len() > MAX_EVENTS_V1 {
        Err(ContractErrorV1::TooManyEvents)
    } else {
        Ok(())
    }
}

fn require_schema(schema: u32) -> (r: Result<(), ContractErrorV1>)
    ensures
        r == schema_result(schema),
{
    if schema == SLICE_SCHEMA_V1 {
        Ok(())
    } else {
        Err(ContractErrorV1::UnsupportedSchema)
    }
}

/// Wire names round-trip: parsing the wire name of any phase gives that
/// phase back.
pub proof fn phase_wire_name_round_trips(phase: SlicePhaseV1)
    ensures
        phase_from_wire_name(phase_wire_name(phase)) == Ok::<SlicePhaseV1, ContractErrorV1>(phase),
{
    reveal_strlit("starting");
    reveal_strlit("live");
    reveal_strlit("won");
    reveal_strlit("lost");
    assert("starting"@.len() == 8 && "live"@.len() == 4 && "won"@.len() == 3 && "lost"@.len() == 4);
    assert("live"@ != "starting"@ && "won"@ != "starting"@ && "lost"@ != "starting"@);
    assert("won"@ != "live"@);
    assert("lost"@[1] != "live"@[1]);
    assert("lost"@ != "won"@);
}

/// The phase vocabulary is closed: a name is accepted only when it is the
/// wire name of the phase it parses to, and every other name is refused
/// with `UnknownPhase`.
pub proof fn phase_wire_names_are_closed(name: Seq<char>)
    ensures
        match phase_from_wire_name(name) {
            Ok(phase) => phase_wire_name(phase) == name,
            Err(e) => e == ContractErrorV1::UnknownPhase && forall|phase: SlicePhaseV1|
                phase_wire_name(phase) != name,
        },
{
}

/// Converting a simulation phase to its wire phase and back is the identity,
/// and so is the converse.
pub proof fn phase_conversions_round_trip(phase: Phase, wire: SlicePhaseV1)
    ensures
        sim_phase_of(wire_phase_of(phase)) == phase,
        wire_phase_of(sim_phase_of(wire)) == wire,
{
}

/// Each conversion keeps the phase it names: a round that has not started
/// is published as `starting`, a running one as `live`, and an ended round
/// as `won` or `lost` by its outcome; and back again.
pub proof fn phase_conversions_keep_the_phase()
    ensures
        wire_phase_of(Phase::Starting) == SlicePhaseV1::Starting,
        wire_phase_of(Phase::Live) == SlicePhaseV1::Live,
        wire_phase_of(Phase::Ended { won: true }) == SlicePhaseV1::Won,
        wire_phase_of(Phase::Ended { won: false }) == SlicePhaseV1::Lost,
        sim_phase_of(SlicePhaseV1::Starting) == Phase::Starting,
        sim_phase_of(SlicePhaseV1::Live) == Phase::Live,
        sim_phase_of(SlicePhaseV1::Won) == (Phase::Ended { won: true }),
        sim_phase_of(SlicePhaseV1::Lost) == (Phase::Ended { won: false }),
        phase_wire_name(wire_phase_of(Phase::Starting)) == "starting"@,
        phase_wire_name(wire_phase_of(Phase::Live)) == "live"@,
        phase_wire_name(wire_phase_of(Phase::Ended { won: true })) == "won"@,
        phase_wire_name(wire_phase_of(Phase::Ended { won: false })) == "lost"@,
{
}

/// A facts snapshot is accepted exactly when it carries the current schema,
/// the player's health is not negative, and no more targets are alive than
/// exist: any alive count from zero up to the total is accepted. A current
/// schema with negative health or too many live targets is `InvalidFacts`.
pub proof fn facts_accepted_iff_consistent(facts: SliceFactsV1)
    ensures
        facts_result(facts) is Ok <==> (facts.schema == SLICE_SCHEMA_V1 && facts.player.hp >= 0
            && facts.targets.alive <= facts.targets.total),
        facts.schema != SLICE_SCHEMA_V1 ==> facts_result(facts) == Err::<(), ContractErrorV1>(
            ContractErrorV1::UnsupportedSchema,
        ),
        facts.schema == SLICE_SCHEMA_V1 && (facts.player.hp < 0 || facts.targets.alive
            > facts.targets.total) ==> facts_result(facts) == Err::<(), ContractErrorV1>(
            ContractErrorV1::InvalidFacts,
        ),
{
}

proof fn lemma_commands_result_ok(commands: Seq<SliceCommandV1>)
    ensures
        commands_result(commands) is Ok <==> forall|i: int|
            0 <= i < commands.len() ==> #[trigger] command_result(commands[i]) is Ok,
    decreases commands.len(),
{
    if commands.len() > 0 {
        lemma_commands_result_ok(commands.drop_first());
        assert forall|i: int| 1 <= i < commands.len() implies #[trigger] commands[i]
            == commands.drop_first()[i - 1] by {}
        if commands_result(commands) is Ok {
            assert forall|i: int| 0 <= i < commands.len() implies #[trigger] command_result(
                commands[i],
            ) is Ok by {
                if i > 0 {
                    assert(commands[i] == commands.drop_first()[i - 1]);
                }
            }
        }
        if forall|i: int| 0 <= i < commands.len() ==> #[trigger] command_result(commands[i]) is Ok {
            assert forall|i: int| 0 <= i < commands.drop_first().len() implies #[trigger] command_result(
                commands.drop_first()[i],
            ) is Ok by {
                assert(commands.drop_first()[i] == commands[i + 1]);
            }
        }
    }
}

/// A command batch is accepted exactly when it carries the current schema,
/// is tagged with the tick that was just published, stays within the
/// command limit, and every one of its commands is valid; nothing is
/// clamped or dropped to make it pass.
pub proof fn batch_accepted_iff_every_gate_passes(
    schema: u32,
    after_tick: u32,
    commands: Seq<SliceCommandV1>,
    published_tick: u32,
)
    ensures
        batch_result(schema, after_tick, commands, published_tick) is Ok <==> {
            &&& schema == SLICE_SCHEMA_V1
            &&& after_tick == published_tick
            &&& commands.len() <= MAX_COMMANDS_V1
            &&& forall|i: int| 0 <= i < commands.len() ==> #[trigger] command_result(commands[i]) is Ok
        },
{
    lemma_commands_result_ok(commands);
}

#[derive(Clone, Copy, Debug, PartialEq, Eq, Structural)]
pub enum ContractErrorV1 {
    UnsupportedSchema,
    UnknownPhase,
    TooManyFactScalars,
    TooManyEvents,
    TooManyCommands,
    WrongCommandTick,
    InvalidFacts,
    InvalidWeaponConfig,
    InvalidTargetConfig,
}

} // verus!
