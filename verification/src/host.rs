//! Decisions the platform hosts make around the guest surface: lifecycle
//! intents, the command vocabulary, integer reads and world boot spawns.

use vstd::prelude::*;

use crate::contract::{
    phase_from_wire_name, SliceCommandBatchV1, SliceCommandV1, SlicePhaseV1, TargetConfigV1,
    WeaponConfigV1,
};
use crate::json::{field, json_field, JsonNumberV1, JsonV1};
use crate::text::str_eq;

verus! {

/// Host-level intents (world lifecycle, not simulation), queued like
/// commands and drained by the frame loop after present.
#[derive(Clone, Copy, Debug, PartialEq, Eq, Structural)]
pub enum HostCmd {
    LoadMap(usize),
    ToMenu,
}

/// The intent of `strike.loadMap(i)`: a non-negative index loads that map,
/// a negative one is ignored.
pub fn load_map_command(index: i32) -> (r: Option<HostCmd>)
    ensures
        index >= 0 ==> r == Some(HostCmd::LoadMap(index as usize)),
        index < 0 ==> r == None::<HostCmd>,
{
    if index >= 0 {
        Some(HostCmd::LoadMap(index as usize))
    } else {
        None
    }
}

/// The `type` tags of guest commands.
#[derive(Clone, Copy, Debug, PartialEq, Eq, Structural)]
pub enum SliceCommandKindV1 {
    SetPhase,
    ResetRound,
    AddWin,
    AddLoss,
    ConfigureWeapon,
    ConfigureTarget,
}

/// The command kind whose `type` tag is `tag`, if any.
pub open spec fn command_kind_from_tag(tag: Seq<char>) -> Option<SliceCommandKindV1> {
    if tag == "setPhase"@ {
        Some(SliceCommandKindV1::SetPhase)
    } else if tag == "resetRound"@ {
        Some(SliceCommandKindV1::ResetRound)
    } else if tag == "addWin"@ {
        Some(SliceCommandKindV1::AddWin)
    } else if tag == "addLoss"@ {
        Some(SliceCommandKindV1::AddLoss)
    } else if tag == "configureWeapon"@ {
        Some(SliceCommandKindV1::ConfigureWeapon)
    } else if tag == "configureTarget"@ {
        Some(SliceCommandKindV1::ConfigureTarget)
    } else {
        None
    }
}

impl SliceCommandKindV1 {
    /// Classify a guest command by its `type` tag; unknown tags are refused.
    pub fn from_tag(tag: &str) -> (r: Option<SliceCommandKindV1>)
        ensures
            r == command_kind_from_tag(tag@),
    {
        if str_eq(tag, "setPhase") {
            Some(SliceCommandKindV1::SetPhase)
        } else if str_eq(tag, "resetRound") {
            Some(SliceCommandKindV1::ResetRound)
        } else if str_eq(tag, "addWin") {
            Some(SliceCommandKindV1::AddWin)
        } else if str_eq(tag, "addLoss") {
            Some(SliceCommandKindV1::AddLoss)
        } else if str_eq(tag, "configureWeapon") {
            Some(SliceCommandKindV1::ConfigureWeapon)
        } else if str_eq(tag, "configureTarget") {
            Some(SliceCommandKindV1::ConfigureTarget)
        } else {
            None
        }
    }
}

/// Where bots come from when a world boots.
#[derive(Clone, Copy, Debug, PartialEq, Eq, Structural)]
pub enum BotSpawnsV1 {
    NoBots,
    CounterTerrorist,
    Terrorist,
}

/// How a world boots from a cooked map: the player at the first
/// counter-terrorist spawn, a stationary target at the first terrorist
/// spawn of the test room, and bots otherwise.
#[derive(Clone, Copy, Debug, PartialEq, Eq, Structural)]
pub struct BootSpawnPlanV1 {
    /// The stationary target stands at the first terrorist spawn.
    pub stationary_target: bool,
    pub bots: BotSpawnsV1,
}

/// The boot plan for a map named `map_name` with the given spawn counts.
pub open spec fn boot_plan(map_name: Seq<char>, ct_spawns: nat, t_spawns: nat) -> Result<
    BootSpawnPlanV1,
    &'static str,
> {
    if ct_spawns == 0 {
        Err("map has no CT spawns")
    } else if map_name == "slice_test_room"@ && t_spawns > 0 {
        Ok(BootSpawnPlanV1 { stationary_target: true, bots: BotSpawnsV1::NoBots })
    } else if t_spawns == 0 {
        Ok(BootSpawnPlanV1 { stationary_target: false, bots: BotSpawnsV1::CounterTerrorist })
    } else {
        Ok(BootSpawnPlanV1 { stationary_target: false, bots: BotSpawnsV1::Terrorist })
    }
}

pub fn plan_boot_spawns(map_name: &str, ct_spawns: usize, t_spawns: usize) -> (r: Result<
    BootSpawnPlanV1,
    &'static str,
>)
    ensures
        r == boot_plan(map_name@, ct_spawns as nat, t_spawns as nat),
{
    if ct_spawns == 0 {
        return Err("map has no CT spawns");
    }
    if str_eq(map_name, "slice_test_room") && t_spawns > 0 {
        Ok(BootSpawnPlanV1 { stationary_target: true, bots: BotSpawnsV1::NoBots })
    } else if t_spawns == 0 {
        Ok(BootSpawnPlanV1 { stationary_target: false, bots: BotSpawnsV1::CounterTerrorist })
    } else {
        Ok(BootSpawnPlanV1 { stationary_target: false, bots: BotSpawnsV1::Terrorist })
    }
}

// ---- guest command batches ------------------------------------------------------

/// An unsigned integer property: present, a non-negative integer, and
/// within `u32`. Missing, negative, fractional and oversized values are
/// refused rather than clamped.
pub open spec fn json_u32(v: Option<JsonV1>) -> Option<u32> {
    match v {
        Some(JsonV1::Number(JsonNumberV1::PosInt(u))) => if u <= u32::MAX {
            Some(u as u32)
        } else {
            None
        },
        _ => None,
    }
}

/// A text property, if present.
pub open spec fn json_text(v: Option<JsonV1>) -> Option<Seq<char>> {
    match v {
        Some(JsonV1::Text(t)) => Some(t@),
        _ => None,
    }
}

/// Read an unsigned integer property, refusing what `json_u32` refuses.
pub fn read_u32(v: Option<&JsonV1>) -> (r: Option<u32>)
    ensures
        r == json_u32(match v {
            Some(x) => Some(*x),
            None => None,
        }),
{
    match v {
        Some(JsonV1::Number(JsonNumberV1::PosInt(u))) => if *u <= 0xffff_ffffu64 {
            Some(*u as u32)
        } else {
            None
        },
        _ => None,
    }
}

fn read_text<'a>(v: Option<&'a JsonV1>) -> (r: Option<&'a String>)
    ensures
        match r {
            Some(t) => json_text(match v {
                Some(x) => Some(*x),
                None => None,
            }) == Some(t@),
            None => json_text(match v {
                Some(x) => Some(*x),
                None => None,
            }) is None,
        },
{
    match v {
        Some(JsonV1::Text(t)) => Some(t),
        _ => None,
    }
}

/// Why a guest command batch could not be read.
#[derive(Clone, Copy, Debug, PartialEq, Eq, Structural)]
pub enum CommandDecodeErrorV1 {
    /// The batch has no `commands` array.
    MissingCommands,
    /// Command `index` is not an object, or lacks a required field or holds
    /// it with the wrong type.
    MalformedCommand { index: usize },
    /// Command `index` has a `type` outside the vocabulary.
    UnknownCommandType { index: usize },
    /// Command `index` names no phase of the vocabulary.
    InvalidPhase { index: usize },
    /// The batch has no unsigned `schema`.
    MissingSchema,
    /// The batch has no unsigned `afterTick`.
    MissingAfterTick,
}

/// The weapon configuration an object spells, if every field is present.
pub open spec fn weapon_config_of(c: Option<JsonV1>) -> Option<WeaponConfigV1> {
    match c {
        Some(c) => {
            let magazine = json_u32(json_field(c, "magazineCapacity"@));
            let reserve = json_u32(json_field(c, "reserveCapacity"@));
            let interval = json_u32(json_field(c, "fireIntervalTicks"@));
            let reload = json_u32(json_field(c, "reloadTicks"@));
            let damage = json_u32(json_field(c, "damage"@));
            if magazine is Some && reserve is Some && interval is Some && reload is Some
                && damage is Some {
                Some(
                    WeaponConfigV1 {
                        magazine_capacity: magazine->0,
                        reserve_capacity: reserve->0,
                        fire_interval_ticks: interval->0,
                        reload_ticks: reload->0,
                        damage: damage->0,
                    },
                )
            } else {
                None
            }
        },
        None => None,
    }
}

/// The command that object `v`, at position `index` of a batch, spells.
pub open spec fn decode_command(v: JsonV1, index: usize) -> Result<SliceCommandV1, CommandDecodeErrorV1> {
    match json_text(json_field(v, "type"@)) {
        None => Err(CommandDecodeErrorV1::MalformedCommand { index }),
        Some(tag) => match command_kind_from_tag(tag) {
            None => Err(CommandDecodeErrorV1::UnknownCommandType { index }),
            Some(SliceCommandKindV1::SetPhase) => match json_text(json_field(v, "phase"@)) {
                None => Err(CommandDecodeErrorV1::MalformedCommand { index }),
                Some(name) => match phase_from_wire_name(name) {
                    Ok(phase) => Ok(SliceCommandV1::SetPhase(phase)),
                    Err(_) => Err(CommandDecodeErrorV1::InvalidPhase { index }),
                },
            },
            Some(SliceCommandKindV1::ResetRound) => Ok(SliceCommandV1::ResetRound),
            Some(SliceCommandKindV1::AddWin) => Ok(SliceCommandV1::AddWin),
            Some(SliceCommandKindV1::AddLoss) => Ok(SliceCommandV1::AddLoss),
            Some(SliceCommandKindV1::ConfigureWeapon) => match weapon_config_of(
                json_field(v, "config"@),
            ) {
                Some(config) => Ok(SliceCommandV1::ConfigureWeapon(config)),
                None => Err(CommandDecodeErrorV1::MalformedCommand { index }),
            },
            Some(SliceCommandKindV1::ConfigureTarget) => match json_field(v, "config"@) {
                Some(c) => match json_u32(json_field(c, "health"@)) {
                    Some(health) => Ok(SliceCommandV1::ConfigureTarget(TargetConfigV1 { health })),
                    None => Err(CommandDecodeErrorV1::MalformedCommand { index }),
                },
                None => Err(CommandDecodeErrorV1::MalformedCommand { index }),
            },
        },
    }
}

/// The error of the first of the first `n` commands that cannot be read.
pub open spec fn commands_decode_error(items: Seq<JsonV1>, n: int) -> Option<CommandDecodeErrorV1>
    decreases n,
{
    if n <= 0 {
        None
    } else if commands_decode_error(items, n - 1) is Some {
        commands_decode_error(items, n - 1)
    } else {
        match decode_command(items[n - 1], (n - 1) as usize) {
            Err(e) => Some(e),
            Ok(_) => None,
        }
    }
}

/// Why a batch cannot be read, checking its commands in order first, then
/// its `schema`, then its `afterTick`; nothing when it can.
pub open spec fn batch_decode_error(v: JsonV1) -> Option<CommandDecodeErrorV1> {
    match json_field(v, "commands"@) {
        Some(JsonV1::Array(items)) => if commands_decode_error(items@, items@.len() as int) is Some {
            commands_decode_error(items@, items@.len() as int)
        } else if json_u32(json_field(v, "schema"@)) is None {
            Some(CommandDecodeErrorV1::MissingSchema)
        } else if json_u32(json_field(v, "afterTick"@)) is None {
            Some(CommandDecodeErrorV1::MissingAfterTick)
        } else {
            None
        },
        _ => Some(CommandDecodeErrorV1::MissingCommands),
    }
}

/// Read one guest command, refusing unknown types and missing or mistyped
/// fields.
pub fn command_from_json(v: &JsonV1, index: usize) -> (r: Result<SliceCommandV1, CommandDecodeErrorV1>)
    ensures
        r == decode_command(*v, index),
{
    let tag = match read_text(field(v, "type")) {
        Some(t) => t,
        None => {
            return Err(CommandDecodeErrorV1::MalformedCommand { index });
        },
    };
    match SliceCommandKindV1::from_tag(tag.as_str()) {
        None => Err(CommandDecodeErrorV1::UnknownCommandType { index }),
        Some(SliceCommandKindV1::SetPhase) => match read_text(field(v, "phase")) {
            None => Err(CommandDecodeErrorV1::MalformedCommand { index }),
            Some(name) => match SlicePhaseV1::from_wire_name(name.as_str()) {
                Ok(phase) => Ok(SliceCommandV1::SetPhase(phase)),
                Err(_) => Err(CommandDecodeErrorV1::InvalidPhase { index }),
            },
        },
        Some(SliceCommandKindV1::ResetRound) => Ok(SliceCommandV1::ResetRound),
        Some(SliceCommandKindV1::AddWin) => Ok(SliceCommandV1::AddWin),
        Some(SliceCommandKindV1::AddLoss) => Ok(SliceCommandV1::AddLoss),
        Some(SliceCommandKindV1::ConfigureWeapon) => match field(v, "config") {
            Some(c) => {
                let magazine = read_u32(field(c, "magazineCapacity"));
                let reserve = read_u32(field(c, "reserveCapacity"));
                let interval = read_u32(field(c, "fireIntervalTicks"));
                let reload = read_u32(field(c, "reloadTicks"));
                let damage = read_u32(field(c, "damage"));
                match (magazine, reserve, interval, reload, damage) {
                    (Some(m), Some(rc), Some(fi), Some(rl), Some(d)) => Ok(
                        SliceCommandV1::ConfigureWeapon(
                            WeaponConfigV1 {
                                magazine_capacity: m,
                                reserve_capacity: rc,
                                fire_interval_ticks: fi,
                                reload_ticks: rl,
                                damage: d,
                            },
                        ),
                    ),
                    _ => Err(CommandDecodeErrorV1::MalformedCommand { index }),
                }
            },
            None => Err(CommandDecodeErrorV1::MalformedCommand { index }),
        },
        Some(SliceCommandKindV1::ConfigureTarget) => match field(v, "config") {
            Some(c) => match read_u32(field(c, "health")) {
                Some(health) => Ok(SliceCommandV1::ConfigureTarget(TargetConfigV1 { health })),
                None => Err(CommandDecodeErrorV1::MalformedCommand { index }),
            },
            None => Err(CommandDecodeErrorV1::MalformedCommand { index }),
        },
    }
}

proof fn lemma_tags_distinct()
    ensures
        "setPhase"@ != "resetRound"@,
        "setPhase"@ != "addWin"@,
        "setPhase"@ != "addLoss"@,
        "setPhase"@ != "configureWeapon"@,
        "setPhase"@ != "configureTarget"@,
        "resetRound"@ != "addWin"@,
        "resetRound"@ != "addLoss"@,
        "resetRound"@ != "configureWeapon"@,
        "resetRound"@ != "configureTarget"@,
        "addWin"@ != "addLoss"@,
        "addWin"@ != "configureWeapon"@,
        "addWin"@ != "configureTarget"@,
        "addLoss"@ != "configureWeapon"@,
        "addLoss"@ != "configureTarget"@,
        "configureWeapon"@ != "configureTarget"@,
        "starting"@ != "live"@,
        "starting"@ != "won"@,
        "starting"@ != "lost"@,
        "live"@ != "won"@,
        "live"@ != "lost"@,
        "won"@ != "lost"@,
{
    reveal_strlit("setPhase");
    reveal_strlit("resetRound");
    reveal_strlit("addWin");
    reveal_strlit("addLoss");
    reveal_strlit("configureWeapon");
    reveal_strlit("configureTarget");
    reveal_strlit("starting");
    reveal_strlit("live");
    reveal_strlit("won");
    reveal_strlit("lost");
    assert("setPhase"@.len() == 8 && "resetRound"@.len() == 10 && "addWin"@.len() == 6
        && "addLoss"@.len() == 7 && "configureWeapon"@.len() == 15 && "configureTarget"@.len()
        == 15);
    assert("configureWeapon"@[9] != "configureTarget"@[9]);
    assert("starting"@.len() == 8 && "live"@.len() == 4 && "won"@.len() == 3 && "lost"@.len() == 4);
    assert("live"@[1] != "lost"@[1]);
}

/// Each command tag decodes to the command it names, with the fields it
/// carries: `addLoss` scores a loss and `addWin` a win, `setPhase` sets the
/// named phase, and the configure commands carry their configuration as
/// given. A command without a text `type` is malformed, one whose `type` is
/// outside the vocabulary is unknown, and every command that decodes has a
/// `type` from the vocabulary.
pub proof fn command_tags_decode_to_the_commands_they_name(v: JsonV1, index: usize)
    ensures
        json_text(json_field(v, "type"@)) == Some("addLoss"@) ==> decode_command(v, index) == Ok::<
            SliceCommandV1,
            CommandDecodeErrorV1,
        >(SliceCommandV1::AddLoss),
        json_text(json_field(v, "type"@)) == Some("addWin"@) ==> decode_command(v, index) == Ok::<
            SliceCommandV1,
            CommandDecodeErrorV1,
        >(SliceCommandV1::AddWin),
        json_text(json_field(v, "type"@)) == Some("resetRound"@) ==> decode_command(v, index)
            == Ok::<SliceCommandV1, CommandDecodeErrorV1>(SliceCommandV1::ResetRound),
        json_text(json_field(v, "type"@)) == Some("setPhase"@) && json_text(json_field(v, "phase"@))
            == Some("starting"@) ==> decode_command(v, index) == Ok::<
            SliceCommandV1,
            CommandDecodeErrorV1,
        >(SliceCommandV1::SetPhase(SlicePhaseV1::Starting)),
        json_text(json_field(v, "type"@)) == Some("setPhase"@) && json_text(json_field(v, "phase"@))
            == Some("live"@) ==> decode_command(v, index) == Ok::<SliceCommandV1, CommandDecodeErrorV1>(
            SliceCommandV1::SetPhase(SlicePhaseV1::Live),
        ),
        json_text(json_field(v, "type"@)) == Some("setPhase"@) && json_text(json_field(v, "phase"@))
            == Some("won"@) ==> decode_command(v, index) == Ok::<SliceCommandV1, CommandDecodeErrorV1>(
            SliceCommandV1::SetPhase(SlicePhaseV1::Won),
        ),
        json_text(json_field(v, "type"@)) == Some("setPhase"@) && json_text(json_field(v, "phase"@))
            == Some("lost"@) ==> decode_command(v, index) == Ok::<SliceCommandV1, CommandDecodeErrorV1>(
            SliceCommandV1::SetPhase(SlicePhaseV1::Lost),
        ),
        json_text(json_field(v, "type"@)) == Some("setPhase"@) && json_text(json_field(v, "phase"@))
            is None ==> decode_command(v, index) == Err::<SliceCommandV1, CommandDecodeErrorV1>(
            CommandDecodeErrorV1::MalformedCommand { index },
        ),
        json_text(json_field(v, "type"@)) == Some("configureTarget"@) && json_field(v, "config"@) is Some
            && json_u32(json_field(json_field(v, "config"@)->0, "health"@)) is Some ==> decode_command(
            v,
            index,
        ) == Ok::<SliceCommandV1, CommandDecodeErrorV1>(
            SliceCommandV1::ConfigureTarget(
                TargetConfigV1 { health: json_u32(json_field(json_field(v, "config"@)->0, "health"@))->0 },
            ),
        ),
        json_text(json_field(v, "type"@)) == Some("configureTarget"@) && (json_field(v, "config"@) is None
            || json_u32(json_field(json_field(v, "config"@)->0, "health"@)) is None) ==> decode_command(
            v,
            index,
        ) == Err::<SliceCommandV1, CommandDecodeErrorV1>(
            CommandDecodeErrorV1::MalformedCommand { index },
        ),
        json_text(json_field(v, "type"@)) == Some("configureWeapon"@) && json_field(v, "config"@) is Some
            && {
            let c = json_field(v, "config"@)->0;
            &&& json_u32(json_field(c, "magazineCapacity"@)) is Some
            &&& json_u32(json_field(c, "reserveCapacity"@)) is Some
            &&& json_u32(json_field(c, "fireIntervalTicks"@)) is Some
            &&& json_u32(json_field(c, "reloadTicks"@)) is Some
            &&& json_u32(json_field(c, "damage"@)) is Some
        } ==> {
            let c = json_field(v, "config"@)->0;
            decode_command(v, index) == Ok::<SliceCommandV1, CommandDecodeErrorV1>(
                SliceCommandV1::ConfigureWeapon(
                    WeaponConfigV1 {
                        magazine_capacity: json_u32(json_field(c, "magazineCapacity"@))->0,
                        reserve_capacity: json_u32(json_field(c, "reserveCapacity"@))->0,
                        fire_interval_ticks: json_u32(json_field(c, "fireIntervalTicks"@))->0,
                        reload_ticks: json_u32(json_field(c, "reloadTicks"@))->0,
                        damage: json_u32(json_field(c, "damage"@))->0,
                    },
                ),
            )
        },
        json_text(json_field(v, "type"@)) is None ==> decode_command(v, index) == Err::<
            SliceCommandV1,
            CommandDecodeErrorV1,
        >(CommandDecodeErrorV1::MalformedCommand { index }),
        json_text(json_field(v, "type"@)) matches Some(tag) && tag != "setPhase"@ && tag
            != "resetRound"@ && tag != "addWin"@ && tag != "addLoss"@ && tag != "configureWeapon"@
            && tag != "configureTarget"@ ==> decode_command(v, index) == Err::<
            SliceCommandV1,
            CommandDecodeErrorV1,
        >(CommandDecodeErrorV1::UnknownCommandType { index }),
        decode_command(v, index) is Ok ==> (json_text(json_field(v, "type"@)) matches Some(tag) && (
        tag == "setPhase"@ || tag == "resetRound"@ || tag == "addWin"@ || tag == "addLoss"@ || tag
            == "configureWeapon"@ || tag == "configureTarget"@)),
{
    lemma_tags_distinct();
}

proof fn lemma_commands_error_stable(items: Seq<JsonV1>, k: int, n: int)
    requires
        0 <= k <= n,
        commands_decode_error(items, k) is Some,
    ensures
        commands_decode_error(items, n) == commands_decode_error(items, k),
    decreases n - k,
{
    if k < n {
        lemma_commands_error_stable(items, k, n - 1);
    }
}

/// Read the guest's command batch: a `commands` array of commands, an
/// unsigned `schema` and an unsigned `afterTick`. The commands keep their
/// array order; the first unreadable part is reported.
pub fn command_batch_from_json(v: &JsonV1) -> (r: Result<SliceCommandBatchV1, CommandDecodeErrorV1>)
    ensures
        match r {
            Err(e) => batch_decode_error(*v) == Some(e),
            Ok(batch) => batch_decode_error(*v) is None && json_u32(json_field(*v, "schema"@))
                == Some(batch.schema) && json_u32(json_field(*v, "afterTick"@)) == Some(
                batch.after_tick,
            ) && (json_field(*v, "commands"@) matches Some(JsonV1::Array(items)) && batch.commands@.len()
                == items@.len() && forall|i: int|
                0 <= i < items@.len() ==> decode_command(#[trigger] items@[i], i as usize) == Ok::<
                    SliceCommandV1,
                    CommandDecodeErrorV1,
                >(batch.commands@[i])),
        },
{
    let items = match field(v, "commands") {
        Some(JsonV1::Array(items)) => items,
        _ => {
            return Err(CommandDecodeErrorV1::MissingCommands);
        },
    };
    let n = items.len();
    let mut commands: Vec<SliceCommandV1> = Vec::new();
    for i in 0..n
        invariant
            n == items@.len(),
            json_field(*v, "commands"@) == Some(JsonV1::Array(*items)),
            commands@.len() == i,
            commands_decode_error(items@, i as int) is None,
            forall|j: int|
                0 <= j < i ==> decode_command(#[trigger] items@[j], j as usize) == Ok::<
                    SliceCommandV1,
                    CommandDecodeErrorV1,
                >(commands@[j]),
    {
        match command_from_json(&items[i], i) {
            Ok(command) => {
                commands.push(command);
            },
            Err(e) => {
                proof {
                    lemma_commands_error_stable(items@, i + 1, n as int);
                }
                return Err(e);
            },
        }
    }
    let schema = match read_u32(field(v, "schema")) {
        Some(s) => s,
        None => {
            return Err(CommandDecodeErrorV1::MissingSchema);
        },
    };
    let after_tick = match read_u32(field(v, "afterTick")) {
        Some(t) => t,
        None => {
            return Err(CommandDecodeErrorV1::MissingAfterTick);
        },
    };
    Ok(SliceCommandBatchV1 { schema, after_tick, commands })
}

} // verus!
