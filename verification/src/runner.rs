//! The decisions of the scenario runner: effective run settings, event
//! summaries, capture records and spawn selection.

use sha2::Digest;
use vstd::prelude::*;

use crate::contract::SliceEventV1;
use crate::json::{json_eq, json_equal, lookup_path, value_at_path, JsonNumberV1, JsonV1};
use crate::scenario::{
    scenario_result, AssertionV1, CaptureV1, EventNameV1, InputTapeV1, ScenarioErrorV1, ScenarioV1,
};
use crate::text::{concat, contains_char, ends_with, has_char, has_suffix};

verus! {

// ---- effective settings ----------------------------------------------------

/// A request names a scenario file directly when it ends in `.json` or holds
/// a `/`; otherwise it is a scenario name.
pub open spec fn is_direct_request(requested: Seq<char>) -> bool {
    has_suffix(requested, ".json"@) || has_char(requested, '/')
}

fn is_direct(requested: &str) -> (r: bool)
    ensures
        r == is_direct_request(requested@),
{
    ends_with(requested, ".json") || contains_char(requested, '/')
}

/// The scenario with its seed and tick limit replaced.
pub open spec fn overridden(s: ScenarioV1, seed: u32, max_ticks: u32) -> ScenarioV1 {
    ScenarioV1 { seed, max_ticks, ..s }
}

/// The seed a run uses: the override when given, else the scenario's.
pub open spec fn effective_seed(s: ScenarioV1, seed_override: Option<u32>) -> u32 {
    match seed_override {
        Some(seed) => seed,
        None => s.seed,
    }
}

/// The tick limit a run uses: the override when given, else the scenario's.
pub open spec fn effective_max_ticks(s: ScenarioV1, max_ticks_override: Option<u32>) -> u32 {
    match max_ticks_override {
        Some(max_ticks) => max_ticks,
        None => s.max_ticks,
    }
}

impl ScenarioV1 {
    /// Apply the runner's overrides to a loaded scenario and check the
    /// result again. A scenario requested by name must carry that name; the
    /// effective seed must be non-zero and an explicit tick limit positive.
    pub fn apply_overrides(
        self,
        requested: &str,
        seed_override: Option<u32>,
        max_ticks_override: Option<u32>,
    ) -> (r: Result<ScenarioV1, ScenarioErrorV1>)
        ensures
            self.name@ != requested@ && !is_direct_request(requested@) ==> (r matches Err(
                ScenarioErrorV1::NameMismatch { name, requested: req },
            ) && name == self.name && req@ == requested@),
            !(self.name@ != requested@ && !is_direct_request(requested@)) ==> {
                let seed = effective_seed(self, seed_override);
                let max_ticks = effective_max_ticks(self, max_ticks_override);
                let updated = overridden(self, seed, max_ticks);
                if seed == 0 {
                    r == Err::<ScenarioV1, ScenarioErrorV1>(ScenarioErrorV1::ZeroSeed)
                } else if max_ticks_override == Some(0u32) {
                    r == Err::<ScenarioV1, ScenarioErrorV1>(
                        ScenarioErrorV1::NonPositiveMaxTicksOverride,
                    )
                } else {
                    match scenario_result(updated) {
                        Ok(()) => r == Ok::<ScenarioV1, ScenarioErrorV1>(updated),
                        Err(e) => r == Err::<ScenarioV1, ScenarioErrorV1>(e),
                    }
                }
            },
    {
        let mut scenario = self;
        if !crate::text::str_eq(scenario.name.as_str(), requested) && !is_direct(requested) {
            return Err(
                ScenarioErrorV1::NameMismatch { name: scenario.name, requested: requested.to_owned() },
            );
        }
        if let Some(seed) = seed_override {
            scenario.seed = seed;
        }
        if scenario.seed == 0 {
            return Err(ScenarioErrorV1::ZeroSeed);
        }
        if let Some(max_ticks) = max_ticks_override {
            if max_ticks == 0 {
                return Err(ScenarioErrorV1::NonPositiveMaxTicksOverride);
            }
            scenario.max_ticks = max_ticks;
        }
        match scenario.validate() {
            Ok(()) => Ok(scenario),
            Err(e) => Err(e),
        }
    }

    /// The first capture requested at `tick`, if any.
    pub fn capture_at(&self, tick: u32) -> (r: Option<&CaptureV1>)
        ensures
            match r {
                Some(c) => exists|i: int|
                    0 <= i < self.captures@.len() && self.captures@[i] == *c && c.tick == tick
                        && forall|j: int| 0 <= j < i ==> (#[trigger] self.captures@[j]).tick != tick,
                None => forall|i: int|
                    0 <= i < self.captures@.len() ==> (#[trigger] self.captures@[i]).tick != tick,
            },
    {
        let n = self.captures.len();
        for i in 0..n
            invariant
                n == self.captures@.len(),
                forall|j: int| 0 <= j < i ==> (#[trigger] self.captures@[j]).tick != tick,
        {
            if self.captures[i].tick == tick {
                return Some(&self.captures[i]);
            }
        }
        None
    }
}

/// Every change point of the tape must fall within the effective tick limit.
pub fn check_tape_fits(tape: &InputTapeV1, max_ticks: u32) -> (r: Result<(), ScenarioErrorV1>)
    ensures
        tape.frames@.len() == 0 ==> r == Ok::<(), ScenarioErrorV1>(()),
        tape.frames@.len() > 0 ==> {
            let last = tape.frames@.last().tick;
            r == if last > max_ticks {
                Err(ScenarioErrorV1::FrameExceedsMaxTicks { tick: last, max_ticks })
            } else {
                Ok(())
            }
        },
{
    let n = tape.frames.len();
    if n > 0 {
        let last = tape.frames[n - 1].tick;
        if last > max_ticks {
            return Err(ScenarioErrorV1::FrameExceedsMaxTicks { tick: last, max_ticks });
        }
    }
    Ok(())
}

// ---- event summaries -----------------------------------------------------------

/// How often an event occurred during a run, and at which first and last
/// ticks.
#[derive(Clone, Copy, Debug, PartialEq, Eq, Structural)]
pub struct EventSummaryV1 {
    pub count: u32,
    pub first_tick: Option<u32>,
    pub last_tick: Option<u32>,
}

/// A summary after one more occurrence at `tick`.
pub open spec fn recorded(s: EventSummaryV1, tick: u32) -> EventSummaryV1 {
    EventSummaryV1 {
        count: (s.count + 1) as u32,
        first_tick: match s.first_tick {
            Some(t) => Some(t),
            None => Some(tick),
        },
        last_tick: Some(tick),
    }
}

/// A summary after `n` more occurrences at `tick`.
pub open spec fn recorded_times(s: EventSummaryV1, n: nat, tick: u32) -> EventSummaryV1 {
    if n == 0 {
        s
    } else {
        EventSummaryV1 {
            count: (s.count + n) as u32,
            first_tick: match s.first_tick {
                Some(t) => Some(t),
                None => Some(tick),
            },
            last_tick: Some(tick),
        }
    }
}

pub open spec fn empty_summary() -> EventSummaryV1 {
    EventSummaryV1 { count: 0, first_tick: None, last_tick: None }
}

impl EventSummaryV1 {
    pub fn new() -> (r: EventSummaryV1)
        ensures
            r == empty_summary(),
    {
        EventSummaryV1 { count: 0, first_tick: None, last_tick: None }
    }

    pub fn record(&mut self, tick: u32)
        requires
            old(self).count < u32::MAX,
        ensures
            *final(self) == recorded(*old(self), tick),
    {
        self.count = self.count + 1;
        if self.first_tick.is_none() {
            self.first_tick = Some(tick);
        }
        self.last_tick = Some(tick);
    }
}

/// The summaries of every event kind of a run.
#[derive(Clone, Copy, Debug, PartialEq, Eq, Structural)]
pub struct EventSummariesV1 {
    pub shot_fired: EventSummaryV1,
    pub target_hit: EventSummaryV1,
    pub target_destroyed: EventSummaryV1,
    pub player_damaged: EventSummaryV1,
    pub player_died: EventSummaryV1,
    pub round_reset: EventSummaryV1,
}

/// The kind of an event.
pub open spec fn event_kind(event: SliceEventV1) -> EventNameV1 {
    match event {
        SliceEventV1::ShotFired { .. } => EventNameV1::ShotFired,
        SliceEventV1::TargetHit { .. } => EventNameV1::TargetHit,
        SliceEventV1::TargetDestroyed { .. } => EventNameV1::TargetDestroyed,
        SliceEventV1::PlayerDamaged { .. } => EventNameV1::PlayerDamaged,
        SliceEventV1::PlayerDied => EventNameV1::PlayerDied,
        SliceEventV1::RoundReset { .. } => EventNameV1::RoundReset,
    }
}

/// How many of `events` are of kind `kind`.
pub open spec fn count_kind(events: Seq<SliceEventV1>, kind: EventNameV1) -> nat
    decreases events.len(),
{
    if events.len() == 0 {
        0
    } else {
        count_kind(events.drop_last(), kind) + if event_kind(events.last()) == kind {
            1nat
        } else {
            0nat
        }
    }
}

/// The wire name of an event kind.
pub open spec fn event_wire_name(event: EventNameV1) -> Seq<char> {
    match event {
        EventNameV1::ShotFired => "shotFired"@,
        EventNameV1::TargetHit => "targetHit"@,
        EventNameV1::TargetDestroyed => "targetDestroyed"@,
        EventNameV1::PlayerDamaged => "playerDamaged"@,
        EventNameV1::PlayerDied => "playerDied"@,
        EventNameV1::RoundReset => "roundReset"@,
    }
}

pub fn event_name(event: EventNameV1) -> (r: &'static str)
    ensures
        r@ == event_wire_name(event),
{
    match event {
        EventNameV1::ShotFired => "shotFired",
        EventNameV1::TargetHit => "targetHit",
        EventNameV1::TargetDestroyed => "targetDestroyed",
        EventNameV1::PlayerDamaged => "playerDamaged",
        EventNameV1::PlayerDied => "playerDied",
        EventNameV1::RoundReset => "roundReset",
    }
}

pub fn event_kind_of(event: &SliceEventV1) -> (r: EventNameV1)
    ensures
        r == event_kind(*event),
{
    match event {
        SliceEventV1::ShotFired { .. } => EventNameV1::ShotFired,
        SliceEventV1::TargetHit { .. } => EventNameV1::TargetHit,
        SliceEventV1::TargetDestroyed { .. } => EventNameV1::TargetDestroyed,
        SliceEventV1::PlayerDamaged { .. } => EventNameV1::PlayerDamaged,
        SliceEventV1::PlayerDied => EventNameV1::PlayerDied,
        SliceEventV1::RoundReset { .. } => EventNameV1::RoundReset,
    }
}

impl EventSummariesV1 {
    pub open spec fn summary(self, kind: EventNameV1) -> EventSummaryV1 {
        match kind {
            EventNameV1::ShotFired => self.shot_fired,
            EventNameV1::TargetHit => self.target_hit,
            EventNameV1::TargetDestroyed => self.target_destroyed,
            EventNameV1::PlayerDamaged => self.player_damaged,
            EventNameV1::PlayerDied => self.player_died,
            EventNameV1::RoundReset => self.round_reset,
        }
    }

    /// The recorded event kinds and their summaries: a kind is present once
    /// it has occurred.
    pub open spec fn entries(self) -> Map<EventNameV1, EventSummaryV1> {
        Map::new(|k: EventNameV1| self.summary(k).count > 0, |k: EventNameV1| self.summary(k))
    }

    pub fn new() -> (r: EventSummariesV1)
        ensures
            forall|k: EventNameV1| #[trigger] r.summary(k) == empty_summary(),
    {
        EventSummariesV1 {
            shot_fired: EventSummaryV1::new(),
            target_hit: EventSummaryV1::new(),
            target_destroyed: EventSummaryV1::new(),
            player_damaged: EventSummaryV1::new(),
            player_died: EventSummaryV1::new(),
            round_reset: EventSummaryV1::new(),
        }
    }

    pub fn get(&self, kind: EventNameV1) -> (r: EventSummaryV1)
        ensures
            r == self.summary(kind),
    {
        match kind {
            EventNameV1::ShotFired => self.shot_fired,
            EventNameV1::TargetHit => self.target_hit,
            EventNameV1::TargetDestroyed => self.target_destroyed,
            EventNameV1::PlayerDamaged => self.player_damaged,
            EventNameV1::PlayerDied => self.player_died,
            EventNameV1::RoundReset => self.round_reset,
        }
    }

    /// How many events of `kind` were recorded; zero for a kind never seen.
    pub fn count_of(&self, kind: EventNameV1) -> (r: u32)
        ensures
            r == self.summary(kind).count,
            r == (if self.entries().dom().contains(kind) {
                self.entries()[kind].count
            } else {
                0
            }),
    {
        self.get(kind).count
    }

    pub fn record(&mut self, kind: EventNameV1, tick: u32)
        requires
            old(self).summary(kind).count < u32::MAX,
        ensures
            final(self).summary(kind) == recorded(old(self).summary(kind), tick),
            forall|k: EventNameV1| k != kind ==> #[trigger] final(self).summary(k) == old(self).summary(k),
    {
        match kind {
            EventNameV1::ShotFired => self.shot_fired.record(tick),
            EventNameV1::TargetHit => self.target_hit.record(tick),
            EventNameV1::TargetDestroyed => self.target_destroyed.record(tick),
            EventNameV1::PlayerDamaged => self.player_damaged.record(tick),
            EventNameV1::PlayerDied => self.player_died.record(tick),
            EventNameV1::RoundReset => self.round_reset.record(tick),
        }
    }
}

/// Record one tick's events: each kind's summary gains one occurrence at
/// `tick` per event of that kind.
pub fn record_events(tick: u32, events: &[SliceEventV1], summaries: &mut EventSummariesV1)
    requires
        forall|k: EventNameV1|
            #[trigger] old(summaries).summary(k).count + count_kind(events@, k) <= u32::MAX,
    ensures
        forall|k: EventNameV1|
            #[trigger] final(summaries).summary(k) == recorded_times(
                old(summaries).summary(k),
                count_kind(events@, k),
                tick,
            ),
{
    let ghost start = *summaries;
    let n = events.len();
    for i in 0..n
        invariant
            n == events@.len(),
            forall|k: EventNameV1|
                #[trigger] start.summary(k).count + count_kind(events@, k) <= u32::MAX,
            forall|k: EventNameV1|
                #[trigger] summaries.summary(k) == recorded_times(
                    start.summary(k),
                    count_kind(events@.take(i as int), k),
                    tick,
                ),
    {
        let kind = event_kind_of(&events[i]);
        proof {
            assert(events@.take(i + 1).drop_last() =~= events@.take(i as int));
            assert forall|k: EventNameV1| #[trigger] count_kind(events@.take(i as int), k)
                <= count_kind(events@, k) by {
                lemma_count_kind_prefix(events@, i + 1, k);
            }
            lemma_count_kind_prefix(events@, i + 1, kind);
        }
        summaries.record(kind, tick);
    }
    assert(events@.take(n as int) =~= events@);
}

proof fn lemma_count_kind_prefix(events: Seq<SliceEventV1>, m: int, kind: EventNameV1)
    requires
        0 <= m <= events.len(),
    ensures
        count_kind(events.take(m), kind) <= count_kind(events, kind),
        m > 0 ==> count_kind(events.take(m), kind) == count_kind(events.take(m - 1), kind) + (
        if event_kind(events[m - 1]) == kind {
            1nat
        } else {
            0nat
        }),
    decreases events.len(),
{
    if m > 0 {
        assert(events.take(m).drop_last() =~= events.take(m - 1));
    }
    if m < events.len() {
        assert(events.drop_last().take(m) =~= events.take(m));
        lemma_count_kind_prefix(events.drop_last(), m, kind);
    } else {
        assert(events.take(m) =~= events);
    }
}

// ---- captures ----------------------------------------------------------------

/// What the SHA-256 digest of `data` is.
pub uninterp spec fn sha256_of(data: Seq<u8>) -> Seq<u8>;

/// `sha2::Sha256::digest`: the contract claims that the digest is a function
/// of the input bytes alone (named `sha256_of`) and is 32 bytes long, as the
/// hash's fixed output size states.
#[verifier::external_body]
fn sha256_digest(data: &[u8]) -> (r: Vec<u8>)
    ensures
        r@ == sha256_of(data@),
        r@.len() == 32,
{
    sha2::Sha256::digest(data).to_vec()
}

/// The lower-case hexadecimal digit of a value below 16.
pub open spec fn hex_digit(n: int) -> char {
    if n < 10 {
        ((n + 48) as u8) as char
    } else {
        ((n + 87) as u8) as char
    }
}

/// Two lower-case hexadecimal digits per byte, high nibble first.
pub open spec fn hex_lower(bytes: Seq<u8>) -> Seq<char>
    decreases bytes.len(),
{
    if bytes.len() == 0 {
        Seq::empty()
    } else {
        hex_lower(bytes.drop_last()) + seq![
            hex_digit(bytes.last() as int / 16),
            hex_digit(bytes.last() as int % 16),
        ]
    }
}

fn hex_char(n: u8) -> (c: char)
    requires
        n < 16,
    ensures
        c == hex_digit(n as int),
{
    if n < 10 {
        (n + 48) as char
    } else {
        (n + 87) as char
    }
}

/// Lower-case hexadecimal text of `bytes`.
pub fn to_hex_lower(bytes: &[u8]) -> (r: String)
    ensures
        r@ == hex_lower(bytes@),
{
    let mut chars: Vec<char> = Vec::new();
    let n = bytes.len();
    for i in 0..n
        invariant
            n == bytes@.len(),
            chars@ == hex_lower(bytes@.take(i as int)),
    {
        let b = bytes[i];
        chars.push(hex_char(b / 16));
        chars.push(hex_char(b % 16));
        assert(bytes@.take(i + 1).drop_last() =~= bytes@.take(i as int));
    }
    assert(bytes@.take(n as int) =~= bytes@);
    string_from_chars(&chars)
}

fn string_from_chars(chars: &Vec<char>) -> (r: String)
    ensures
        r@ == chars@,
{
    let mut r = String::new();
    let n = chars.len();
    for i in 0..n
        invariant
            n == chars@.len(),
            r@ == chars@.take(i as int),
    {
        push_char(&mut r, chars[i]);
        assert(chars@.take(i + 1) =~= chars@.take(i as int).push(chars@[i as int]));
    }
    assert(chars@.take(n as int) =~= chars@);
    r
}

/// `String::push`: appends one character.
#[verifier::external_body]
fn push_char(s: &mut String, c: char)
    ensures
        final(s)@ == old(s)@.push(c),
{
    s.push(c)
}

/// The record of one frame capture.
#[derive(Clone, Debug, PartialEq, Eq)]
pub struct CaptureResultV1 {
    pub tick: u32,
    pub width: u32,
    pub height: u32,
    pub filename: String,
    pub sha256: String,
}

/// The record of a capture whose PNG file holds `png`: the file is named
/// after the capture, and its content is identified by its SHA-256 digest
/// in lower-case hexadecimal.
pub fn capture_record(capture: &CaptureV1, width: u32, height: u32, png: &[u8]) -> (r:
    CaptureResultV1)
    ensures
        r.tick == capture.tick,
        r.width == width,
        r.height == height,
        r.filename@ == capture.name@ + ".png"@,
        r.sha256@ == hex_lower(sha256_of(png@)),
        r.sha256@.len() == 64,
{
    let digest = sha256_digest(png);
    let sha256 = to_hex_lower(digest.as_slice());
    proof {
        lemma_hex_lower_len(digest@);
    }
    CaptureResultV1 {
        tick: capture.tick,
        width,
        height,
        filename: concat(capture.name.as_str(), ".png"),
        sha256,
    }
}

proof fn lemma_hex_lower_len(bytes: Seq<u8>)
    ensures
        hex_lower(bytes).len() == 2 * bytes.len(),
    decreases bytes.len(),
{
    if bytes.len() > 0 {
        lemma_hex_lower_len(bytes.drop_last());
    }
}

// ---- spawns and scenario files ------------------------------------------------

/// Which spawn list of a map a spawn comes from.
#[derive(Clone, Copy, Debug, PartialEq, Eq, Structural)]
pub enum SpawnListV1 {
    CounterTerrorist,
    Terrorist,
}

/// The spawn a scenario's `playerSpawn` names: `player_start` is the first
/// counter-terrorist spawn, or the first terrorist spawn when there is none;
/// every other name matches no spawn.
pub fn select_spawn(name: &str, ct_spawns: usize, t_spawns: usize) -> (r: Result<
    SpawnListV1,
    ScenarioErrorV1,
>)
    ensures
        name@ == "player_start"@ && ct_spawns > 0 ==> r == Ok::<SpawnListV1, ScenarioErrorV1>(
            SpawnListV1::CounterTerrorist,
        ),
        name@ == "player_start"@ && ct_spawns == 0 && t_spawns > 0 ==> r == Ok::<
            SpawnListV1,
            ScenarioErrorV1,
        >(SpawnListV1::Terrorist),
        !(name@ == "player_start"@ && (ct_spawns > 0 || t_spawns > 0)) ==> (r matches Err(
            ScenarioErrorV1::NoMatchingSpawn { name: n },
        ) && n@ == name@),
{
    if crate::text::str_eq(name, "player_start") {
        if ct_spawns > 0 {
            return Ok(SpawnListV1::CounterTerrorist);
        }
        if t_spawns > 0 {
            return Ok(SpawnListV1::Terrorist);
        }
    }
    Err(ScenarioErrorV1::NoMatchingSpawn { name: name.to_owned() })
}

/// Where a requested scenario may be found, in search order: a direct
/// request is its own path; a name is looked up as `NAME.json` under
/// `test/scenarios`, under the crate's `../../test/scenarios`, then under
/// `local/scenarios`. Paths are `/`-separated.
pub open spec fn scenario_candidates(requested: Seq<char>, manifest_dir: Seq<char>) -> Seq<
    Seq<char>,
> {
    if is_direct_request(requested) {
        seq![requested]
    } else {
        seq![
            "test/scenarios/"@ + requested + ".json"@,
            manifest_dir + "/../../test/scenarios/"@ + requested + ".json"@,
            "local/scenarios/"@ + requested + ".json"@,
        ]
    }
}

pub fn scenario_path_candidates(requested: &str, manifest_dir: &str) -> (r: Vec<String>)
    ensures
        r@.len() == scenario_candidates(requested@, manifest_dir@).len(),
        forall|i: int|
            0 <= i < r@.len() ==> #[trigger] r@[i]@ == scenario_candidates(requested@, manifest_dir@)[i],
{
    let mut r: Vec<String> = Vec::new();
    if is_direct(requested) {
        r.push(requested.to_owned());
    } else {
        let file = concat(requested, ".json");
        r.push(concat("test/scenarios/", file.as_str()));
        let up = concat(manifest_dir, "/../../test/scenarios/");
        r.push(concat(up.as_str(), file.as_str()));
        r.push(concat("local/scenarios/", file.as_str()));
        proof {
            assert(r@[0]@ =~= "test/scenarios/"@ + requested@ + ".json"@);
            assert(r@[1]@ =~= manifest_dir@ + "/../../test/scenarios/"@ + requested@ + ".json"@);
            assert(r@[2]@ =~= "local/scenarios/"@ + requested@ + ".json"@);
        }
    }
    r
}

// ---- assertions ----------------------------------------------------------------

/// The snapshot recorded for `tick`: the first entry with that tick.
pub open spec fn snapshot_at(snapshots: Seq<(u32, JsonV1)>, tick: u32) -> Option<JsonV1>
    decreases snapshots.len(),
{
    if snapshots.len() == 0 {
        None
    } else if snapshots[0].0 == tick {
        Some(snapshots[0].1)
    } else {
        snapshot_at(snapshots.drop_first(), tick)
    }
}

/// The value `path` names in the snapshot of `tick`, if both exist.
pub open spec fn resolved(snapshots: Seq<(u32, JsonV1)>, tick: u32, path: Seq<char>) -> Option<
    JsonV1,
> {
    match snapshot_at(snapshots, tick) {
        Some(state) => lookup_path(state, path),
        None => None,
    }
}

/// The number a resolved value holds, if it is a number.
pub open spec fn number_of(value: Option<JsonV1>) -> Option<JsonNumberV1> {
    match value {
        Some(JsonV1::Number(n)) => Some(n),
        _ => None,
    }
}

/// What checking one assertion found.
#[derive(Clone, Copy, Debug, PartialEq, Eq, Structural)]
pub enum AssertionOutcomeV1 {
    Passed,
    /// An `equals` assertion whose path is missing or holds another value.
    ValueMismatch,
    /// A `near` assertion: the number at its path (none when the path is
    /// missing or holds no number), left to the caller's floating-point
    /// comparison against the value and tolerance.
    NearPending { actual: Option<JsonNumberV1> },
    /// An `eventCount` assertion and the count actually recorded.
    CountMismatch { actual: u32 },
}

/// The outcome of one assertion against a run's snapshots and summaries.
pub open spec fn assertion_outcome(
    assertion: AssertionV1,
    snapshots: Seq<(u32, JsonV1)>,
    summaries: EventSummariesV1,
) -> AssertionOutcomeV1 {
    match assertion {
        AssertionV1::Equals { tick, path, value } => match resolved(snapshots, tick, path@) {
            Some(actual) => if json_equal(actual, value) {
                AssertionOutcomeV1::Passed
            } else {
                AssertionOutcomeV1::ValueMismatch
            },
            None => AssertionOutcomeV1::ValueMismatch,
        },
        AssertionV1::Near { tick, path, .. } => AssertionOutcomeV1::NearPending {
            actual: number_of(resolved(snapshots, tick, path@)),
        },
        AssertionV1::EventCount { event, count } => if summaries.summary(event).count == count {
            AssertionOutcomeV1::Passed
        } else {
            AssertionOutcomeV1::CountMismatch { actual: summaries.summary(event).count }
        },
    }
}

/// The snapshot recorded for `tick`.
pub fn snapshot_for(snapshots: &Vec<(u32, JsonV1)>, tick: u32) -> (r: Option<&JsonV1>)
    ensures
        match r {
            Some(x) => snapshot_at(snapshots@, tick) == Some(*x),
            None => snapshot_at(snapshots@, tick) is None,
        },
{
    let n = snapshots.len();
    assert(snapshots@.skip(0) =~= snapshots@);
    for i in 0..n
        invariant
            n == snapshots@.len(),
            snapshot_at(snapshots@, tick) == snapshot_at(snapshots@.skip(i as int), tick),
    {
        assert(snapshots@.skip(i as int)[0] == snapshots@[i as int]);
        if snapshots[i].0 == tick {
            return Some(&snapshots[i].1);
        }
        assert(snapshots@.skip(i as int).drop_first() =~= snapshots@.skip(i + 1));
    }
    assert(snapshots@.skip(n as int) =~= Seq::<(u32, JsonV1)>::empty());
    None
}

/// The value `path` names in the snapshot of `tick`.
pub fn resolve<'a>(snapshots: &'a Vec<(u32, JsonV1)>, tick: u32, path: &str) -> (r: Option<&'a JsonV1>)
    ensures
        match r {
            Some(x) => resolved(snapshots@, tick, path@) == Some(*x),
            None => resolved(snapshots@, tick, path@) is None,
        },
{
    match snapshot_for(snapshots, tick) {
        Some(state) => value_at_path(state, path),
        None => None,
    }
}

fn check_assertion(
    assertion: &AssertionV1,
    snapshots: &Vec<(u32, JsonV1)>,
    summaries: &EventSummariesV1,
) -> (r: AssertionOutcomeV1)
    ensures
        r == assertion_outcome(*assertion, snapshots@, *summaries),
{
    match assertion {
        AssertionV1::Equals { tick, path, value } => match resolve(snapshots, *tick, path.as_str()) {
            Some(actual) => if json_eq(actual, value) {
                AssertionOutcomeV1::Passed
            } else {
                AssertionOutcomeV1::ValueMismatch
            },
            None => AssertionOutcomeV1::ValueMismatch,
        },
        AssertionV1::Near { tick, path, .. } => {
            let actual = match resolve(snapshots, *tick, path.as_str()) {
                Some(JsonV1::Number(n)) => Some(*n),
                _ => None,
            };
            AssertionOutcomeV1::NearPending { actual }
        },
        AssertionV1::EventCount { event, count } => {
            let actual = summaries.count_of(*event);
            if actual == *count {
                AssertionOutcomeV1::Passed
            } else {
                AssertionOutcomeV1::CountMismatch { actual }
            }
        },
    }
}

/// Check every assertion of a scenario, in order, against the snapshots
/// recorded per tick and the run's event summaries.
pub fn check_assertions(
    assertions: &Vec<AssertionV1>,
    snapshots: &Vec<(u32, JsonV1)>,
    summaries: &EventSummariesV1,
) -> (r: Vec<AssertionOutcomeV1>)
    ensures
        r@.len() == assertions@.len(),
        forall|i: int|
            0 <= i < r@.len() ==> #[trigger] r@[i] == assertion_outcome(
                assertions@[i],
                snapshots@,
                *summaries,
            ),
{
    let mut outcomes: Vec<AssertionOutcomeV1> = Vec::new();
    let n = assertions.len();
    for i in 0..n
        invariant
            n == assertions@.len(),
            outcomes@.len() == i,
            forall|j: int|
                0 <= j < i ==> #[trigger] outcomes@[j] == assertion_outcome(
                    assertions@[j],
                    snapshots@,
                    *summaries,
                ),
    {
        outcomes.push(check_assertion(&assertions[i], snapshots, summaries));
    }
    outcomes
}

// ---- result documents ----------------------------------------------------------

/// A value a run result echoes: a number or a text.
pub enum EchoedV1 {
    Number(u32),
    Text(Seq<char>),
}

/// Whether a JSON value is the echo of `e`.
pub open spec fn echoes(value: JsonV1, e: EchoedV1) -> bool {
    match e {
        EchoedV1::Number(n) => value == JsonV1::Number(JsonNumberV1::PosInt(n as u64)),
        EchoedV1::Text(t) => value matches JsonV1::Text(s) && s@ == t,
    }
}

/// The overrides a run result echoes, in key order: `captureDir`,
/// `maxTicks`, `seed`, each present exactly when it was given, so that an
/// overridden run cannot pass for the canonical scenario.
pub open spec fn override_entries(
    seed: Option<u32>,
    max_ticks: Option<u32>,
    capture_dir: Option<Seq<char>>,
) -> Seq<(Seq<char>, EchoedV1)> {
    let dir = match capture_dir {
        Some(d) => seq![("captureDir"@, EchoedV1::Text(d))],
        None => Seq::empty(),
    };
    let ticks = match max_ticks {
        Some(m) => seq![("maxTicks"@, EchoedV1::Number(m))],
        None => Seq::empty(),
    };
    let seeds = match seed {
        Some(v) => seq![("seed"@, EchoedV1::Number(v))],
        None => Seq::empty(),
    };
    dir + ticks + seeds
}

pub open spec fn text_view(s: Option<&str>) -> Option<Seq<char>> {
    match s {
        Some(t) => Some(t@),
        None => None,
    }
}

/// The override echo of a run's result document.
pub fn override_echo(seed: Option<u32>, max_ticks: Option<u32>, capture_dir: Option<&str>) -> (r: Vec<
    (String, JsonV1),
>)
    ensures
        r@.len() == override_entries(seed, max_ticks, text_view(capture_dir)).len(),
        forall|i: int|
            0 <= i < r@.len() ==> (#[trigger] r@[i]).0@ == override_entries(
                seed,
                max_ticks,
                text_view(capture_dir),
            )[i].0 && echoes(r@[i].1, override_entries(seed, max_ticks, text_view(capture_dir))[i].1),
{
    let ghost entries = override_entries(seed, max_ticks, text_view(capture_dir));
    let mut r: Vec<(String, JsonV1)> = Vec::new();
    if let Some(dir) = capture_dir {
        r.push(("captureDir".to_owned(), JsonV1::Text(dir.to_owned())));
    }
    if let Some(m) = max_ticks {
        r.push(("maxTicks".to_owned(), JsonV1::Number(JsonNumberV1::PosInt(m as u64))));
    }
    if let Some(v) = seed {
        r.push(("seed".to_owned(), JsonV1::Number(JsonNumberV1::PosInt(v as u64))));
    }
    r
}

/// The verdict and effective inputs a run result reports.
#[derive(Clone, Copy, Debug, PartialEq, Eq, Structural)]
pub struct RunSummaryV1 {
    /// Status `passed` rather than `failed`.
    pub passed: bool,
    pub seed: u32,
    /// The fixed ticks that ran.
    pub ticks_run: u32,
    /// Whether the offscreen renderer was created.
    pub gpu_initialized: bool,
}

/// The summary of a completed run: it passed exactly when no assertion
/// failed, it ran the effective tick limit with the effective seed, and it
/// created a GPU exactly when the scenario declares captures.
pub fn run_summary(scenario: &ScenarioV1, failures: usize) -> (r: RunSummaryV1)
    ensures
        r.passed == (failures == 0),
        r.seed == scenario.seed,
        r.ticks_run == scenario.max_ticks,
        r.gpu_initialized == (scenario.captures@.len() > 0),
{
    RunSummaryV1 {
        passed: failures == 0,
        seed: scenario.seed,
        ticks_run: scenario.max_ticks,
        gpu_initialized: scenario.captures.len() > 0,
    }
}

/// The summary of a run that failed before it could run: no ticks, no GPU,
/// and the requested seed override, or zero.
pub fn failed_summary(seed_override: Option<u32>) -> (r: RunSummaryV1)
    ensures
        !r.passed,
        r.seed == (match seed_override {
            Some(s) => s,
            None => 0,
        }),
        r.ticks_run == 0,
        !r.gpu_initialized,
{
    let seed = match seed_override {
        Some(s) => s,
        None => 0,
    };
    RunSummaryV1 { passed: false, seed, ticks_run: 0, gpu_initialized: false }
}

} // verus!
