//! Strict, versioned scenario and normalized input-tape formats.
//!
//! Parsing from JSON happens at the edge; everything a parsed scenario or
//! tape must satisfy before a map or GPU is touched is checked here.
//!
//! Floating-point quantities of the formats (axes, near-assertion values) are
//! carried as their IEEE-754 bit patterns, so that the range and finiteness
//! rules are exact integer conditions.

use vstd::prelude::*;

use crate::contract::{SLICE_SCHEMA_V1, TICK_RATE_V1};
use crate::json::JsonV1;
use crate::text::chars_of;

verus! {

/// Event vocabulary that scenarios may count.
#[derive(Clone, Copy, Debug, PartialEq, Eq, Structural, PartialOrd, Ord)]
pub enum EventNameV1 {
    ShotFired,
    TargetHit,
    TargetDestroyed,
    PlayerDamaged,
    PlayerDied,
    RoundReset,
}

/// A state assertion checked after a run.
///
/// `Near` carries its value and tolerance as `f64` bit patterns.
#[derive(Debug, PartialEq)]
pub enum AssertionV1 {
    Equals { tick: u32, path: String, value: JsonV1 },
    Near { tick: u32, path: String, value_bits: u64, tolerance_bits: u64 },
    EventCount { event: EventNameV1, count: u32 },
}

/// A request to capture a frame at an exact tick.
#[derive(Clone, Debug, PartialEq, Eq)]
pub struct CaptureV1 {
    pub tick: u32,
    pub name: String,
}

/// A checked-in scenario definition.
#[derive(Debug, PartialEq)]
pub struct ScenarioV1 {
    pub schema: u32,
    pub name: String,
    pub map: String,
    pub seed: u32,
    pub tick_rate: u32,
    pub max_ticks: u32,
    pub player_spawn: String,
    pub input_tape: String,
    pub assertions: Vec<AssertionV1>,
    pub captures: Vec<CaptureV1>,
}

/// Which list a tick bound was checked for.
#[derive(Clone, Copy, Debug, PartialEq, Eq, Structural)]
pub enum TickKindV1 {
    Assertion,
    Capture,
}

/// Which axis pair of an input frame was out of range.
#[derive(Clone, Copy, Debug, PartialEq, Eq, Structural)]
pub enum AxisKindV1 {
    Move,
    Look,
}

/// Why a scenario, a tape or a run setup was refused.
#[derive(Clone, Debug, PartialEq, Eq)]
pub enum ScenarioErrorV1 {
    UnsupportedSchema { schema: u32 },
    UnsupportedTickRate { tick_rate: u32 },
    EmptyScenarioField,
    NonPositiveMaxTicks,
    TickExceedsMaxTicks { kind: TickKindV1, tick: u32, max_ticks: u32 },
    InvalidAssertionPath,
    InvalidNearAssertion,
    EmptyCaptureName,
    DuplicateCaptureName { name: String },
    DuplicateCaptureTick { tick: u32 },
    NonIncreasingFrameTicks,
    InvalidAxes { kind: AxisKindV1 },
    DuplicateAction { action: ActionV1, tick: u32 },
    NameMismatch { name: String, requested: String },
    ZeroSeed,
    NonPositiveMaxTicksOverride,
    FrameExceedsMaxTicks { tick: u32, max_ticks: u32 },
    NoMatchingSpawn { name: String },
}

/// A normalized input action.
#[derive(Clone, Copy, Debug, PartialEq, Eq, Structural, PartialOrd, Ord)]
pub enum ActionV1 {
    Fire,
    Reload,
}

// ---- header, ticks and paths ------------------------------------------------

pub open spec fn header_result(schema: u32, tick_rate: u32) -> Result<(), ScenarioErrorV1> {
    if schema != SLICE_SCHEMA_V1 {
        Err(ScenarioErrorV1::UnsupportedSchema { schema })
    } else if tick_rate != TICK_RATE_V1 {
        Err(ScenarioErrorV1::UnsupportedTickRate { tick_rate })
    } else {
        Ok(())
    }
}

pub fn validate_header(schema: u32, tick_rate: u32) -> (r: Result<(), ScenarioErrorV1>)
    ensures
        r == header_result(schema, tick_rate),
{
    if schema != SLICE_SCHEMA_V1 {
        return Err(ScenarioErrorV1::UnsupportedSchema { schema });
    }
    if tick_rate != TICK_RATE_V1 {
        return Err(ScenarioErrorV1::UnsupportedTickRate { tick_rate });
    }
    Ok(())
}

pub open spec fn tick_result(tick: u32, max_ticks: u32, kind: TickKindV1) -> Result<
    (),
    ScenarioErrorV1,
> {
    if tick > max_ticks {
        Err(ScenarioErrorV1::TickExceedsMaxTicks { kind, tick, max_ticks })
    } else {
        Ok(())
    }
}

pub fn validate_tick(tick: u32, max_ticks: u32, kind: TickKindV1) -> (r: Result<
    (),
    ScenarioErrorV1,
>)
    ensures
        r == tick_result(tick, max_ticks, kind),
{
    if tick > max_ticks {
        return Err(ScenarioErrorV1::TickExceedsMaxTicks { kind, tick, max_ticks });
    }
    Ok(())
}

/// A dot-separated path whose segments are all non-empty: it is non-empty,
/// neither starts nor ends with a dot, and has no two dots in a row.
pub open spec fn dot_path_valid(path: Seq<char>) -> bool {
    &&& path.len() > 0
    &&& path[0] != '.'
    &&& path[path.len() - 1] != '.'
    &&& forall|i: int| 0 <= i < path.len() - 1 ==> !(#[trigger] path[i] == '.' && path[i + 1] == '.')
}

pub fn validate_path(path: &str) -> (r: Result<(), ScenarioErrorV1>)
    ensures
        r == (if dot_path_valid(path@) {
            Ok(())
        } else {
            Err(ScenarioErrorV1::InvalidAssertionPath)
        }),
{
    let p = chars_of(path);
    let n = p.len();
    if n == 0 || p[0] == '.' || p[n - 1] == '.' {
        return Err(ScenarioErrorV1::InvalidAssertionPath);
    }
    for i in 0..n - 1
        invariant
            p@ == path@,
            n == p@.len(),
            n > 0,
            forall|j: int| 0 <= j < i ==> !(#[trigger] p@[j] == '.' && p@[j + 1] == '.'),
    {
        if p[i] == '.' && p[i + 1] == '.' {
            return Err(ScenarioErrorV1::InvalidAssertionPath);
        }
    }
    Ok(())
}

// ---- IEEE-754 bit-pattern rules ----------------------------------------------

/// The exponent field of an `f64` bit pattern.
pub open spec fn f64_exponent(bits: u64) -> u64 {
    (bits >> 52u64) & 0x7ffu64
}

/// An `f64` is finite exactly when its exponent field is not all ones.
pub open spec fn f64_finite(bits: u64) -> bool {
    f64_exponent(bits) != 0x7ffu64
}

/// An `f64` compares below zero exactly when it is not NaN, its sign bit is
/// set and it is not a zero.
pub open spec fn f64_below_zero(bits: u64) -> bool {
    &&& !(f64_exponent(bits) == 0x7ffu64 && (bits & 0xf_ffff_ffff_ffffu64) != 0)
    &&& (bits >> 63u64) == 1
    &&& (bits & 0x7fff_ffff_ffff_ffffu64) != 0
}

/// The exponent field of an `f32` bit pattern.
pub open spec fn f32_exponent(bits: u32) -> u32 {
    (bits >> 23u32) & 0xffu32
}

/// An `f32` axis is finite and lies in `[-1, 1]`: its exponent field is not
/// all ones and its magnitude is at most that of `1.0` (bits `0x3f80_0000`).
pub open spec fn axis_normalized(bits: u32) -> bool {
    f32_exponent(bits) != 0xffu32 && (bits & 0x7fff_ffffu32) <= 0x3f80_0000u32
}

/// A pair of axes as `f32` bit patterns.
#[derive(Clone, Copy, Debug, PartialEq, Eq, Structural)]
pub struct AxesV1 {
    pub x_bits: u32,
    pub y_bits: u32,
}

pub open spec fn axes_normalized(axes: Option<AxesV1>) -> bool {
    match axes {
        Some(pair) => axis_normalized(pair.x_bits) && axis_normalized(pair.y_bits),
        None => true,
    }
}

fn axis_is_normalized(bits: u32) -> (r: bool)
    ensures
        r == axis_normalized(bits),
{
    ((bits >> 23u32) & 0xffu32) != 0xffu32 && (bits & 0x7fff_ffffu32) <= 0x3f80_0000u32
}

pub fn validate_axes(axes: Option<AxesV1>, kind: AxisKindV1) -> (r: Result<(), ScenarioErrorV1>)
    ensures
        r == (if axes_normalized(axes) {
            Ok(())
        } else {
            Err(ScenarioErrorV1::InvalidAxes { kind })
        }),
{
    match axes {
        Some(pair) => {
            if !axis_is_normalized(pair.x_bits) || !axis_is_normalized(pair.y_bits) {
                return Err(ScenarioErrorV1::InvalidAxes { kind });
            }
            Ok(())
        },
        None => Ok(()),
    }
}

// ---- scenarios -------------------------------------------------------------

/// The outcome of checking one assertion against the tick limit.
pub open spec fn assertion_result(assertion: AssertionV1, max_ticks: u32) -> Result<
    (),
    ScenarioErrorV1,
> {
    match assertion {
        AssertionV1::Equals { tick, path, .. } => if tick > max_ticks {
            tick_result(tick, max_ticks, TickKindV1::Assertion)
        } else if !dot_path_valid(path@) {
            Err(ScenarioErrorV1::InvalidAssertionPath)
        } else {
            Ok(())
        },
        AssertionV1::Near { tick, path, value_bits, tolerance_bits } => if tick > max_ticks {
            tick_result(tick, max_ticks, TickKindV1::Assertion)
        } else if !dot_path_valid(path@) {
            Err(ScenarioErrorV1::InvalidAssertionPath)
        } else if !f64_finite(value_bits) || !f64_finite(tolerance_bits) || f64_below_zero(
            tolerance_bits,
        ) {
            Err(ScenarioErrorV1::InvalidNearAssertion)
        } else {
            Ok(())
        },
        AssertionV1::EventCount { .. } => Ok(()),
    }
}

/// The error of the first of the first `n` assertions that fails, or `Ok`.
pub open spec fn assertions_result(assertions: Seq<AssertionV1>, n: int, max_ticks: u32) -> Result<
    (),
    ScenarioErrorV1,
>
    decreases n,
{
    if n <= 0 {
        Ok(())
    } else if assertions_result(assertions, n - 1, max_ticks) is Err {
        assertions_result(assertions, n - 1, max_ticks)
    } else {
        assertion_result(assertions[n - 1], max_ticks)
    }
}

/// The outcome of checking capture `i` given the captures before it.
pub open spec fn capture_result(captures: Seq<CaptureV1>, i: int, max_ticks: u32) -> Result<
    (),
    ScenarioErrorV1,
> {
    let capture = captures[i];
    if capture.tick > max_ticks {
        tick_result(capture.tick, max_ticks, TickKindV1::Capture)
    } else if capture.name@.len() == 0 {
        Err(ScenarioErrorV1::EmptyCaptureName)
    } else if exists|j: int| 0 <= j < i && (#[trigger] captures[j]).name@ == capture.name@ {
        Err(ScenarioErrorV1::DuplicateCaptureName { name: capture.name })
    } else if exists|j: int| 0 <= j < i && (#[trigger] captures[j]).tick == capture.tick {
        Err(ScenarioErrorV1::DuplicateCaptureTick { tick: capture.tick })
    } else {
        Ok(())
    }
}

/// The error of the first of the first `n` captures that fails, or `Ok`.
pub open spec fn captures_result(captures: Seq<CaptureV1>, n: int, max_ticks: u32) -> Result<
    (),
    ScenarioErrorV1,
>
    decreases n,
{
    if n <= 0 {
        Ok(())
    } else if captures_result(captures, n - 1, max_ticks) is Err {
        captures_result(captures, n - 1, max_ticks)
    } else {
        capture_result(captures, n - 1, max_ticks)
    }
}

/// The outcome of validating a scenario: its header, its required fields,
/// then each assertion and each capture in order.
pub open spec fn scenario_result(s: ScenarioV1) -> Result<(), ScenarioErrorV1> {
    if header_result(s.schema, s.tick_rate) is Err {
        header_result(s.schema, s.tick_rate)
    } else if s.name@.len() == 0 || s.map@.len() == 0 || s.player_spawn@.len() == 0 {
        Err(ScenarioErrorV1::EmptyScenarioField)
    } else if s.max_ticks == 0 {
        Err(ScenarioErrorV1::NonPositiveMaxTicks)
    } else if assertions_result(s.assertions@, s.assertions@.len() as int, s.max_ticks) is Err {
        assertions_result(s.assertions@, s.assertions@.len() as int, s.max_ticks)
    } else {
        captures_result(s.captures@, s.captures@.len() as int, s.max_ticks)
    }
}

fn f64_is_finite(bits: u64) -> (r: bool)
    ensures
        r == f64_finite(bits),
{
    ((bits >> 52u64) & 0x7ffu64) != 0x7ffu64
}

fn f64_is_below_zero(bits: u64) -> (r: bool)
    ensures
        r == f64_below_zero(bits),
{
    let nan = ((bits >> 52u64) & 0x7ffu64) == 0x7ffu64 && (bits & 0xf_ffff_ffff_ffffu64) != 0;
    !nan && (bits >> 63u64) == 1 && (bits & 0x7fff_ffff_ffff_ffffu64) != 0
}

fn validate_assertion(assertion: &AssertionV1, max_ticks: u32) -> (r: Result<(), ScenarioErrorV1>)
    ensures
        r == assertion_result(*assertion, max_ticks),
{
    match assertion {
        AssertionV1::Equals { tick, path, .. } => {
            validate_tick(*tick, max_ticks, TickKindV1::Assertion)?;
            validate_path(path.as_str())?;
            Ok(())
        },
        AssertionV1::Near { tick, path, value_bits, tolerance_bits } => {
            validate_tick(*tick, max_ticks, TickKindV1::Assertion)?;
            validate_path(path.as_str())?;
            if !f64_is_finite(*value_bits) || !f64_is_finite(*tolerance_bits) || f64_is_below_zero(
                *tolerance_bits,
            ) {
                return Err(ScenarioErrorV1::InvalidNearAssertion);
            }
            Ok(())
        },
        AssertionV1::EventCount { .. } => Ok(()),
    }
}

fn validate_capture(captures: &Vec<CaptureV1>, i: usize, max_ticks: u32) -> (r: Result<
    (),
    ScenarioErrorV1,
>)
    requires
        i < captures@.len(),
    ensures
        r == capture_result(captures@, i as int, max_ticks),
{
    let capture = &captures[i];
    validate_tick(capture.tick, max_ticks, TickKindV1::Capture)?;
    if capture.name.as_str().is_empty() {
        return Err(ScenarioErrorV1::EmptyCaptureName);
    }
    for j in 0..i
        invariant
            i < captures@.len(),
            capture == captures@[i as int],
            capture.tick <= max_ticks,
            capture.name@.len() > 0,
            forall|k: int| 0 <= k < j ==> (#[trigger] captures@[k]).name@ != capture.name@,
    {
        if captures[j].name == capture.name {
            assert(captures@[j as int].name@ == capture.name@);
            return Err(ScenarioErrorV1::DuplicateCaptureName { name: capture.name.clone() });
        }
    }
    for j in 0..i
        invariant
            i < captures@.len(),
            capture == captures@[i as int],
            capture.tick <= max_ticks,
            capture.name@.len() > 0,
            forall|k: int| 0 <= k < i ==> (#[trigger] captures@[k]).name@ != capture.name@,
            forall|k: int| 0 <= k < j ==> (#[trigger] captures@[k]).tick != capture.tick,
    {
        if captures[j].tick == capture.tick {
            assert(captures@[j as int].tick == capture.tick);
            return Err(ScenarioErrorV1::DuplicateCaptureTick { tick: capture.tick });
        }
    }
    Ok(())
}

proof fn lemma_assertions_err_stable(assertions: Seq<AssertionV1>, k: int, n: int, max_ticks: u32)
    requires
        0 <= k <= n,
        assertions_result(assertions, k, max_ticks) is Err,
    ensures
        assertions_result(assertions, n, max_ticks) == assertions_result(assertions, k, max_ticks),
    decreases n - k,
{
    if k < n {
        lemma_assertions_err_stable(assertions, k, n - 1, max_ticks);
    }
}

proof fn lemma_captures_err_stable(captures: Seq<CaptureV1>, k: int, n: int, max_ticks: u32)
    requires
        0 <= k <= n,
        captures_result(captures, k, max_ticks) is Err,
    ensures
        captures_result(captures, n, max_ticks) == captures_result(captures, k, max_ticks),
    decreases n - k,
{
    if k < n {
        lemma_captures_err_stable(captures, k, n - 1, max_ticks);
    }
}

proof fn lemma_captures_ok_prefix(captures: Seq<CaptureV1>, n: int, max_ticks: u32)
    requires
        0 <= n <= captures.len(),
        captures_result(captures, n, max_ticks) is Ok,
    ensures
        forall|i: int| 0 <= i < n ==> #[trigger] capture_result(captures, i, max_ticks) is Ok,
    decreases n,
{
    if n > 0 {
        lemma_captures_ok_prefix(captures, n - 1, max_ticks);
    }
}

/// A scenario that validates has captures with pairwise distinct names and
/// pairwise distinct ticks, each named and within the tick limit: a repeated
/// name or tick anywhere in the list is refused, not only next to its twin.
pub proof fn valid_scenarios_have_distinct_captures(s: ScenarioV1)
    requires
        scenario_result(s) is Ok,
    ensures
        forall|i: int, j: int|
            0 <= i < j < s.captures@.len() ==> (#[trigger] s.captures@[i]).name@
                != (#[trigger] s.captures@[j]).name@ && s.captures@[i].tick != s.captures@[j].tick,
        forall|i: int|
            0 <= i < s.captures@.len() ==> (#[trigger] s.captures@[i]).tick <= s.max_ticks
                && s.captures@[i].name@.len() > 0,
{
    let caps = s.captures@;
    lemma_captures_ok_prefix(caps, caps.len() as int, s.max_ticks);
    assert forall|i: int, j: int| 0 <= i < j < caps.len() implies (#[trigger] caps[i]).name@
        != (#[trigger] caps[j]).name@ && caps[i].tick != caps[j].tick by {
        assert(capture_result(caps, j, s.max_ticks) is Ok);
        if caps[i].name@ == caps[j].name@ {
            assert(exists|k: int| 0 <= k < j && (#[trigger] caps[k]).name@ == caps[j].name@);
        }
        if caps[i].tick == caps[j].tick {
            assert(exists|k: int| 0 <= k < j && (#[trigger] caps[k]).tick == caps[j].tick);
        }
    }
    assert forall|i: int| 0 <= i < caps.len() implies (#[trigger] caps[i]).tick <= s.max_ticks
        && caps[i].name@.len() > 0 by {
        assert(capture_result(caps, i, s.max_ticks) is Ok);
    }
}

impl ScenarioV1 {
    pub fn validate(&self) -> (r: Result<(), ScenarioErrorV1>)
        ensures
            r == scenario_result(*self),
    {
        validate_header(self.schema, self.tick_rate)?;
        if self.name.as_str().is_empty() || self.map.as_str().is_empty()
            || self.player_spawn.as_str().is_empty() {
            return Err(ScenarioErrorV1::EmptyScenarioField);
        }
        if self.max_ticks == 0 {
            return Err(ScenarioErrorV1::NonPositiveMaxTicks);
        }
        let n = self.assertions.len();
        for i in 0..n
            invariant
                n == self.assertions@.len(),
                header_result(self.schema, self.tick_rate) is Ok,
                !(self.name@.len() == 0 || self.map@.len() == 0 || self.player_spawn@.len() == 0),
                self.max_ticks != 0,
                assertions_result(self.assertions@, i as int, self.max_ticks) is Ok,
        {
            let checked = validate_assertion(&self.assertions[i], self.max_ticks);
            if checked.is_err() {
                proof {
                    lemma_assertions_err_stable(
                        self.assertions@,
                        i + 1,
                        n as int,
                        self.max_ticks,
                    );
                }
                return checked;
            }
        }
        let m = self.captures.len();
        for i in 0..m
            invariant
                m == self.captures@.len(),
                n == self.assertions@.len(),
                header_result(self.schema, self.tick_rate) is Ok,
                !(self.name@.len() == 0 || self.map@.len() == 0 || self.player_spawn@.len() == 0),
                self.max_ticks != 0,
                assertions_result(self.assertions@, n as int, self.max_ticks) is Ok,
                captures_result(self.captures@, i as int, self.max_ticks) is Ok,
        {
            let checked = validate_capture(&self.captures, i, self.max_ticks);
            if checked.is_err() {
                proof {
                    lemma_captures_err_stable(self.captures@, i + 1, m as int, self.max_ticks);
                }
                return checked;
            }
        }
        Ok(())
    }
}

// ---- input tapes -------------------------------------------------------------

/// One change point of an input tape. Axes are `f32` bit patterns.
#[derive(Clone, Debug, PartialEq, Eq)]
pub struct InputFrameV1 {
    pub tick: u32,
    pub movement: Option<AxesV1>,
    pub look: Option<AxesV1>,
    pub actions: Option<Vec<ActionV1>>,
}

/// A normalized input tape: sparse change points in tick order.
#[derive(Clone, Debug, PartialEq, Eq)]
pub struct InputTapeV1 {
    pub schema: u32,
    pub tick_rate: u32,
    pub frames: Vec<InputFrameV1>,
}

/// The error of the first of the first `n` actions that repeats an earlier
/// one, or `Ok`.
pub open spec fn actions_result(actions: Seq<ActionV1>, n: int, tick: u32) -> Result<
    (),
    ScenarioErrorV1,
>
    decreases n,
{
    if n <= 0 {
        Ok(())
    } else if actions_result(actions, n - 1, tick) is Err {
        actions_result(actions, n - 1, tick)
    } else if exists|j: int| 0 <= j < n - 1 && #[trigger] actions[j] == actions[n - 1] {
        Err(ScenarioErrorV1::DuplicateAction { action: actions[n - 1], tick })
    } else {
        Ok(())
    }
}

/// The outcome of checking frame `i` of a tape given the frame before it.
pub open spec fn frame_result(frames: Seq<InputFrameV1>, i: int) -> Result<(), ScenarioErrorV1> {
    let frame = frames[i];
    if i > 0 && frame.tick <= frames[i - 1].tick {
        Err(ScenarioErrorV1::NonIncreasingFrameTicks)
    } else if !axes_normalized(frame.movement) {
        Err(ScenarioErrorV1::InvalidAxes { kind: AxisKindV1::Move })
    } else if !axes_normalized(frame.look) {
        Err(ScenarioErrorV1::InvalidAxes { kind: AxisKindV1::Look })
    } else {
        match frame.actions {
            Some(actions) => actions_result(actions@, actions@.len() as int, frame.tick),
            None => Ok(()),
        }
    }
}

/// The error of the first of the first `n` frames that fails, or `Ok`.
pub open spec fn frames_result(frames: Seq<InputFrameV1>, n: int) -> Result<(), ScenarioErrorV1>
    decreases n,
{
    if n <= 0 {
        Ok(())
    } else if frames_result(frames, n - 1) is Err {
        frames_result(frames, n - 1)
    } else {
        frame_result(frames, n - 1)
    }
}

/// The outcome of validating a tape: its header, then each frame in order.
pub open spec fn tape_result(tape: InputTapeV1) -> Result<(), ScenarioErrorV1> {
    if header_result(tape.schema, tape.tick_rate) is Err {
        header_result(tape.schema, tape.tick_rate)
    } else {
        frames_result(tape.frames@, tape.frames@.len() as int)
    }
}

/// Frame ticks strictly increase.
pub open spec fn ticks_strictly_increasing(frames: Seq<InputFrameV1>) -> bool {
    forall|i: int, j: int| 0 <= i < j < frames.len() ==> #[trigger] frames[i].tick < #[trigger] frames[j].tick
}

proof fn lemma_actions_err_stable(actions: Seq<ActionV1>, k: int, n: int, tick: u32)
    requires
        0 <= k <= n,
        actions_result(actions, k, tick) is Err,
    ensures
        actions_result(actions, n, tick) == actions_result(actions, k, tick),
    decreases n - k,
{
    if k < n {
        lemma_actions_err_stable(actions, k, n - 1, tick);
    }
}

proof fn lemma_frames_err_stable(frames: Seq<InputFrameV1>, k: int, n: int)
    requires
        0 <= k <= n,
        frames_result(frames, k) is Err,
    ensures
        frames_result(frames, n) == frames_result(frames, k),
    decreases n - k,
{
    if k < n {
        lemma_frames_err_stable(frames, k, n - 1);
    }
}

fn validate_actions(actions: &Vec<ActionV1>, tick: u32) -> (r: Result<(), ScenarioErrorV1>)
    ensures
        r == actions_result(actions@, actions@.len() as int, tick),
{
    let n = actions.len();
    for k in 0..n
        invariant
            n == actions@.len(),
            actions_result(actions@, k as int, tick) is Ok,
    {
        let action = actions[k];
        for j in 0..k
            invariant
                k < n,
                n == actions@.len(),
                action == actions@[k as int],
                actions_result(actions@, k as int, tick) is Ok,
                forall|l: int| 0 <= l < j ==> #[trigger] actions@[l] != action,
        {
            if actions[j] == action {
                assert(actions@[j as int] == actions@[k as int]);
                proof {
                    lemma_actions_err_stable(actions@, k + 1, n as int, tick);
                }
                return Err(ScenarioErrorV1::DuplicateAction { action, tick });
            }
        }
    }
    Ok(())
}

fn validate_frame(frames: &Vec<InputFrameV1>, i: usize) -> (r: Result<(), ScenarioErrorV1>)
    requires
        i < frames@.len(),
    ensures
        r == frame_result(frames@, i as int),
{
    let frame = &frames[i];
    if i > 0 && frame.tick <= frames[i - 1].tick {
        return Err(ScenarioErrorV1::NonIncreasingFrameTicks);
    }
    validate_axes(frame.movement, AxisKindV1::Move)?;
    validate_axes(frame.look, AxisKindV1::Look)?;
    match &frame.actions {
        Some(actions) => validate_actions(actions, frame.tick),
        None => Ok(()),
    }
}

impl InputTapeV1 {
    pub fn validate(&self) -> (r: Result<(), ScenarioErrorV1>)
        ensures
            r == tape_result(*self),
    {
        validate_header(self.schema, self.tick_rate)?;
        let n = self.frames.len();
        for i in 0..n
            invariant
                n == self.frames@.len(),
                header_result(self.schema, self.tick_rate) is Ok,
                frames_result(self.frames@, i as int) is Ok,
        {
            let checked = validate_frame(&self.frames, i);
            if checked.is_err() {
                proof {
                    lemma_frames_err_stable(self.frames@, i + 1, n as int);
                }
                return checked;
            }
        }
        Ok(())
    }
}

/// A tape that passed validation has strictly increasing frame ticks.
pub proof fn validated_tape_ticks_increase(tape: InputTapeV1)
    requires
        tape_result(tape) is Ok,
    ensures
        ticks_strictly_increasing(tape.frames@),
{
    let frames = tape.frames@;
    lemma_frames_ok_prefix(frames, frames.len() as int);
    assert forall|i: int, j: int| 0 <= i < j < frames.len() implies #[trigger] frames[i].tick
        < #[trigger] frames[j].tick by {
        lemma_ticks_increase_between(frames, i, j);
    }
}

proof fn lemma_frames_ok_prefix(frames: Seq<InputFrameV1>, n: int)
    requires
        0 <= n <= frames.len(),
        frames_result(frames, n) is Ok,
    ensures
        forall|i: int| 0 <= i < n ==> #[trigger] frame_result(frames, i) is Ok,
    decreases n,
{
    if n > 0 {
        lemma_frames_ok_prefix(frames, n - 1);
    }
}

proof fn lemma_ticks_increase_between(frames: Seq<InputFrameV1>, i: int, j: int)
    requires
        0 <= i < j < frames.len(),
        forall|k: int| 0 <= k < frames.len() ==> #[trigger] frame_result(frames, k) is Ok,
    ensures
        frames[i].tick < frames[j].tick,
    decreases j - i,
{
    assert(frame_result(frames, j) is Ok);
    if j - 1 > i {
        lemma_ticks_increase_between(frames, i, j - 1);
    }
}

/// The input held between change points.
#[derive(Clone, Copy, Debug, PartialEq, Eq, Structural)]
pub struct TapeStateV1 {
    pub movement: AxesV1,
    pub look: AxesV1,
    pub fire: bool,
    pub reload: bool,
}

/// The input the simulation receives for one tick. Axes are `f32` bit
/// patterns.
#[derive(Clone, Copy, Debug, PartialEq, Eq, Structural)]
pub struct TapeInputV1 {
    pub move_x_bits: u32,
    pub move_y_bits: u32,
    pub fire: bool,
    pub reload: bool,
}

/// The held state before any change point: no movement, no look, nothing
/// pressed.
pub open spec fn initial_tape_state() -> TapeStateV1 {
    TapeStateV1 {
        movement: AxesV1 { x_bits: 0, y_bits: 0 },
        look: AxesV1 { x_bits: 0, y_bits: 0 },
        fire: false,
        reload: false,
    }
}

/// The effect of one change point: given axes replace the held ones, and a
/// given action list replaces the whole held action set.
pub open spec fn apply_frame(state: TapeStateV1, frame: InputFrameV1) -> TapeStateV1 {
    TapeStateV1 {
        movement: match frame.movement {
            Some(m) => m,
            None => state.movement,
        },
        look: match frame.look {
            Some(l) => l,
            None => state.look,
        },
        fire: match frame.actions {
            Some(a) => a@.contains(ActionV1::Fire),
            None => state.fire,
        },
        reload: match frame.actions {
            Some(a) => a@.contains(ActionV1::Reload),
            None => state.reload,
        },
    }
}

/// `state` after the change points `frames[from..to]`, in order.
pub open spec fn replay_from(state: TapeStateV1, frames: Seq<InputFrameV1>, from: int, to: int) -> TapeStateV1
    decreases to - from,
{
    if to <= from {
        state
    } else {
        apply_frame(replay_from(state, frames, from, to - 1), frames[to - 1])
    }
}

fn contains_action(actions: &Vec<ActionV1>, action: ActionV1) -> (r: bool)
    ensures
        r == actions@.contains(action),
{
    let n = actions.len();
    for i in 0..n
        invariant
            n == actions@.len(),
            forall|j: int| 0 <= j < i ==> actions@[j] != action,
    {
        if actions[i] == action {
            assert(actions@[i as int] == action);
            return true;
        }
    }
    false
}

impl TapeStateV1 {
    pub fn new() -> (r: TapeStateV1)
        ensures
            r == initial_tape_state(),
    {
        TapeStateV1 {
        movement: AxesV1 { x_bits: 0, y_bits: 0 },
        look: AxesV1 { x_bits: 0, y_bits: 0 },
        fire: false,
        reload: false,
    }
    }

    pub fn apply(&mut self, frame: &InputFrameV1)
        ensures
            *final(self) == apply_frame(*old(self), *frame),
    {
        if let Some(movement) = frame.movement {
            self.movement = movement;
        }
        if let Some(look) = frame.look {
            self.look = look;
        }
        if let Some(actions) = &frame.actions {
            self.fire = contains_action(actions, ActionV1::Fire);
            self.reload = contains_action(actions, ActionV1::Reload);
        }
    }

    pub fn sim_input(&self) -> (r: TapeInputV1)
        ensures
            r == (TapeInputV1 {
                move_x_bits: self.movement.x_bits,
                move_y_bits: self.movement.y_bits,
                fire: self.fire,
                reload: self.reload,
            }),
    {
        TapeInputV1 {
            move_x_bits: self.movement.x_bits,
            move_y_bits: self.movement.y_bits,
            fire: self.fire,
            reload: self.reload,
        }
    }
}

/// A change point holds until the next one: axes and actions a frame does
/// not mention keep their held values.
pub proof fn unmentioned_inputs_persist(state: TapeStateV1, frame: InputFrameV1)
    ensures
        frame.movement is None ==> apply_frame(state, frame).movement == state.movement,
        frame.look is None ==> apply_frame(state, frame).look == state.look,
        frame.actions is None ==> apply_frame(state, frame).fire == state.fire
            && apply_frame(state, frame).reload == state.reload,
{
}

/// An empty action list releases every held action.
pub proof fn empty_actions_release_everything(state: TapeStateV1, frame: InputFrameV1)
    requires
        frame.actions matches Some(actions) && actions@.len() == 0,
    ensures
        !apply_frame(state, frame).fire,
        !apply_frame(state, frame).reload,
{
}

/// Progress through a tape: the next unread frame and the input held so far.
#[derive(Clone, Copy, Debug, PartialEq, Eq, Structural)]
pub struct TapeCursorV1 {
    pub next_frame: usize,
    pub state: TapeStateV1,
}

/// The cursor has consumed exactly the frames at or before `tick`, and holds
/// the input they produce in order.
pub open spec fn cursor_at(cursor: TapeCursorV1, frames: Seq<InputFrameV1>, tick: int) -> bool {
    &&& cursor.next_frame <= frames.len()
    &&& forall|j: int| 0 <= j < cursor.next_frame ==> #[trigger] frames[j].tick <= tick
    &&& forall|j: int| cursor.next_frame <= j < frames.len() ==> #[trigger] frames[j].tick > tick
    &&& cursor.state == replay_from(initial_tape_state(), frames, 0, cursor.next_frame as int)
}

proof fn lemma_replay_step(state: TapeStateV1, frames: Seq<InputFrameV1>, from: int, to: int)
    requires
        from <= to,
    ensures
        replay_from(state, frames, from, to + 1) == apply_frame(
            replay_from(state, frames, from, to),
            frames[to],
        ),
{
}

impl TapeCursorV1 {
    /// A cursor before the first tick of a tape.
    pub fn new() -> (r: TapeCursorV1)
        ensures
            r.next_frame == 0,
            r.state == initial_tape_state(),
    {
        TapeCursorV1 { next_frame: 0, state: TapeStateV1::new() }
    }

    /// Consume the change points of `tick`: every frame from the cursor on
    /// whose tick is `tick`, in order. On a tape whose ticks strictly
    /// increase, a cursor that stood at `tick - 1` (or a new cursor, for
    /// tick 0) stands at `tick` afterwards: the held input is every change
    /// point up to `tick` applied in order, so change points persist until
    /// the next one.
    pub fn advance(&mut self, tape: &InputTapeV1, tick: u32)
        ensures
            old(self).next_frame <= final(self).next_frame,
            final(self).next_frame <= tape.frames@.len() || final(self).next_frame == old(self).next_frame,
            forall|j: int| old(self).next_frame <= j < final(self).next_frame ==> #[trigger] tape.frames@[j].tick == tick,
            final(self).next_frame >= tape.frames@.len() || tape.frames@[final(self).next_frame as int].tick != tick,
            final(self).state == replay_from(
                old(self).state,
                tape.frames@,
                old(self).next_frame as int,
                final(self).next_frame as int,
            ),
            ticks_strictly_increasing(tape.frames@) && (cursor_at(*old(self), tape.frames@, tick - 1) || (
            tick == 0 && old(self).next_frame == 0 && old(self).state == initial_tape_state())) ==> cursor_at(*final(self), tape.frames@, tick as int),
    {
        let ghost start = self.next_frame;
        let ghost start_state = self.state;
        let n = tape.frames.len();
        while self.next_frame < n && tape.frames[self.next_frame].tick == tick
            invariant
                n == tape.frames@.len(),
                start <= self.next_frame,
                self.next_frame <= n || self.next_frame == start,
                forall|j: int| start <= j < self.next_frame ==> #[trigger] tape.frames@[j].tick == tick,
                self.state == replay_from(start_state, tape.frames@, start as int, self.next_frame as int),
            decreases n - self.next_frame,
        {
            proof {
                lemma_replay_step(start_state, tape.frames@, start as int, self.next_frame as int);
            }
            self.state.apply(&tape.frames[self.next_frame]);
            self.next_frame = self.next_frame + 1;
        }
        proof {
            let frames = tape.frames@;
            if ticks_strictly_increasing(frames) && (cursor_at(TapeCursorV1 { next_frame: start, state: start_state }, frames, tick - 1) || (tick == 0 && start == 0 && start_state == initial_tape_state())) {
                lemma_replay_concat(initial_tape_state(), frames, 0, start as int, self.next_frame as int);
                let next = self.next_frame as int;
                if next < frames.len() {
                    if start as int <= next - 1 {
                        assert(frames[next - 1].tick == tick);
                        assert(frames[next - 1].tick < frames[next].tick);
                    } else if tick > 0 {
                        assert(frames[next].tick > tick - 1);
                    }
                    assert(frames[next].tick > tick);
                }
                assert forall|j: int| next <= j < frames.len() implies #[trigger] frames[j].tick > tick by {
                    if j > next {
                        assert(frames[next].tick < frames[j].tick);
                    }
                }
                assert forall|j: int| 0 <= j < next implies #[trigger] frames[j].tick <= tick by {
                    if j >= start {
                    } else if tick == 0 {
                    } else {
                        assert(frames[j].tick <= tick - 1);
                    }
                }
            }
        }
    }
}

proof fn lemma_replay_concat(state: TapeStateV1, frames: Seq<InputFrameV1>, a: int, b: int, c: int)
    requires
        a <= b <= c,
    ensures
        replay_from(replay_from(state, frames, a, b), frames, b, c) == replay_from(state, frames, a, c),
    decreases c - b,
{
    if c > b {
        lemma_replay_concat(state, frames, a, b, c - 1);
    }
}

} // verus!
