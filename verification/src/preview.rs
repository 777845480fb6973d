//! Live colour-temperature preview while the strength slider is dragged.
//!
//! The display channel sets an absolute, sticky colour temperature; the host
//! drives it.  This module holds the bookkeeping: whether a preview is in
//! effect, what the system is showing, which registry write was ours, and
//! the crash-residue flag, and decides for each event what to set and
//! whether to raise or clear that flag.

use vstd::prelude::*;
use crate::nightlight::{strength_kelvin, strength_to_kelvin};

verus! {

/// Colour temperature shown while Night Light is off.
pub const NEUTRAL_KELVIN: u32 = 6500;

/// The preview bookkeeping.
pub struct PreviewState {
    /// Strength (0–100) the system shows; `None` while Night Light is off or unknown.
    pub applied: Option<u32>,
    /// Strength being previewed; `Some` while a preview is in effect.
    pub preview: Option<u32>,
    /// Night Light state as we know it.
    pub enabled: bool,
    /// Strength we last wrote to the registry (to recognise its echo).
    pub last_written: Option<u32>,
}

/// What to do with the crash-residue flag in the registry.
#[derive(PartialEq, Eq, Structural, Debug, Clone, Copy)]
pub enum FlagChange {
    /// Leave it.
    Keep,
    /// Set it: a preview has just taken effect.
    Raise,
    /// Delete it: the preview has ended.
    Clear,
}

/// What the host does after a preview event.
#[derive(PartialEq, Eq, Structural, Debug, Clone, Copy)]
pub struct PreviewEffect {
    /// Colour temperature to set on every display, if any.
    pub set_kelvin: Option<u32>,
    /// What to do with the crash-residue flag.
    pub flag: FlagChange,
}

/// The flag follows the preview: raised when one starts, cleared when it
/// ends, left alone otherwise.
pub open spec fn flag_follows(was_engaged: bool, is_engaged: bool, flag: FlagChange) -> bool {
    flag == if !was_engaged && is_engaged {
        FlagChange::Raise
    } else if was_engaged && !is_engaged {
        FlagChange::Clear
    } else {
        FlagChange::Keep
    }
}

/// The bookkeeping before anything is known: no preview, Night Light off.
pub fn new_state() -> (st: PreviewState)
    ensures
        st == (PreviewState { applied: None, preview: None, enabled: false, last_written: None }),
{
    PreviewState { applied: None, preview: None, enabled: false, last_written: None }
}

/// Whether a preview is in effect.
pub fn engaged(st: &PreviewState) -> (r: bool)
    ensures
        r == st.preview is Some,
{
    st.preview.is_some()
}

/// The strength the system shows (tracked, not read).
pub fn applied(st: &PreviewState) -> (r: Option<u32>)
    ensures
        r == st.applied,
{
    st.applied
}

/// Calibrates to the system's state (at start-up, after an on/off switch,
/// after an outside change): `strength` is what the system shows; it is
/// dropped while Night Light is off.  Our last write stops counting as an echo.
pub fn set_system_state(st: &mut PreviewState, enabled: bool, strength: Option<u32>)
    ensures
        *final(st) == step(*old(st), PreviewEvent::Calibrate(enabled, strength)),
        *final(st) == calibrated(*old(st), enabled, strength),
{
    st.enabled = enabled;
    st.applied = if enabled {
        strength
    } else {
        None
    };
    st.last_written = None;
}

/// Records a strength we wrote to the registry (on slider release).
pub fn record_written(st: &mut PreviewState, strength: u32)
    ensures
        *final(st) == step(*old(st), PreviewEvent::Record(strength)),
        *final(st) == (PreviewState { last_written: Some(strength), ..*old(st) }),
{
    st.last_written = Some(strength);
}

/// An outside-change notice is only the echo of our own write: the on/off
/// state and the registry strength both match what we recorded.
pub open spec fn echoes(st: PreviewState, enabled: bool, strength: Option<u32>) -> bool {
    st.enabled == enabled && strength is Some && st.last_written == strength
}

/// Whether an outside-change notice is only the echo of our own write.
pub fn is_echo(st: &PreviewState, enabled: bool, strength: Option<u32>) -> (r: bool)
    ensures
        r == echoes(*st, enabled, strength),
{
    st.enabled == enabled && strength.is_some() && match (st.last_written, strength) {
        (Some(a), Some(b)) => a == b,
        _ => false,
    }
}

/// Dragging the slider to `strength`: set every display to its colour
/// temperature at once.  Nothing happens while Night Light is off (the
/// screen would turn warm with Night Light off) or when the display channel
/// is not ready (not loaded, no display); the release then falls back to the
/// on/off cycle.
pub fn set_preview(st: &mut PreviewState, strength: u32, channel_ready: bool) -> (e: PreviewEffect)
    ensures
        *final(st) == step(*old(st), PreviewEvent::Preview(strength, channel_ready)),
        if old(st).enabled && channel_ready {
            &&& *final(st) == (PreviewState { preview: Some(strength), ..*old(st) })
            &&& e.set_kelvin == Some(strength_kelvin(strength))
        } else {
            &&& *final(st) == *old(st)
            &&& e.set_kelvin is None
        },
        flag_follows(old(st).preview is Some, final(st).preview is Some, e.flag),
{
    if !st.enabled || !channel_ready {
        return PreviewEffect { set_kelvin: None, flag: FlagChange::Keep };
    }
    let first_engage = st.preview.is_none();
    st.preview = Some(strength);
    PreviewEffect {
        set_kelvin: Some(strength_to_kelvin(strength)),
        flag: if first_engage {
            FlagChange::Raise
        } else {
            FlagChange::Keep
        },
    }
}

/// Drops the preview without touching the displays (the system is about to
/// reapply its own value anyway).
pub fn disengage(st: &mut PreviewState) -> (flag: FlagChange)
    ensures
        *final(st) == step(*old(st), PreviewEvent::Disengage),
        *final(st) == (PreviewState { preview: None, ..*old(st) }),
        flag_follows(old(st).preview is Some, false, flag),
{
    if st.preview.is_some() {
        st.preview = None;
        FlagChange::Clear
    } else {
        FlagChange::Keep
    }
}

/// Ends the preview and brings the displays back to what the system should
/// show (`expected`, when known): only if it differs from what the preview set.
/// No preview in effect: nothing at all.
pub fn restore_system(st: &mut PreviewState, expected: Option<u32>) -> (e: PreviewEffect)
    ensures
        *final(st) == step(*old(st), PreviewEvent::Restore(expected)),
        *final(st) == (PreviewState { preview: None, ..*old(st) }),
        flag_follows(old(st).preview is Some, false, e.flag),
        e.set_kelvin == match old(st).preview {
            Some(p) => match expected {
                Some(k) => if k != strength_kelvin(p) {
                    Some(k)
                } else {
                    None
                },
                None => None,
            },
            None => None,
        },
{
    let preview = match st.preview {
        Some(p) => p,
        None => return PreviewEffect { set_kelvin: None, flag: FlagChange::Keep },
    };
    st.preview = None;
    let set_kelvin = match expected {
        Some(k) => if k != strength_to_kelvin(preview) {
            Some(k)
        } else {
            None
        },
        None => None,
    };
    PreviewEffect { set_kelvin, flag: FlagChange::Clear }
}

/// Before the process exits: a preview still in effect (released value not
/// written) is undone; a released one equals the registry and stays.
pub fn shutdown(st: &mut PreviewState, expected: Option<u32>) -> (e: PreviewEffect)
    ensures
        *final(st) == step(*old(st), PreviewEvent::Restore(expected)),
        *final(st) == (PreviewState { preview: None, ..*old(st) }),
        flag_follows(old(st).preview is Some, false, e.flag),
        e.set_kelvin == match old(st).preview {
            Some(p) => match expected {
                Some(k) => if k != strength_kelvin(p) {
                    Some(k)
                } else {
                    None
                },
                None => None,
            },
            None => None,
        },
{
    restore_system(st, expected)
}

/// What `system_expected_kelvin` returns.
pub open spec fn expected_kelvin_spec(enabled: Option<bool>, strength: Option<u32>) -> Option<u32> {
    if enabled == Some(true) {
        match strength {
            Some(s) => Some(strength_kelvin(s)),
            None => None,
        }
    } else {
        Some(NEUTRAL_KELVIN)
    }
}

/// The colour temperature the system should show: that of the registry
/// strength while Night Light is on (`None` when it cannot be read — no
/// guessing), neutral while it is off or its state is unknown.
pub fn system_expected_kelvin(enabled: Option<bool>, strength: Option<u32>) -> (r: Option<u32>)
    ensures
        r == expected_kelvin_spec(enabled, strength),
{
    match enabled {
        Some(true) => match strength {
            Some(s) => Some(strength_to_kelvin(s)),
            None => None,
        },
        _ => Some(NEUTRAL_KELVIN),
    }
}

/// What the displays should show follows the on/off state first: unless
/// Night Light is known to be on, they are neutral (6500 K) whatever strength
/// the registry still stores; while it is on, they show the stored strength's
/// colour temperature (unknown without one), which is warmer than neutral for
/// any strength above 0.
pub proof fn lemma_expected_kelvin(enabled: Option<bool>, strength: Option<u32>)
    ensures
        enabled != Some(true) ==> expected_kelvin_spec(enabled, strength) == Some(6500u32),
        enabled == Some(true) ==> expected_kelvin_spec(enabled, strength) == match strength {
            Some(s) => Some(strength_kelvin(s)),
            None => None,
        },
        enabled == Some(true) && strength is Some && strength->0 > 0 ==> expected_kelvin_spec(
            enabled,
            strength,
        )->0 < 6500,
{
    if enabled == Some(true) {
        if let Some(s) = strength {
            if s > 0 {
                let sc: int = if s > 100 {
                    100
                } else {
                    s as int
                };
                assert(1 <= sc * 5300 / 100 <= 5300) by (nonlinear_arith)
                    requires
                        1 <= sc <= 100,
                ;
            }
        }
    }
}

/// Start-up: `flag` is the crash-residue flag as read, `expected` what the
/// system should show, `enabled` and `strength` the registry state.  A raised
/// flag (a preview outlived its process) is cleared and the displays are set
/// back to `expected`; the bookkeeping is calibrated to the registry.
pub fn init(flag: Option<u32>, expected: Option<u32>, enabled: Option<bool>, strength: Option<u32>) -> (r: (
    PreviewState,
    PreviewEffect,
))
    ensures
        r.0.preview is None,
        r.0.last_written is None,
        r.0.enabled == (enabled == Some(true)),
        r.0.applied == if enabled == Some(true) {
            strength
        } else {
            None
        },
        r.1 == if flag == Some(1u32) {
            PreviewEffect { set_kelvin: expected, flag: FlagChange::Clear }
        } else {
            PreviewEffect { set_kelvin: None, flag: FlagChange::Keep }
        },
{
    let effect = if flag == Some(1u32) {
        PreviewEffect { set_kelvin: expected, flag: FlagChange::Clear }
    } else {
        PreviewEffect { set_kelvin: None, flag: FlagChange::Keep }
    };
    let mut st = new_state();
    let on = match enabled {
        Some(v) => v,
        None => false,
    };
    set_system_state(&mut st, on, strength);
    (st, effect)
}

/// The bookkeeping after calibrating to the system's state.
pub open spec fn calibrated(st: PreviewState, enabled: bool, strength: Option<u32>) -> PreviewState {
    PreviewState {
        enabled,
        applied: if enabled {
            strength
        } else {
            None
        },
        last_written: None,
        ..st
    }
}

/// Our own write is recognised as an echo until the next calibration, and
/// nothing is an echo right after one.
pub proof fn lemma_echo_window(st: PreviewState, s: u32, enabled: bool, strength: Option<u32>)
    ensures
        echoes(PreviewState { last_written: Some(s), ..st }, st.enabled, Some(s)),
        forall|e: bool, v: Option<u32>| !#[trigger] echoes(calibrated(st, enabled, strength), e, v),
{
}


/// Night Light was switched on or off by us: the engine reapplies the
/// registry value, so the preview is dropped without touching the displays
/// and the bookkeeping is calibrated to the new state.
pub fn switched(st: &mut PreviewState, enabled: bool, strength: Option<u32>) -> (flag: FlagChange)
    ensures
        *final(st) == step(*old(st), PreviewEvent::Switched(enabled, strength)),
        *final(st) == calibrated(dropped(*old(st)), enabled, strength),
        flag_follows(old(st).preview is Some, false, flag),
{
    let flag = disengage(st);
    set_system_state(st, enabled, strength);
    flag
}

/// What a restore sets on the displays: the expected colour temperature,
/// when known and different from the preview's; nothing without a preview.
pub open spec fn restore_kelvin(preview: Option<u32>, expected: Option<u32>) -> Option<u32> {
    match preview {
        Some(p) => match expected {
            Some(k) => if k != strength_kelvin(p) {
                Some(k)
            } else {
                None
            },
            None => None,
        },
        None => None,
    }
}

/// The bookkeeping with the preview dropped.
pub open spec fn dropped(st: PreviewState) -> PreviewState {
    PreviewState { preview: None, ..st }
}

/// An outside change was noticed, with the registry state as read after it.
/// Our own write's echo changes nothing (the preview must stay); anything
/// else ends the preview, brings the displays back to what the system should
/// show (only if that differs from the preview), and calibrates.
pub fn external_change(st: &mut PreviewState, enabled: Option<bool>, strength: Option<u32>) -> (e:
    PreviewEffect)
    ensures
        *final(st) == step(*old(st), PreviewEvent::External(enabled, strength)),
        echoes(*old(st), enabled == Some(true), strength) ==> *final(st) == *old(st)
            && e.set_kelvin is None && e.flag == FlagChange::Keep,
        !echoes(*old(st), enabled == Some(true), strength) ==> *final(st) == calibrated(
            dropped(*old(st)),
            enabled == Some(true),
            strength,
        ),
        !echoes(*old(st), enabled == Some(true), strength) ==> flag_follows(
            old(st).preview is Some,
            false,
            e.flag,
        ),
        !echoes(*old(st), enabled == Some(true), strength) ==> e.set_kelvin == restore_kelvin(
            old(st).preview,
            expected_kelvin_spec(enabled, strength),
        ),
{
    let on = match enabled {
        Some(v) => v,
        None => false,
    };
    if is_echo(st, on, strength) {
        return PreviewEffect { set_kelvin: None, flag: FlagChange::Keep };
    }
    let e = restore_system(st, system_expected_kelvin(enabled, strength));
    set_system_state(st, on, strength);
    e
}

// ---------------------------------------------------------------------------
// Engagement over a sequence of events
// ---------------------------------------------------------------------------

/// The events the bookkeeping goes through.
pub enum PreviewEvent {
    /// `set_system_state`.
    Calibrate(bool, Option<u32>),
    /// `record_written`.
    Record(u32),
    /// `set_preview` with the strength and whether the channel is ready.
    Preview(u32, bool),
    /// `disengage`.
    Disengage,
    /// `restore_system` (or `shutdown`) with the expected colour temperature.
    Restore(Option<u32>),
    /// `switched`.
    Switched(bool, Option<u32>),
    /// `external_change`.
    External(Option<bool>, Option<u32>),
}

/// The bookkeeping after one event.
pub open spec fn step(st: PreviewState, ev: PreviewEvent) -> PreviewState {
    match ev {
        PreviewEvent::Calibrate(e, s) => calibrated(st, e, s),
        PreviewEvent::Record(s) => PreviewState { last_written: Some(s), ..st },
        PreviewEvent::Preview(s, ready) => if st.enabled && ready {
            PreviewState { preview: Some(s), ..st }
        } else {
            st
        },
        PreviewEvent::Disengage => dropped(st),
        PreviewEvent::Restore(_) => dropped(st),
        PreviewEvent::Switched(e, s) => calibrated(dropped(st), e, s),
        PreviewEvent::External(e, s) => if echoes(st, e == Some(true), s) {
            st
        } else {
            calibrated(dropped(st), e == Some(true), s)
        },
    }
}

/// The bookkeeping after a sequence of events.
pub open spec fn run(st: PreviewState, evs: Seq<PreviewEvent>) -> PreviewState
    decreases evs.len(),
{
    if evs.len() == 0 {
        st
    } else {
        step(run(st, evs.drop_last()), evs.last())
    }
}

/// Event `i` is a preview that takes effect: the channel is ready and Night
/// Light is on at that point.
pub open spec fn takes_effect(st: PreviewState, evs: Seq<PreviewEvent>, i: int) -> bool {
    evs[i] matches PreviewEvent::Preview(_, ready) && ready && run(st, evs.take(i)).enabled
}

/// Event `i` ends a preview: a drop, a restore, a switch, or an outside
/// change that is not our own echo.
pub open spec fn ends_preview(st: PreviewState, evs: Seq<PreviewEvent>, i: int) -> bool {
    match evs[i] {
        PreviewEvent::Disengage => true,
        PreviewEvent::Restore(_) => true,
        PreviewEvent::Switched(_, _) => true,
        PreviewEvent::External(e, s) => !echoes(run(st, evs.take(i)), e == Some(true), s),
        _ => false,
    }
}

/// Starting with no preview, a preview is in effect exactly when some
/// preview took effect and nothing ended it since.
pub proof fn lemma_engaged_iff(st: PreviewState, evs: Seq<PreviewEvent>)
    requires
        st.preview is None,
    ensures
        (run(st, evs).preview is Some) <==> exists|i: int|
            0 <= i < evs.len() && #[trigger] takes_effect(st, evs, i) && forall|j: int|
                i < j < evs.len() ==> !#[trigger] ends_preview(st, evs, j),
    decreases evs.len(),
{
    if evs.len() > 0 {
        let n = evs.len() - 1;
        let pre = evs.drop_last();
        lemma_engaged_iff(st, pre);
        assert forall|i: int| 0 <= i <= n implies evs.take(i) == pre.take(i) by {
            assert(evs.take(i) =~= pre.take(i));
        }
        assert(evs.take(n) =~= pre);
        let before = run(st, pre);
        if run(st, evs).preview is Some {
            if before.preview is Some {
                let i = choose|i: int|
                    0 <= i < pre.len() && #[trigger] takes_effect(st, pre, i) && forall|j: int|
                        i < j < pre.len() ==> !#[trigger] ends_preview(st, pre, j);
                assert(takes_effect(st, evs, i));
                assert forall|j: int| i < j < evs.len() implies !#[trigger] ends_preview(
                    st,
                    evs,
                    j,
                ) by {
                    if j < n {
                        assert(!ends_preview(st, pre, j));
                    }
                }
            } else {
                assert(takes_effect(st, evs, n as int));
            }
        } else {
            assert forall|i: int|
                0 <= i < evs.len() && #[trigger] takes_effect(st, evs, i) implies exists|j: int|
                i < j < evs.len() && #[trigger] ends_preview(st, evs, j) by {
                if i == n {
                    assert(false);
                } else {
                    assert(takes_effect(st, pre, i));
                    if before.preview is Some {
                        assert(ends_preview(st, evs, n as int));
                    } else {
                        let j = choose|j: int| i < j < pre.len() && #[trigger] ends_preview(st, pre, j);
                        assert(ends_preview(st, evs, j));
                    }
                }
            }
        }
    }
}

/// Without a ready display channel no preview ever takes effect.
pub proof fn lemma_no_channel_no_preview(st: PreviewState, evs: Seq<PreviewEvent>)
    requires
        st.preview is None,
        forall|i: int| 0 <= i < evs.len() ==> !(#[trigger] evs[i] matches PreviewEvent::Preview(_, true)),
    ensures
        run(st, evs).preview is None,
    decreases evs.len(),
{
    if evs.len() > 0 {
        let pre = evs.drop_last();
        assert forall|i: int| 0 <= i < pre.len() implies !(#[trigger] pre[i] matches PreviewEvent::Preview(_, true)) by {
            assert(pre[i] == evs[i]);
        }
        lemma_no_channel_no_preview(st, pre);
        assert(!(evs[evs.len() - 1] matches PreviewEvent::Preview(_, true)));
    }
}

} // verus!
