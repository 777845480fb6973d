//! The tray panel's decisions: when to show, hide or resync it, what its
//! controls display, how often the strength slider may write, and where the
//! panel goes on screen.  The host owns the window and the controls.

use vstd::prelude::*;
use crate::nightlight::{strength_kelvin, strength_to_kelvin};
use crate::text::{decimal, push_decimal};

verus! {

// ---------------------------------------------------------------------------
// Showing and hiding
// ---------------------------------------------------------------------------

/// A tray click this soon (in nanoseconds) after the panel hid itself is the
/// click that hid it (focus went to the taskbar first), not a new request.
pub const DISMISS_GRACE_NS: u64 = 300_000_000;

/// Visibility of the panel, with the time (host clock, nanoseconds) it last hid.
pub struct Panel {
    pub visible: bool,
    pub hidden_at: Option<u64>,
}

/// What a tray click does to the panel.
#[derive(PartialEq, Eq, Structural, Debug, Clone, Copy)]
pub enum PanelAction {
    Hide,
    Show,
    Ignore,
}

/// A hidden panel that has never been shown.
pub fn new_panel() -> (p: Panel)
    ensures
        p == (Panel { visible: false, hidden_at: None }),
{
    Panel { visible: false, hidden_at: None }
}

/// Time elapsed from `then` to `now`; zero when the clock reads earlier.
pub open spec fn elapsed(now: u64, then: u64) -> int {
    if now >= then {
        now - then
    } else {
        0
    }
}

/// Hides the panel (it lost focus) at time `now`.
pub fn hide_panel(p: &mut Panel, now: u64)
    ensures
        *final(p) == (Panel { visible: false, hidden_at: Some(now) }),
{
    p.visible = false;
    p.hidden_at = Some(now);
}

/// The panel was shown.
pub fn mark_shown(p: &mut Panel)
    ensures
        *final(p) == (Panel { visible: true, ..*old(p) }),
{
    p.visible = true;
}

/// A tray click at time `now`: a visible panel hides; a panel that hid
/// itself less than `DISMISS_GRACE_NS` ago stays hidden; otherwise it is to
/// be shown (and marked shown once the window really appears).
pub fn toggle_at(p: &mut Panel, now: u64) -> (a: PanelAction)
    ensures
        old(p).visible ==> a == PanelAction::Hide && *final(p) == (Panel {
            visible: false,
            hidden_at: Some(now),
        }),
        !old(p).visible ==> *final(p) == *old(p) && a == if old(p).hidden_at matches Some(t)
            && elapsed(now, t) < DISMISS_GRACE_NS {
            PanelAction::Ignore
        } else {
            PanelAction::Show
        },
{
    if p.visible {
        hide_panel(p, now);
        return PanelAction::Hide;
    }
    match p.hidden_at {
        Some(t) => {
            if now.saturating_sub(t) < DISMISS_GRACE_NS {
                PanelAction::Ignore
            } else {
                PanelAction::Show
            }
        },
        None => PanelAction::Show,
    }
}

/// What an outside change (registry notice) leads to.
#[derive(PartialEq, Eq, Structural, Debug, Clone, Copy)]
pub struct ExternalPlan {
    /// Settle the live preview against the registry (see `preview::external_change`).
    pub settle_preview: bool,
    /// Resync the controls from the system.
    pub sync: bool,
}

/// An outside change: nothing while the slider is held (the registry may
/// still hold the value from before the drag, and the preview must stay
/// under the user's hand); otherwise the preview is settled, and the
/// controls are resynced when the panel is visible.
pub fn on_external_change(p: &Panel, slider_captured: bool) -> (plan: ExternalPlan)
    ensures
        plan.settle_preview == !slider_captured,
        plan.sync == (p.visible && !slider_captured),
{
    ExternalPlan { settle_preview: !slider_captured, sync: p.visible && !slider_captured }
}

/// The activation message (`WM_ACTIVATE`) and its "lost activation" code
/// (`WA_INACTIVE`, in the low word of the parameter).
pub const WM_ACTIVATE: u32 = 0x0006;
pub const WA_INACTIVE: usize = 0;

/// The panel dismisses itself when it loses activation, unless pinned.
pub fn dismiss_on_activate(msg: u32, wparam: usize, pinned: bool) -> (r: bool)
    ensures
        r == (msg == WM_ACTIVATE && wparam % 0x10000 == WA_INACTIVE && !pinned),
{
    assert(wparam & 0xFFFF == wparam % 0x10000) by (bit_vector);
    msg == WM_ACTIVATE && wparam & 0xFFFF == WA_INACTIVE && !pinned
}

/// Frame tick of the expand/collapse animation: the panel has a fixed
/// height, so there is nothing to animate.
pub fn on_anim_tick() {
}

// ---------------------------------------------------------------------------
// Control values
// ---------------------------------------------------------------------------

/// The colour temperature label for strength `p`, such as `6500K`.
pub open spec fn kelvin_label(p: u32) -> Seq<char> {
    decimal(strength_kelvin(p) as nat) + "K"@
}

/// Builds the colour temperature label for strength `p`.
pub fn kelvin_text(p: u32) -> (s: String)
    ensures
        s@ == kelvin_label(p),
{
    let mut s = String::new();
    push_decimal(&mut s, strength_to_kelvin(p));
    s.append("K");
    s
}

/// What the panel's controls show.
pub struct PanelValues {
    pub night: bool,
    pub strength: u32,
    pub kelvin_text: String,
    pub dark: bool,
}

/// The control values from the system's state as read: unreadable Night
/// Light state shows off, unreadable strength shows 50.
pub fn refresh(enabled: Option<bool>, strength: Option<u32>, dark: bool) -> (v: PanelValues)
    ensures
        v.night == (enabled == Some(true)),
        v.strength == match strength {
            Some(s) => s,
            None => 50,
        },
        v.kelvin_text@ == kelvin_label(v.strength),
        v.dark == dark,
{
    let night = match enabled {
        Some(b) => b,
        None => false,
    };
    let strength = match strength {
        Some(s) => s,
        None => 50,
    };
    PanelValues { night, strength, kelvin_text: kelvin_text(strength), dark }
}

// ---------------------------------------------------------------------------
// Strength slider: live preview while held, one write on release
// ---------------------------------------------------------------------------

/// Least time between two strength writes from changes made without holding
/// the slider (keyboard), in nanoseconds: dense outside writes make
/// CloudStore declare a conflict and switch Night Light off.
pub const WRITE_THROTTLE_NS: u64 = 300_000_000;

/// When strength was last written, and the value waiting to be written.
pub struct StrengthThrottle {
    pub last_write: u64,
    pub pending: Option<u32>,
}

/// What one slider change asks of the host.
#[derive(PartialEq, Eq, Structural, Debug, Clone, Copy)]
pub struct SliderStep {
    /// Strength to show live on the displays (no registry write).
    pub preview: Option<u32>,
    /// Strength to write to the registry now.
    pub write: Option<u32>,
}

/// The slider state as the panel starts, at time `now`.
pub fn new_throttle(now: u64) -> (t: StrengthThrottle)
    ensures
        t == (StrengthThrottle { last_write: now, pending: None }),
{
    StrengthThrottle { last_write: now, pending: None }
}

/// The slider moved to `p` at time `now`.  While the slider is held
/// (`captured`), nothing is written: the value is previewed live and kept
/// for the release.  A change made without holding it is written at once
/// when the last write is at least `WRITE_THROTTLE_NS` old, else kept as
/// pending; so no value is lost.
pub fn on_value_changed(t: &mut StrengthThrottle, now: u64, p: u32, captured: bool) -> (step:
    SliderStep)
    ensures
        captured ==> step.preview == Some(p) && step.write is None && *final(t) == (
        StrengthThrottle { pending: Some(p), ..*old(t) }),
        !captured && elapsed(now, old(t).last_write) >= WRITE_THROTTLE_NS ==> step.preview is None
            && step.write == Some(p) && *final(t) == (StrengthThrottle {
            last_write: now,
            pending: None,
        }),
        !captured && elapsed(now, old(t).last_write) < WRITE_THROTTLE_NS ==> step.preview is None
            && step.write is None && *final(t) == (StrengthThrottle { pending: Some(p), ..*old(t) }),
{
    if captured {
        t.pending = Some(p);
        return SliderStep { preview: Some(p), write: None };
    }
    if now.saturating_sub(t.last_write) >= WRITE_THROTTLE_NS {
        t.last_write = now;
        t.pending = None;
        SliderStep { preview: None, write: Some(p) }
    } else {
        t.pending = Some(p);
        SliderStep { preview: None, write: None }
    }
}

/// The slider was released at time `now`: the pending value (the last one
/// set while held), if any, is written, once.
pub fn on_capture_lost(t: &mut StrengthThrottle, now: u64) -> (w: Option<u32>)
    ensures
        w == old(t).pending,
        final(t).pending is None,
        final(t).last_write == if old(t).pending is Some {
            now
        } else {
            old(t).last_write
        },
{
    match t.pending {
        Some(p) => {
            t.pending = None;
            t.last_write = now;
            Some(p)
        },
        None => None,
    }
}

/// The slider state after the values `ps` were set while the slider was held.
pub open spec fn held(t: StrengthThrottle, ps: Seq<u32>) -> StrengthThrottle
    decreases ps.len(),
{
    if ps.len() == 0 {
        t
    } else {
        StrengthThrottle { pending: Some(ps.last()), ..held(t, ps.drop_last()) }
    }
}

/// A drag writes once, on release, the value it ended on: every held change
/// writes nothing (see `on_value_changed`), and after a non-empty drag the
/// pending value that `on_capture_lost` writes is the last one, while the
/// time of the last write is untouched.
pub proof fn lemma_drag_writes_last(t: StrengthThrottle, ps: Seq<u32>)
    requires
        ps.len() > 0,
    ensures
        held(t, ps).pending == Some(ps.last()),
        held(t, ps).last_write == t.last_write,
    decreases ps.len(),
{
    if ps.len() > 1 {
        lemma_drag_writes_last(t, ps.drop_last());
    } else {
        assert(ps.drop_last().len() == 0);
        assert(held(t, ps.drop_last()) == t);
    }
}

// ---------------------------------------------------------------------------
// Placement
// ---------------------------------------------------------------------------

/// Panel width at 96 dpi.
pub const PANEL_W: i32 = 320;
/// Tile button height.
pub const TILE_H: i32 = 48;
/// Gap between a tile and its label.
pub const TILE_LABEL_GAP: i32 = 8;
/// Tile label row height.
pub const LABEL_H: i32 = 20;
/// Slider row height.
pub const ROW_H: i32 = 40;
/// Separator line height.
pub const SEP_H: i32 = 1;
/// Space around a separator.
pub const SEP_GAP: i32 = 12;
/// Horizontal padding of the tile area and the slider.
pub const PAD_H: i32 = 16;
/// Top padding.
pub const TOP_PAD: i32 = 16;
/// Footer height.
pub const FOOTER_H: i32 = 48;
/// Panel height at 96 dpi: top padding, tiles, separator, slider row,
/// separator (space above only), footer.
pub const PANEL_H: i32 = TOP_PAD + (TILE_H + TILE_LABEL_GAP + LABEL_H) + (SEP_GAP + SEP_H + SEP_GAP)
    + ROW_H + (SEP_GAP + SEP_H) + FOOTER_H;
/// Gap between panel and tray icon at 96 dpi.
pub const GAP: i32 = 8;

/// A screen rectangle by its edges (physical pixels).
#[derive(PartialEq, Eq, Structural, Debug, Clone, Copy)]
pub struct WorkArea {
    pub left: i32,
    pub top: i32,
    pub right: i32,
    pub bottom: i32,
}

/// Where the panel goes and how big it is (physical pixels).
#[derive(PartialEq, Eq, Structural, Debug, Clone, Copy)]
pub struct PanelRect {
    pub x: i32,
    pub y: i32,
    pub width: i32,
    pub height: i32,
}

/// The dpi the panel is scaled for: never below 96.
pub open spec fn eff_dpi(dpi: u32) -> int {
    if dpi < 96 {
        96
    } else {
        dpi as int
    }
}

/// A 96-dpi length scaled to `dpi`.
pub open spec fn scaled(v: int, dpi: u32) -> int {
    v * eff_dpi(dpi) / 96
}

/// `v` clamped to `lo..=hi` for `lo <= hi`.
pub open spec fn clamped(v: int, lo: int, hi: int) -> int {
    if v < lo {
        lo
    } else if v > hi {
        hi
    } else {
        v
    }
}

/// The panel's rectangle: right edge on the icon's right edge, bottom edge
/// `GAP` above the icon, then clamped into the work area (when known) so the
/// taskbar never covers it, wherever the taskbar is.
pub open spec fn placement(dpi: u32, icon_x: i32, icon_y: i32, icon_w: i32, work: Option<WorkArea>) -> (
    int,
    int,
    int,
    int,
) {
    let pw = scaled(PANEL_W as int, dpi);
    let ph = scaled(PANEL_H as int, dpi);
    let x = icon_x + icon_w - pw;
    let y = icon_y - ph - scaled(GAP as int, dpi);
    match work {
        Some(wa) => {
            let hx = if wa.right - pw > wa.left {
                wa.right - pw
            } else {
                wa.left as int
            };
            let hy = if wa.bottom - ph > wa.top {
                wa.bottom - ph
            } else {
                wa.top as int
            };
            (clamped(x, wa.left as int, hx), clamped(y, wa.top as int, hy), pw, ph)
        },
        None => (x, y, pw, ph),
    }
}

/// The panel stays anchored to the tray icon.  When its right edge can sit on
/// the icon's right edge inside the work area, it does: the work area only
/// pulls a panel back in, it never moves one that fits.  A panel that would
/// stick out on the left starts at the work area's left edge; one that would
/// stick out on the right (and fits) ends at its right edge.  Vertically the
/// same holds for the bottom edge `GAP` above the icon.  Without a work area
/// the anchored position stands, and the size is always the dpi-scaled one.
pub proof fn lemma_place_anchored(
    dpi: u32,
    icon_x: i32,
    icon_y: i32,
    icon_w: i32,
    work: Option<WorkArea>,
)
    ensures
        ({
            let r = placement(dpi, icon_x, icon_y, icon_w, work);
            let ax = icon_x + icon_w - r.2;
            let ay = icon_y - r.3 - scaled(GAP as int, dpi);
            &&& r.2 == scaled(PANEL_W as int, dpi)
            &&& r.3 == scaled(PANEL_H as int, dpi)
            &&& work is None ==> r.0 == ax && r.1 == ay
            &&& work is Some ==> {
                let wa = work->0;
                &&& wa.left <= ax <= wa.right - r.2 ==> r.0 == ax
                &&& ax < wa.left ==> r.0 == wa.left
                &&& ax > wa.right - r.2 && wa.right - r.2 >= wa.left ==> r.0 + r.2 == wa.right
                &&& wa.top <= ay <= wa.bottom - r.3 ==> r.1 == ay
                &&& ay < wa.top ==> r.1 == wa.top
                &&& ay > wa.bottom - r.3 && wa.bottom - r.3 >= wa.top ==> r.1 + r.3 == wa.bottom
            }
        }),
{
}

/// All intermediate values of the placement fit in an `i32`.
pub open spec fn placement_fits(dpi: u32, icon_x: i32, icon_y: i32, icon_w: i32, work: Option<
    WorkArea,
>) -> bool {
    let pw = scaled(PANEL_W as int, dpi);
    let ph = scaled(PANEL_H as int, dpi);
    &&& dpi <= 6710886
    &&& i32::MIN <= icon_x + icon_w <= i32::MAX
    &&& i32::MIN <= icon_x + icon_w - pw <= i32::MAX
    &&& i32::MIN <= icon_y - ph <= i32::MAX
    &&& i32::MIN <= icon_y - ph - scaled(GAP as int, dpi) <= i32::MAX
    &&& work matches Some(wa) ==> (i32::MIN <= wa.right - pw <= i32::MAX && i32::MIN <= wa.bottom
        - ph <= i32::MAX)
}

/// Whether the placement can be computed in `i32` (see `placement_fits`).
pub fn placement_ok(dpi: u32, icon_x: i32, icon_y: i32, icon_w: i32, work: Option<WorkArea>) -> (r:
    bool)
    ensures
        r == placement_fits(dpi, icon_x, icon_y, icon_w, work),
{
    if dpi > 6710886 {
        return false;
    }
    let d: i64 = if dpi < 96 {
        96
    } else {
        dpi as i64
    };
    assert(320 * d <= 2147483520 && 218 * d <= 1462973148 && 8 * d <= 53687088) by (
    nonlinear_arith)
        requires
            96 <= d <= 6710886,
    ;
    let pw = 320 * d / 96;
    let ph = PANEL_H as i64 * d / 96;
    let gap = 8 * d / 96;
    let right = icon_x as i64 + icon_w as i64;
    let lo = i32::MIN as i64;
    let hi = i32::MAX as i64;
    let mut ok = lo <= right && right <= hi && lo <= right - pw && right - pw <= hi && lo <= icon_y
        as i64 - ph && icon_y as i64 - ph <= hi && lo <= icon_y as i64 - ph - gap && icon_y as i64
        - ph - gap <= hi;
    if let Some(wa) = work {
        ok = ok && lo <= wa.right as i64 - pw && wa.right as i64 - pw <= hi && lo <= wa.bottom as i64
            - ph && wa.bottom as i64 - ph <= hi;
    }
    ok
}

/// Places the panel above the tray icon (see `placement`).  The panel lies
/// inside the work area along each axis on which it fits.
pub fn place(dpi: u32, icon_x: i32, icon_y: i32, icon_w: i32, work: Option<WorkArea>) -> (r:
    PanelRect)
    requires
        placement_fits(dpi, icon_x, icon_y, icon_w, work),
    ensures
        (r.x as int, r.y as int, r.width as int, r.height as int) == placement(
            dpi,
            icon_x,
            icon_y,
            icon_w,
            work,
        ),
        work matches Some(wa) ==> {
            &&& wa.left <= r.x
            &&& wa.right - wa.left >= r.width ==> r.x + r.width <= wa.right
            &&& wa.top <= r.y
            &&& wa.bottom - wa.top >= r.height ==> r.y + r.height <= wa.bottom
        },
        work is Some && work->0.left <= icon_x + icon_w - r.width <= work->0.right - r.width
            ==> r.x == icon_x + icon_w - r.width,
        work is None ==> r.x == icon_x + icon_w - r.width,
{
    proof {
        lemma_place_anchored(dpi, icon_x, icon_y, icon_w, work);
    }
    let d: i32 = if dpi < 96 {
        96
    } else {
        dpi as i32
    };
    assert(320 * d <= 2147483520 && 218 * d <= 1462973148 && 8 * d <= 53687088) by (
    nonlinear_arith)
        requires
            96 <= d <= 6710886,
    ;
    assert(320 * d / 96 >= 320 && 218 * d / 96 >= 218) by (nonlinear_arith)
        requires
            96 <= d <= 6710886,
    ;
    let pw = PANEL_W * d / 96;
    let ph = PANEL_H * d / 96;
    let gap = GAP * d / 96;
    let mut x = icon_x + icon_w - pw;
    let mut y = icon_y - ph - gap;
    if let Some(wa) = work {
        let hx = if wa.right - pw > wa.left {
            wa.right - pw
        } else {
            wa.left
        };
        let hy = if wa.bottom - ph > wa.top {
            wa.bottom - ph
        } else {
            wa.top
        };
        x = if x < wa.left {
            wa.left
        } else if x > hx {
            hx
        } else {
            x
        };
        y = if y < wa.top {
            wa.top
        } else if y > hy {
            hy
        } else {
            y
        };
    }
    PanelRect { x, y, width: pw, height: ph }
}

} // verus!
