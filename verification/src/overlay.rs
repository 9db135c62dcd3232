//! The recording overlay: when it opens and closes, which kind of overlay is
//! shown, where a floating one goes, and how the level bars are laid out.
use vstd::prelude::*;

verus! {

/// Where the dictation stands, as the overlay sees it.
#[derive(Debug, Clone, Copy, PartialEq, Eq, Structural)]
pub enum OverlayPhase {
    Hidden,
    Recording,
    Processing,
    Dismissed,
}

/// The overlay chosen in the settings.
#[derive(Debug, Clone, Copy, PartialEq, Eq, Structural)]
pub enum OverlayStyle {
    /// No overlay.
    Off,
    /// Level bars.
    Classic,
    /// A glow around the notch.
    Glow,
}

/// Where level bars are shown.
#[derive(Debug, Clone, Copy, PartialEq, Eq, Structural)]
pub enum OverlayPosition {
    Notch,
    Floating,
}

/// The kind of overlay opened.
#[derive(Debug, Clone, Copy, PartialEq, Eq, Structural)]
pub enum OverlayKind {
    /// A floating window near the bottom of the screen.
    Window,
    /// Bars in a panel around the notch.
    Notch,
    /// A glow around the notch.
    NotchGlow,
}

/// What one poll of the overlay controller does.
#[derive(Debug, Clone, Copy, PartialEq, Eq, Structural)]
pub enum OverlayPoll {
    /// Open the overlay.
    Open,
    /// Close the overlay and mark the phase hidden.
    CloseAndHide,
    /// Leave it as it is.
    Keep,
}

/// Recording opens the overlay if none is open; dismissal closes an open one.
pub fn poll_step(phase: OverlayPhase, overlay_open: bool) -> (r: OverlayPoll)
    ensures
        r == if phase == OverlayPhase::Recording && !overlay_open {
            OverlayPoll::Open
        } else if phase == OverlayPhase::Dismissed && overlay_open {
            OverlayPoll::CloseAndHide
        } else {
            OverlayPoll::Keep
        },
{
    match phase {
        OverlayPhase::Recording if !overlay_open => OverlayPoll::Open,
        OverlayPhase::Dismissed if overlay_open => OverlayPoll::CloseAndHide,
        _ => OverlayPoll::Keep,
    }
}

/// The overlay to open for the settings: none when switched off, the glow
/// whatever the position, else bars at the notch or in a floating window.
pub fn overlay_to_open(style: OverlayStyle, position: OverlayPosition) -> (r: Option<OverlayKind>)
    ensures
        r == match style {
            OverlayStyle::Off => None,
            OverlayStyle::Glow => Some(OverlayKind::NotchGlow),
            OverlayStyle::Classic => match position {
                OverlayPosition::Notch => Some(OverlayKind::Notch),
                OverlayPosition::Floating => Some(OverlayKind::Window),
            },
        },
{
    match style {
        OverlayStyle::Off => None,
        OverlayStyle::Glow => Some(OverlayKind::NotchGlow),
        OverlayStyle::Classic => match position {
            OverlayPosition::Notch => Some(OverlayKind::Notch),
            OverlayPosition::Floating => Some(OverlayKind::Window),
        },
    }
}

/// Gap, in points, between a floating overlay and the bottom of the screen.
pub const FLOATING_BOTTOM_MARGIN: i64 = 80;

/// Integer division by two rounding toward zero, as Rust's `/` does.
pub open spec fn half_toward_zero(n: int) -> int {
    if n >= 0 {
        n / 2
    } else {
        -((-n) / 2)
    }
}

/// The top-left corner of a floating overlay: centred horizontally,
/// `FLOATING_BOTTOM_MARGIN` above the bottom of the screen.
pub fn floating_origin(screen_w: u32, screen_h: u32, width: u32, height: u32) -> (r: (i64, i64))
    requires
        screen_w <= i32::MAX,
        screen_h <= i32::MAX,
        width <= i32::MAX,
        height <= i32::MAX,
    ensures
        r.0 == half_toward_zero(screen_w - width),
        r.1 == screen_h - height - FLOATING_BOTTOM_MARGIN,
{
    let dx = screen_w as i64 - width as i64;
    let x = if dx >= 0 {
        dx / 2
    } else {
        -((-dx) / 2)
    };
    (x, screen_h as i64 - height as i64 - FLOATING_BOTTOM_MARGIN)
}

/// The number of level bars a floating overlay of this style shows.
pub fn eq_bar_count(style: OverlayStyle) -> (r: usize)
    ensures
        r == if style == OverlayStyle::Classic { 16usize } else { 0usize },
{
    match style {
        OverlayStyle::Classic => 16,
        _ => 0,
    }
}

/// The number of bars shown at the notch.
pub const NOTCH_BAR_COUNT: usize = 16;

/// Bars are mirrored around the centre: of `total` bars, the left half shows
/// the spectrum bands from high to low and the right half from low to high.
/// Output bar `k` shows band `mirror_source(total, k)` of the `(total + 1) / 2` bands.
pub open spec fn mirror_source_spec(total: int, k: int) -> int {
    if k < total / 2 {
        total / 2 - 1 - k
    } else {
        k - total / 2
    }
}

/// The spectrum band that output bar `k` of `total` shows.
pub fn mirror_source(total: usize, k: usize) -> (r: usize)
    requires
        k < total,
    ensures
        r == mirror_source_spec(total as int, k as int),
        r < (total + 1) / 2,
{
    if k < total / 2 {
        total / 2 - 1 - k
    } else {
        k - total / 2
    }
}

/// The bars are symmetric: for an even count, bar `k` and bar `total - 1 - k`
/// show the same band.
pub proof fn law_bars_mirror(total: int, k: int)
    requires
        total % 2 == 0,
        0 <= k < total,
    ensures
        mirror_source_spec(total, k) == mirror_source_spec(total, total - 1 - k),
{
}

/// What the floating overlay shows on an animation frame.
#[derive(Debug, Clone, Copy, PartialEq, Eq, Structural)]
pub enum AnimationStep {
    /// The dictation ended: close the window.
    Close,
    /// Show the processing dots.
    Loading,
    /// Show the level bars.
    Levels,
}

/// Recording shows levels, processing shows the loading dots, and a hidden or
/// dismissed phase closes the window.
pub fn animation_step(phase: OverlayPhase) -> (r: AnimationStep)
    ensures
        r == match phase {
            OverlayPhase::Hidden => AnimationStep::Close,
            OverlayPhase::Dismissed => AnimationStep::Close,
            OverlayPhase::Processing => AnimationStep::Loading,
            OverlayPhase::Recording => AnimationStep::Levels,
        },
{
    match phase {
        OverlayPhase::Dismissed | OverlayPhase::Hidden => AnimationStep::Close,
        OverlayPhase::Processing => AnimationStep::Loading,
        OverlayPhase::Recording => AnimationStep::Levels,
    }
}

/// The next loading-animation frame, wrapping around.
pub fn next_loading_tick(tick: usize) -> (r: usize)
    ensures
        r == if tick == usize::MAX { 0 } else { (tick + 1) as usize },
{
    if tick == usize::MAX {
        0
    } else {
        tick + 1
    }
}

} // verus!
