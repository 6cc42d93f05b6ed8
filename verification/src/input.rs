//! Small decisions on the input path: which messages redraw every surface,
//! which raw pointer events reach the update loop, and how long presses
//! and the selection fade last. Durations are in nanoseconds.

use vstd::prelude::*;

verus! {

/// A mouse button.
#[derive(Debug, Clone, Copy, PartialEq, Eq, Structural)]
pub enum MouseButton {
    Left,
    Right,
    Middle,
    Other,
}

/// The kind of a raw window event.
#[derive(Debug, Clone, Copy, PartialEq, Eq, Structural)]
pub enum PointerEvent {
    ButtonPressed(MouseButton),
    ButtonReleased(MouseButton),
    CursorMoved,
    /// Any other mouse event (wheel, enter, leave).
    OtherMouse,
    /// Not a mouse event.
    Other,
}

/// The kind of a message of the update loop.
#[derive(Debug, Clone, Copy, PartialEq, Eq, Structural)]
pub enum PlantKind {
    Tend,
    Sprout,
    Uproot,
    /// A raw window event forwarded from the event subscription.
    Graft(PointerEvent),
    /// Command-file poll tick.
    IpcPoll,
    /// An output or shell event from the compositor.
    Wayland,
    TopPressed,
    TopReleased,
    TopSow,
    BackgroundPressed,
    BackgroundReleased,
    /// Fade animation frame.
    SelectionTick,
    SettingSelect,
    ConfigTick,
    ConfigReloaded,
    ConfigPatch,
    /// A surface request of the layer-shell toolkit (open, close, resize…).
    SurfaceAction,
}

/// Which surfaces a message redraws.
#[derive(Debug, Clone, Copy, PartialEq, Eq, Structural)]
pub enum Scope {
    /// Every surface.
    All,
    /// None.
    Skip,
}

/// A button message (pressed or released, on a surface or as a raw event)
/// or the selection tick.
pub open spec fn is_button_or_tick(m: PlantKind) -> bool {
    ||| m is BackgroundPressed
    ||| m is BackgroundReleased
    ||| m is TopPressed
    ||| m is TopReleased
    ||| m is SelectionTick
    ||| m matches PlantKind::Graft(PointerEvent::ButtonPressed(_))
    ||| m matches PlantKind::Graft(PointerEvent::ButtonReleased(_))
}

/// A raw event that is not a button event, or one of the two poll ticks.
pub open spec fn is_quiet(m: PlantKind) -> bool {
    ||| m is ConfigTick
    ||| m is IpcPoll
    ||| m matches PlantKind::Graft(PointerEvent::CursorMoved)
    ||| m matches PlantKind::Graft(PointerEvent::OtherMouse)
    ||| m matches PlantKind::Graft(PointerEvent::Other)
}

/// Every button message and the selection tick redraw every surface; only
/// non-button raw events and the poll ticks redraw nothing.
pub proof fn lemma_buttons_redraw(m: PlantKind)
    ensures
        is_button_or_tick(m) ==> spec_redraw_scope(m) == Scope::All,
        spec_redraw_scope(m) == Scope::Skip <==> is_quiet(m),
{
}

/// Every button message (pressed or released, on a surface or as a raw
/// event) and the selection tick redraw everything. Cursor moves and other
/// raw events only update bookkeeping (redraws come from the selection
/// tick), and the two poll ticks only check files: none of these redraw.
/// Every other message redraws everything.
pub open spec fn spec_redraw_scope(m: PlantKind) -> Scope {
    match m {
        PlantKind::Graft(PointerEvent::ButtonPressed(_)) => Scope::All,
        PlantKind::Graft(PointerEvent::ButtonReleased(_)) => Scope::All,
        PlantKind::Graft(_) => Scope::Skip,
        PlantKind::ConfigTick => Scope::Skip,
        PlantKind::IpcPoll => Scope::Skip,
        _ => Scope::All,
    }
}

pub fn redraw_scope(message: PlantKind) -> (r: Scope)
    ensures
        r == spec_redraw_scope(message),
        is_button_or_tick(message) ==> r == Scope::All,
        r == Scope::Skip <==> is_quiet(message),
{
    match message {
        PlantKind::SelectionTick => Scope::All,
        PlantKind::BackgroundPressed | PlantKind::BackgroundReleased | PlantKind::TopPressed
        | PlantKind::TopReleased | PlantKind::Graft(PointerEvent::ButtonPressed(_))
        | PlantKind::Graft(PointerEvent::ButtonReleased(_)) => Scope::All,
        PlantKind::Graft(PointerEvent::CursorMoved) => Scope::Skip,
        PlantKind::ConfigTick | PlantKind::IpcPoll => Scope::Skip,
        PlantKind::ConfigReloaded => Scope::All,
        PlantKind::Graft(PointerEvent::OtherMouse) => Scope::Skip,
        PlantKind::Graft(_) => Scope::Skip,
        PlantKind::Wayland => Scope::All,
        _ => Scope::All,
    }
}

/// Minimum time between two forwarded cursor moves (about 60 per second).
pub const FRAME_NANOS: u128 = 16_000_000;

/// Press held at least this long counts as a hold on release.
pub const HOLD_NANOS: u128 = 500_000_000;

/// Length of the selection fade-out.
pub const FADE_NANOS: u128 = 150_000_000;

/// What the event subscription does with a raw window event.
#[derive(Debug, Clone, Copy, PartialEq, Eq, Structural)]
pub enum GraftDecision {
    /// Forward it to the update loop; with `restamp`, this cursor move
    /// becomes the last forwarded one.
    Forward { restamp: bool },
    /// Drop it.
    Drop,
}

pub open spec fn spec_graft_filter(ev: PointerEvent, since_last_move: u128) -> GraftDecision {
    match ev {
        PointerEvent::CursorMoved => if since_last_move < FRAME_NANOS {
            GraftDecision::Drop
        } else {
            GraftDecision::Forward { restamp: true }
        },
        PointerEvent::ButtonReleased(_) => GraftDecision::Forward { restamp: false },
        _ => GraftDecision::Drop,
    }
}

/// Cursor moves are forwarded at most once a frame (`since_last_move` is the
/// time since the last forwarded one) so drags stay smooth; button releases
/// always reach the loop, since a press on one window may be released over
/// another; presses arrive per window and everything else is dropped.
pub fn graft_filter(ev: PointerEvent, since_last_move: u128) -> (r: GraftDecision)
    ensures
        r == spec_graft_filter(ev, since_last_move),
        ev is ButtonReleased ==> r == (GraftDecision::Forward { restamp: false }),
        ev is CursorMoved && since_last_move < FRAME_NANOS ==> r == GraftDecision::Drop,
        ev is CursorMoved && since_last_move >= FRAME_NANOS ==> r == (GraftDecision::Forward {
            restamp: true,
        }),
        ev is ButtonPressed || ev is OtherMouse || ev is Other ==> r == GraftDecision::Drop,
{
    match ev {
        PointerEvent::CursorMoved => {
            if since_last_move < FRAME_NANOS {
                GraftDecision::Drop
            } else {
                GraftDecision::Forward { restamp: true }
            }
        },
        PointerEvent::ButtonReleased(_) => GraftDecision::Forward { restamp: false },
        _ => GraftDecision::Drop,
    }
}

/// A release of any button is always forwarded, however recently a cursor
/// move was; a cursor move is forwarded (and restamps) exactly when a frame
/// has passed since the last forwarded one; nothing else is forwarded.
pub proof fn lemma_releases_always_forwarded(b: MouseButton, d: u128, ev: PointerEvent)
    ensures
        spec_graft_filter(PointerEvent::ButtonReleased(b), d) == (GraftDecision::Forward { restamp: false }),
        (spec_graft_filter(PointerEvent::CursorMoved, d) is Forward) <==> d >= FRAME_NANOS,
        d >= FRAME_NANOS ==> spec_graft_filter(PointerEvent::CursorMoved, d) == (GraftDecision::Forward {
            restamp: true,
        }),
        !(ev is ButtonReleased) && !(ev is CursorMoved) ==> spec_graft_filter(ev, d) == GraftDecision::Drop,
{
}

/// Whether a selection drag update is due: the first one always is, later
/// ones once a frame after the previous.
pub fn selection_update_due(since_last_update: Option<u128>) -> (r: bool)
    ensures
        r == match since_last_update {
            Some(d) => d >= FRAME_NANOS,
            None => true,
        },
{
    match since_last_update {
        Some(d) => d >= FRAME_NANOS,
        None => true,
    }
}

/// What a button release on a bar was.
#[derive(Debug, Clone, Copy, PartialEq, Eq, Structural)]
pub enum Release {
    /// Held at least [`HOLD_NANOS`].
    Hold,
    /// Shorter than that.
    Click,
    /// No press was recorded for this window (the release safety net already
    /// cleared it).
    Unpaired,
}

/// Classify a release by how long the matching press was held, if one was recorded.
pub fn classify_release(held: Option<u128>) -> (r: Release)
    ensures
        r == match held {
            Some(d) => if d >= HOLD_NANOS {
                Release::Hold
            } else {
                Release::Click
            },
            None => Release::Unpaired,
        },
{
    match held {
        Some(d) => {
            if d >= HOLD_NANOS {
                Release::Hold
            } else {
                Release::Click
            }
        },
        None => Release::Unpaired,
    }
}

/// Whether the selection fade that started `elapsed` ago is over.
pub fn fade_finished(elapsed: u128) -> (r: bool)
    ensures
        r == (elapsed >= FADE_NANOS),
{
    elapsed >= FADE_NANOS
}

} // verus!
