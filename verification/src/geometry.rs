//! Output identities and geometry, layer-shell anchors and the surface
//! descriptions the daemon asks the compositor for.

use vstd::prelude::*;

verus! {

/// A window the daemon owns, by the number its toolkit gave it.
pub type WindowId = u64;

/// Identity of an output: its `wl_registry` global name.
#[derive(Debug, Clone, Copy, PartialEq, Eq, Hash, Structural)]
pub struct OutputId(pub u32);

/// A position in global compositor coordinates.
#[derive(Debug, Clone, Copy, PartialEq, Eq, Structural)]
pub struct Position {
    pub x: i32,
    pub y: i32,
}

/// Width and height in logical pixels.
#[derive(Debug, Clone, Copy, PartialEq, Eq, Structural)]
pub struct Extent {
    pub width: i32,
    pub height: i32,
}

/// What the daemon knows of an output's placement, as the compositor
/// reported it (logical pixels, global compositor coordinates).
#[derive(Debug, Clone, Copy, PartialEq, Eq, Structural)]
pub struct OutputGeometry {
    /// Position reported by `wl_output`.
    pub location: Position,
    /// Position reported by `xdg_output`, when known.
    pub logical_position: Option<Position>,
    /// Size reported by `xdg_output`, when known.
    pub logical_size: Option<Extent>,
    /// Dimensions of the current mode, when one is current.
    pub current_mode: Option<Extent>,
}

/// A rectangle in global compositor coordinates.
#[derive(Debug, Clone, Copy, PartialEq, Eq, Structural)]
pub struct Rect {
    pub x: i128,
    pub y: i128,
    pub width: i128,
    pub height: i128,
}

/// Size assumed for an output that reports neither a logical size nor a
/// current mode, and for a Background window whose output is unknown.
pub const FALLBACK_WIDTH: i32 = 1920;
pub const FALLBACK_HEIGHT: i32 = 1080;

/// Full output geometry in global coordinates (ignores bars).
pub open spec fn spec_output_rect(g: OutputGeometry) -> Rect {
    let p = match g.logical_position {
        Some(p) => p,
        None => g.location,
    };
    let e = match g.logical_size {
        Some(e) => e,
        None => match g.current_mode {
            Some(m) => m,
            None => Extent { width: FALLBACK_WIDTH, height: FALLBACK_HEIGHT },
        },
    };
    Rect { x: p.x as i128, y: p.y as i128, width: e.width as i128, height: e.height as i128 }
}

/// Layer-shell anchor edges, as the `zwlr_layer_surface_v1.anchor` bit set.
#[derive(Debug, Clone, Copy, PartialEq, Eq, Structural)]
pub struct Anchor {
    pub bits: u32,
}

pub const ANCHOR_TOP: u32 = 1;
pub const ANCHOR_BOTTOM: u32 = 2;
pub const ANCHOR_LEFT: u32 = 4;
pub const ANCHOR_RIGHT: u32 = 8;
/// All four edges.
pub const ANCHOR_ALL: u32 = 15;

impl Anchor {
    pub fn top() -> (r: Anchor)
        ensures
            r.bits == ANCHOR_TOP,
    {
        Anchor { bits: ANCHOR_TOP }
    }

    pub fn bottom() -> (r: Anchor)
        ensures
            r.bits == ANCHOR_BOTTOM,
    {
        Anchor { bits: ANCHOR_BOTTOM }
    }

    pub fn left() -> (r: Anchor)
        ensures
            r.bits == ANCHOR_LEFT,
    {
        Anchor { bits: ANCHOR_LEFT }
    }

    pub fn right() -> (r: Anchor)
        ensures
            r.bits == ANCHOR_RIGHT,
    {
        Anchor { bits: ANCHOR_RIGHT }
    }

    pub fn all() -> (r: Anchor)
        ensures
            r.bits == ANCHOR_ALL,
    {
        Anchor { bits: ANCHOR_ALL }
    }
}

/// Compositor layer of a layer-shell surface.
#[derive(Debug, Clone, Copy, PartialEq, Eq, Structural)]
pub enum Layer {
    Background,
    Bottom,
    Top,
    Overlay,
}

/// Requested surface size.
#[derive(Debug, Clone, Copy, PartialEq, Eq, Structural)]
pub enum LayerSize {
    /// Both axes chosen by the compositor.
    Fill,
    /// Compositor-chosen width, exact height.
    FillWidth(u32),
    /// Exact width, compositor-chosen height.
    FillHeight(u32),
}

/// Which output a surface opens on.
#[derive(Debug, Clone, Copy, PartialEq, Eq, Structural)]
pub enum OutputTarget {
    /// The output with this `wl_registry` global name.
    GlobalName(u32),
    /// The output the compositor considers active.
    Active,
}

/// Background blur requested from the compositor.
#[derive(Debug, Clone, Copy, PartialEq, Eq, Structural)]
pub enum Blur {
    Off,
    FullRegion,
}

/// Everything the daemon states about a new layer-shell surface; what is
/// left `None` keeps the toolkit default.
#[derive(Debug, Clone, PartialEq, Eq)]
pub struct LayerSpec {
    pub anchor: Anchor,
    pub layer: Layer,
    pub exclusive_zone: i32,
    pub size: Option<LayerSize>,
    pub output: OutputTarget,
    pub namespace: String,
    pub blur: Option<Blur>,
}

/// The character of a decimal digit.
pub open spec fn digit_char(d: nat) -> char {
    if d == 0 {
        '0'
    } else if d == 1 {
        '1'
    } else if d == 2 {
        '2'
    } else if d == 3 {
        '3'
    } else if d == 4 {
        '4'
    } else if d == 5 {
        '5'
    } else if d == 6 {
        '6'
    } else if d == 7 {
        '7'
    } else if d == 8 {
        '8'
    } else {
        '9'
    }
}

/// The decimal spelling of `n`, without leading zeros.
pub open spec fn decimal(n: nat) -> Seq<char>
    decreases n,
{
    if n < 10 {
        seq![digit_char(n)]
    } else {
        decimal(n / 10).push(digit_char(n % 10))
    }
}

fn digit_str(d: u32) -> (r: &'static str)
    requires
        d < 10,
    ensures
        r@ == seq![digit_char(d as nat)],
{
    proof {
        reveal_strlit("0");
        reveal_strlit("1");
        reveal_strlit("2");
        reveal_strlit("3");
        reveal_strlit("4");
        reveal_strlit("5");
        reveal_strlit("6");
        reveal_strlit("7");
        reveal_strlit("8");
        reveal_strlit("9");
    }
    let r = if d == 0 {
        "0"
    } else if d == 1 {
        "1"
    } else if d == 2 {
        "2"
    } else if d == 3 {
        "3"
    } else if d == 4 {
        "4"
    } else if d == 5 {
        "5"
    } else if d == 6 {
        "6"
    } else if d == 7 {
        "7"
    } else if d == 8 {
        "8"
    } else {
        "9"
    };
    assert(r@ =~= seq![digit_char(d as nat)]);
    r
}

/// `n.to_string()` for a `u32`.
pub fn decimal_string(n: u32) -> (r: String)
    ensures
        r@ == decimal(n as nat),
    decreases n,
{
    if n < 10 {
        String::from_str(digit_str(n))
    } else {
        let mut s = decimal_string(n / 10);
        s.append(digit_str(n % 10));
        proof {
            assert(s@ =~= decimal((n / 10) as nat).push(digit_char((n % 10) as nat)));
        }
        s
    }
}

} // verus!
