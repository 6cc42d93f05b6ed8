//! The daemon's surfaces: per-output Background windows, Top bars, the
//! Overlay and the Settings toplevel, and what each asks the compositor for.

use vstd::prelude::*;
use crate::geometry::{
    decimal, decimal_string, spec_output_rect, Anchor, Blur, Extent, Layer, LayerSize, LayerSpec,
    OutputGeometry, OutputId, OutputTarget, Position, Rect, WindowId, ANCHOR_ALL, ANCHOR_BOTTOM,
    ANCHOR_LEFT, ANCHOR_RIGHT, ANCHOR_TOP, FALLBACK_HEIGHT, FALLBACK_WIDTH,
};
use crate::registry::{edge_inset, lemma_edge_inset_bound, Edge, Insets, Registry, Surface};
use crate::table::Table;

verus! {

/// Thickness of every bar, in logical pixels.
pub const BAR_THICKNESS: u32 = 50;

/// A bar on one edge of an output (the `Top` layer of the shell).
#[derive(Debug, Clone, Copy)]
pub struct Top {
    thickness: u32,
    anchor: Anchor,
}

/// The model of a bar: its thickness and the edge(s) it is anchored to.
#[derive(Debug, Clone, Copy, PartialEq, Eq, Structural)]
pub struct TopView {
    pub thickness: u32,
    pub anchor: Anchor,
}

impl View for Top {
    type V = TopView;

    closed spec fn view(&self) -> TopView {
        TopView { thickness: self.thickness, anchor: self.anchor }
    }
}

impl Top {
    /// The bar with model `v`.
    pub closed spec fn from_view(v: TopView) -> Top {
        Top { thickness: v.thickness, anchor: v.anchor }
    }

    /// A bar is its model.
    pub proof fn lemma_view(v: TopView, t: Top)
        ensures
            Top::from_view(v)@ == v,
            Top::from_view(t@) == t,
    {
    }
}

/// A bar anchored to the left or right edge spans the output's height;
/// any other spans its width.
pub open spec fn is_vertical(a: Anchor) -> bool {
    a.bits == ANCHOR_LEFT || a.bits == ANCHOR_RIGHT
}

/// The surface size a bar requests.
pub open spec fn bar_size(t: TopView) -> LayerSize {
    if is_vertical(t.anchor) {
        LayerSize::FillHeight(t.thickness)
    } else {
        LayerSize::FillWidth(t.thickness)
    }
}

/// A bar on the left or right edge spans the output's height and is its
/// thickness wide; a bar on any other edge spans the width and is its
/// thickness high. So is the surface it opens, on any output.
pub proof fn lemma_bar_spans_its_edge(t: TopView, target: OutputTarget)
    ensures
        t.anchor.bits == ANCHOR_LEFT || t.anchor.bits == ANCHOR_RIGHT ==> bar_size(t)
            == LayerSize::FillHeight(t.thickness),
        t.anchor.bits != ANCHOR_LEFT && t.anchor.bits != ANCHOR_RIGHT ==> bar_size(t)
            == LayerSize::FillWidth(t.thickness),
        bar_spec(t, target).size == Some(bar_size(t)),
        bar_spec(t, target).exclusive_zone == t.thickness as i32,
        bar_spec(t, target).anchor == t.anchor,
{
}

/// The label a bar shows and names its surface with.
pub open spec fn anchor_label_of(a: Anchor) -> Seq<char> {
    if a.bits == ANCHOR_TOP {
        "TOP"@
    } else if a.bits == ANCHOR_BOTTOM {
        "BOTTOM"@
    } else if a.bits == ANCHOR_LEFT {
        "LEFT"@
    } else if a.bits == ANCHOR_RIGHT {
        "RIGHT"@
    } else {
        "BAR"@
    }
}

/// The prefix of every surface namespace the daemon creates.
pub open spec fn namespace_prefix() -> Seq<char> {
    "Riced - "@
}

/// The surface a bar opens on the output with global name `output`.
pub open spec fn bar_spec(t: TopView, target: OutputTarget) -> LayerSpecView {
    LayerSpecView {
        anchor: t.anchor,
        layer: Layer::Top,
        exclusive_zone: t.thickness as i32,
        size: Some(bar_size(t)),
        output: target,
        namespace: namespace_prefix() + anchor_label_of(t.anchor) + match target {
            OutputTarget::GlobalName(n) => " "@ + decimal(n as nat),
            OutputTarget::Active => " Active"@,
        },
        blur: Some(Blur::FullRegion),
    }
}

/// The model of a [`LayerSpec`], with the namespace as characters.
pub struct LayerSpecView {
    pub anchor: Anchor,
    pub layer: Layer,
    pub exclusive_zone: i32,
    pub size: Option<LayerSize>,
    pub output: OutputTarget,
    pub namespace: Seq<char>,
    pub blur: Option<Blur>,
}

impl View for LayerSpec {
    type V = LayerSpecView;

    open spec fn view(&self) -> LayerSpecView {
        LayerSpecView {
            anchor: self.anchor,
            layer: self.layer,
            exclusive_zone: self.exclusive_zone,
            size: self.size,
            output: self.output,
            namespace: self.namespace@,
            blur: self.blur,
        }
    }
}

impl Top {
    /// A bar on the top edge.
    pub fn new() -> (r: Self)
        ensures
            r@ == (TopView { thickness: BAR_THICKNESS, anchor: Anchor { bits: ANCHOR_TOP } }),
            r == Top::from_view(r@),
    {
        Top { thickness: BAR_THICKNESS, anchor: Anchor::top() }
    }

    /// A bar on the given edge.
    pub fn with_anchor(anchor: Anchor) -> (r: Self)
        ensures
            r@ == (TopView { thickness: BAR_THICKNESS, anchor }),
            r == Top::from_view(r@),
    {
        Top { thickness: BAR_THICKNESS, anchor }
    }

    pub fn anchor(&self) -> (r: Anchor)
        ensures
            r == self@.anchor,
    {
        self.anchor
    }

    pub fn thickness(&self) -> (r: u32)
        ensures
            r == self@.thickness,
    {
        self.thickness
    }

    /// Top/Bottom bars span the width (`FillWidth`), Left/Right bars the
    /// height (`FillHeight`).
    pub fn layer_size(&self) -> (r: LayerSize)
        ensures
            r == bar_size(self@),
            self@.anchor.bits == ANCHOR_LEFT || self@.anchor.bits == ANCHOR_RIGHT ==> r
                == LayerSize::FillHeight(self@.thickness),
            self@.anchor.bits != ANCHOR_LEFT && self@.anchor.bits != ANCHOR_RIGHT ==> r
                == LayerSize::FillWidth(self@.thickness),
    {
        if self.anchor.bits == ANCHOR_LEFT || self.anchor.bits == ANCHOR_RIGHT {
            LayerSize::FillHeight(self.thickness)
        } else {
            LayerSize::FillWidth(self.thickness)
        }
    }

    /// `TOP`, `BOTTOM`, `LEFT`, `RIGHT`, or `BAR` for any other anchor.
    pub fn anchor_label(&self) -> (r: &'static str)
        ensures
            r@ == anchor_label_of(self@.anchor),
    {
        if self.anchor.bits == ANCHOR_TOP {
            "TOP"
        } else if self.anchor.bits == ANCHOR_BOTTOM {
            "BOTTOM"
        } else if self.anchor.bits == ANCHOR_LEFT {
            "LEFT"
        } else if self.anchor.bits == ANCHOR_RIGHT {
            "RIGHT"
        } else {
            "BAR"
        }
    }

    /// The bar's surface on the output with global name `output`: the `Top`
    /// layer, an exclusive zone of its thickness, blurred behind.
    pub fn open(&self, output: u32) -> (r: LayerSpec)
        ensures
            r@ == bar_spec(self@, OutputTarget::GlobalName(output)),
            self@.anchor.bits == ANCHOR_LEFT || self@.anchor.bits == ANCHOR_RIGHT ==> r.size == Some(
                LayerSize::FillHeight(self@.thickness),
            ),
            self@.anchor.bits != ANCHOR_LEFT && self@.anchor.bits != ANCHOR_RIGHT ==> r.size == Some(
                LayerSize::FillWidth(self@.thickness),
            ),
    {
        let namespace = String::from_str("Riced - ").concat(self.anchor_label()).concat(" ");
        let namespace = namespace.concat(decimal_string(output).as_str());
        proof {
            assert(namespace@ =~= namespace_prefix() + anchor_label_of(self@.anchor) + (" "@
                + decimal(output as nat)));
        }
        LayerSpec {
            anchor: self.anchor,
            layer: Layer::Top,
            exclusive_zone: self.thickness as i32,
            size: Some(self.layer_size()),
            output: OutputTarget::GlobalName(output),
            namespace,
            blur: Some(Blur::FullRegion),
        }
    }

    /// The bar's surface on the active output, for when no output is known yet.
    pub fn open_active(&self) -> (r: LayerSpec)
        ensures
            r@ == bar_spec(self@, OutputTarget::Active),
            self@.anchor.bits == ANCHOR_LEFT || self@.anchor.bits == ANCHOR_RIGHT ==> r.size == Some(
                LayerSize::FillHeight(self@.thickness),
            ),
            self@.anchor.bits != ANCHOR_LEFT && self@.anchor.bits != ANCHOR_RIGHT ==> r.size == Some(
                LayerSize::FillWidth(self@.thickness),
            ),
    {
        let namespace = String::from_str("Riced - ").concat(self.anchor_label()).concat(
            " Active",
        );
        proof {
            assert(namespace@ =~= namespace_prefix() + anchor_label_of(self@.anchor)
                + " Active"@);
        }
        LayerSpec {
            anchor: self.anchor,
            layer: Layer::Top,
            exclusive_zone: self.thickness as i32,
            size: Some(self.layer_size()),
            output: OutputTarget::Active,
            namespace,
            blur: Some(Blur::FullRegion),
        }
    }
}

impl Top {
    /// Total space the bars on `output` reserve on each of its edges, in
    /// logical pixels. The compositor shrinks a Background window anchored
    /// to all edges by these exclusive zones.
    pub fn insets_for_output(registry: &Registry, output: OutputId) -> (r: Insets)
        requires
            registry.wf(),
        ensures
            r.left == edge_inset(registry@, registry.order(), output, Edge::Left),
            r.right == edge_inset(registry@, registry.order(), output, Edge::Right),
            r.top == edge_inset(registry@, registry.order(), output, Edge::Top),
            r.bottom == edge_inset(registry@, registry.order(), output, Edge::Bottom),
            r.left <= registry.order().len() * 0xFFFF_FFFF,
            r.right <= registry.order().len() * 0xFFFF_FFFF,
            r.top <= registry.order().len() * 0xFFFF_FFFF,
            r.bottom <= registry.order().len() * 0xFFFF_FFFF,
    {
        let ghost m = registry@;
        let ghost order = registry.order();
        proof {
            registry.lemma_order();
            lemma_edge_inset_bound(m, order, output, Edge::Left);
            lemma_edge_inset_bound(m, order, output, Edge::Right);
            lemma_edge_inset_bound(m, order, output, Edge::Top);
            lemma_edge_inset_bound(m, order, output, Edge::Bottom);
            assert(order.take(order.len() as int) =~= order);
        }
        let n: usize = registry.len();
        let mut left: u128 = 0;
        let mut right: u128 = 0;
        let mut top: u128 = 0;
        let mut bottom: u128 = 0;
        let mut i: usize = 0;
        while i < n
            invariant
                registry.wf(),
                m == registry@,
                order == registry.order(),
                n == order.len(),
                i <= n,
                forall|w: WindowId| #[trigger] m.contains_key(w) <==> order.contains(w),
                left == edge_inset(m, order.take(i as int), output, Edge::Left),
                right == edge_inset(m, order.take(i as int), output, Edge::Right),
                top == edge_inset(m, order.take(i as int), output, Edge::Top),
                bottom == edge_inset(m, order.take(i as int), output, Edge::Bottom),
            decreases n - i,
        {
            let w = registry.key_at(i);
            let ghost next = order.take(i + 1);
            proof {
                assert(next.drop_last() =~= order.take(i as int));
                assert(next.last() == w);
                assert(order.contains(w));
                lemma_edge_inset_bound(m, next, output, Edge::Left);
                lemma_edge_inset_bound(m, next, output, Edge::Right);
                lemma_edge_inset_bound(m, next, output, Edge::Top);
                lemma_edge_inset_bound(m, next, output, Edge::Bottom);
                assert((i + 1) * 0xFFFF_FFFF < 0x1_0000_0000_0000_0000_0000_0000_0000_0000)
                    by (nonlinear_arith)
                    requires
                        i < 0x1_0000_0000_0000_0000,
                ;
            }
            match registry.get(w) {
                Some(Surface::Top(o2, t)) => {
                    if o2 == output {
                        let th = t.thickness as u128;
                        if t.anchor.bits == ANCHOR_LEFT {
                            left = left + th;
                        } else if t.anchor.bits == ANCHOR_RIGHT {
                            right = right + th;
                        } else if t.anchor.bits == ANCHOR_BOTTOM {
                            bottom = bottom + th;
                        } else {
                            top = top + th;
                        }
                    }
                },
                _ => {},
            }
            i = i + 1;
        }
        Insets { left, right, top, bottom }
    }
}

/// The fullscreen surface behind everything on one output, where selections
/// and the context menu live.
#[derive(Debug, Clone, Copy)]
pub struct Background;

/// The surface a Background opens on the output with global name `output`.
pub open spec fn background_spec(output: u32) -> LayerSpecView {
    LayerSpecView {
        anchor: Anchor { bits: ANCHOR_ALL },
        layer: Layer::Background,
        exclusive_zone: 0,
        size: Some(LayerSize::Fill),
        output: OutputTarget::GlobalName(output),
        namespace: "Riced - Background"@,
        blur: Some(Blur::Off),
    }
}

/// Key of an output in the output table.
pub open spec fn output_key(o: OutputId) -> u64 {
    o.0 as u64
}

/// The Background window area of an output: the output's rectangle minus
/// the space its bars reserve on each edge (never negative in size).
pub open spec fn spec_available(r: Rect, left: int, right: int, top: int, bottom: int) -> Rect {
    let w = r.width - left - right;
    let h = r.height - top - bottom;
    Rect {
        x: (r.x + left) as i128,
        y: (r.y + top) as i128,
        width: (if w > 0 { w } else { 0 }) as i128,
        height: (if h > 0 { h } else { 0 }) as i128,
    }
}

/// The Background window area of `o` under registry `reg` and outputs `outs`.
pub open spec fn spec_available_rect(
    reg: Map<WindowId, Surface>,
    order: Seq<WindowId>,
    outs: Map<u64, OutputGeometry>,
    o: OutputId,
) -> Option<Rect> {
    if outs.contains_key(output_key(o)) {
        Some(
            spec_available(
                spec_output_rect(outs[output_key(o)]),
                edge_inset(reg, order, o, Edge::Left) as int,
                edge_inset(reg, order, o, Edge::Right) as int,
                edge_inset(reg, order, o, Edge::Top) as int,
                edge_inset(reg, order, o, Edge::Bottom) as int,
            ),
        )
    } else {
        None
    }
}

/// The area assumed for a Background whose output is unknown: full HD at the
/// origin.
pub open spec fn fallback_rect() -> Rect {
    Rect { x: 0, y: 0, width: FALLBACK_WIDTH as i128, height: FALLBACK_HEIGHT as i128 }
}

impl Background {
    /// Full output geometry in global coordinates (ignores bars): the
    /// logical position if known, else the `wl_output` location; the logical
    /// size if known, else the current mode, else full HD.
    pub fn output_geometry(info: &OutputGeometry) -> (r: Rect)
        ensures
            r == spec_output_rect(*info),
    {
        let p: Position = match info.logical_position {
            Some(p) => p,
            None => info.location,
        };
        let e: Extent = match info.logical_size {
            Some(e) => e,
            None => match info.current_mode {
                Some(m) => m,
                None => Extent { width: FALLBACK_WIDTH, height: FALLBACK_HEIGHT },
            },
        };
        Rect { x: p.x as i128, y: p.y as i128, width: e.width as i128, height: e.height as i128 }
    }

    /// The Background window area of `output` in global coordinates: the
    /// full output minus the exclusive zones of the bars on it; `None` when
    /// the output's geometry is unknown.
    pub fn available_rect(output: OutputId, outputs: &Table<OutputGeometry>, registry: &Registry) -> (r:
        Option<Rect>)
        requires
            outputs.wf(),
            registry.wf(),
        ensures
            r == spec_available_rect(registry@, registry.order(), outputs@, output),
    {
        match outputs.get(output.0 as u64) {
            None => None,
            Some(g) => {
                let full = Self::output_geometry(&g);
                let ins = Top::insets_for_output(registry, output);
                let n: usize = registry.len();
                assert(n * 0xFFFF_FFFF < 0x1_0000_0000_0000_0000_0000_0000) by (nonlinear_arith)
                    requires
                        n < 0x1_0000_0000_0000_0000,
                ;
                let l = ins.left as i128;
                let rt = ins.right as i128;
                let t = ins.top as i128;
                let b = ins.bottom as i128;
                let w = full.width - l - rt;
                let h = full.height - t - b;
                Some(
                    Rect {
                        x: full.x + l,
                        y: full.y + t,
                        width: if w > 0 { w } else { 0 },
                        height: if h > 0 { h } else { 0 },
                    },
                )
            },
        }
    }

    /// [`Background::available_rect`], or [`fallback_rect`] when the
    /// output's geometry is unknown.
    pub fn available_rect_or_fallback(
        output: OutputId,
        outputs: &Table<OutputGeometry>,
        registry: &Registry,
    ) -> (r: Rect)
        requires
            outputs.wf(),
            registry.wf(),
        ensures
            r == match spec_available_rect(registry@, registry.order(), outputs@, output) {
                Some(a) => a,
                None => fallback_rect(),
            },
    {
        match Self::available_rect(output, outputs, registry) {
            Some(a) => a,
            None => Rect { x: 0, y: 0, width: FALLBACK_WIDTH as i128, height: FALLBACK_HEIGHT as i128 },
        }
    }

    /// Anchored to all edges, filling the output on the background layer.
    pub fn open(&self, output: u32) -> (r: LayerSpec)
        ensures
            r@ == background_spec(output),
    {
        LayerSpec {
            anchor: Anchor::all(),
            layer: Layer::Background,
            exclusive_zone: 0,
            size: Some(LayerSize::Fill),
            output: OutputTarget::GlobalName(output),
            namespace: String::from_str("Riced - Background"),
            blur: Some(Blur::Off),
        }
    }
}

/// A transparent surface on the overlay layer.
#[derive(Debug, Clone, Copy)]
pub struct Overlay;

/// The surface an Overlay opens on the output with global name `output`.
pub open spec fn overlay_spec(output: u32) -> LayerSpecView {
    LayerSpecView {
        anchor: Anchor { bits: ANCHOR_TOP },
        layer: Layer::Overlay,
        exclusive_zone: 0,
        size: None,
        output: OutputTarget::GlobalName(output),
        namespace: "Riced - Overlay"@,
        blur: None,
    }
}

impl Overlay {
    pub fn open(&self, output: u32) -> (r: LayerSpec)
        ensures
            r@ == overlay_spec(output),
    {
        LayerSpec {
            anchor: Anchor::top(),
            layer: Layer::Overlay,
            exclusive_zone: 0,
            size: None,
            output: OutputTarget::GlobalName(output),
            namespace: String::from_str("Riced - Overlay"),
            blur: None,
        }
    }
}

/// What the daemon asks for a new toplevel (XDG) window.
#[derive(Debug, Clone, Copy, PartialEq, Eq, Structural)]
pub struct BaseWindowSpec {
    /// Draw decorations ourselves rather than having the compositor do it.
    pub client_side_decorations: bool,
}

/// The floating Settings panel (an XDG toplevel).
#[derive(Debug, Clone, Copy, Default)]
pub struct Setting;

/// The Settings window title.
pub open spec fn settings_title() -> Seq<char> {
    "Riced Settings"@
}

impl Setting {
    /// The Settings window title.
    pub const TITLE: &'static str = "Riced Settings";

    pub fn title() -> (r: String)
        ensures
            r@ == settings_title(),
    {
        String::from_str(Self::TITLE)
    }

    /// Client-side decorations: no compositor titlebar or frame, the whole
    /// surface is the panel's to keep transparent (closed via the toggle).
    pub fn open(&self) -> (r: BaseWindowSpec)
        ensures
            r.client_side_decorations,
    {
        BaseWindowSpec { client_side_decorations: true }
    }
}

} // verus!
