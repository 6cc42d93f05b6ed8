//! The daemon's state and the decisions of its update loop: which windows to
//! open and close when outputs come and go, the Settings toggle, bars added
//! from the context menu, configuration messages, and the geometry every
//! Background window works in.
//!
//! The application runs the loop: it turns toolkit messages into calls
//! here, opens or closes the windows these calls name, and keeps what only
//! it can hold (pointer positions, timers, the selection rectangle).

use vstd::prelude::*;
use crate::config::{Config, ConfigEvent, ConfigWatch, Px, Stamp};
use crate::geometry::{
    spec_output_rect, Anchor, LayerSpec, OutputGeometry, OutputId, OutputTarget, WindowId,
    ANCHOR_TOP,
};
use crate::layers::{
    background_spec, bar_spec, output_key, spec_available_rect, Background, BaseWindowSpec,
};
use crate::registry::{
    bar, bars_standard, has_background, info_of, is_background_of, is_setting, is_top_on, settings_open, Edge,
    PlotInfo, Registry, Surface, SENTINEL_OUTPUT, lemma_no_bars_no_insets,
};
use crate::table::Table;

verus! {

/// The right-click menu: where it was opened (global coordinates), whether
/// it is showing, and the output whose Background it was opened on.
#[derive(Debug, Clone, Copy, PartialEq, Eq, Structural)]
pub struct ContextMenu {
    pub x: Px,
    pub y: Px,
    pub open: bool,
    pub output: Option<OutputId>,
}

/// A point in global coordinates, as logical-pixel bit patterns.
#[derive(Debug, Clone, Copy, PartialEq, Eq, Structural)]
pub struct PointPx {
    pub x: Px,
    pub y: Px,
}

/// The global drag-selection rectangle (global coordinates, so one drag can
/// span outputs). `x`, `y`, `width` and `height` are written by the drag
/// update of the application, which computes them from pointer positions.
#[derive(Debug, Clone, Copy, PartialEq, Eq, Structural)]
pub struct SelectionRect {
    pub start_point: Option<PointPx>,
    pub selecting: bool,
    pub x: Px,
    pub y: Px,
    pub width: Px,
    pub height: Px,
}

/// No selection: nothing selecting, no start point, everything zero.
pub open spec fn idle_selection() -> SelectionRect {
    SelectionRect {
        start_point: None,
        selecting: false,
        x: Px { bits: 0 },
        y: Px { bits: 0 },
        width: Px { bits: 0 },
        height: Px { bits: 0 },
    }
}

impl SelectionRect {
    pub fn idle() -> (r: Self)
        ensures
            r == idle_selection(),
    {
        SelectionRect {
            start_point: None,
            selecting: false,
            x: Px::zero(),
            y: Px::zero(),
            width: Px::zero(),
            height: Px::zero(),
        }
    }

    /// The rectangle after a selection ends: when one was in progress it
    /// stops, loses its start point and collapses to zero size (keeping its
    /// position); otherwise nothing changes.
    pub open spec fn after_reset(self) -> SelectionRect {
        if self.selecting {
            SelectionRect {
                selecting: false,
                width: Px { bits: 0 },
                height: Px { bits: 0 },
                start_point: None,
                ..self
            }
        } else {
            self
        }
    }

    /// End the selection in progress, if any. Returns whether one ended.
    pub fn reset(&mut self) -> (r: bool)
        ensures
            r == old(self).selecting,
            *final(self) == old(self).after_reset(),
    {
        if self.selecting {
            self.selecting = false;
            self.width = Px::zero();
            self.height = Px::zero();
            self.start_point = None;
            true
        } else {
            false
        }
    }
}

/// Result of [`Plots::toggle_settings`].
#[derive(Debug, Clone)]
pub enum SettingsToggle {
    /// No Settings window was open: the given window opens with this spec.
    Opened(BaseWindowSpec),
    /// These Settings windows were open and are now closed.
    Closed(Vec<WindowId>),
}

/// Result of [`Plots::output_added`].
#[derive(Debug, Clone)]
pub struct OutputAdded {
    /// Bars opened before any output was known, now closed.
    pub closed: Vec<WindowId>,
    /// The output's new Background surface (for the given window id), if
    /// it had none.
    pub background: Option<LayerSpec>,
    /// The output's new top bar (for the given bar window id), if it had no
    /// bar on its top edge.
    pub bar: Option<LayerSpec>,
}

/// What a configuration message asks of the application.
#[derive(Debug, Clone, Copy, PartialEq, Eq, Structural)]
pub enum ConfigAction {
    /// Check the file's stamp (see [`ConfigWatch`]) and load it if it changed.
    CheckFile,
    /// The live configuration changed: redraw everything.
    Redraw,
    /// The live configuration changed: save it, then redraw everything.
    SaveAndRedraw,
}

/// The registry without the bars opened before any output was known.
pub open spec fn without_sentinels(m: Map<WindowId, Surface>) -> Map<WindowId, Surface> {
    m.remove_keys(Set::new(|w: WindowId| is_top_on(m, w, OutputId(SENTINEL_OUTPUT))))
}

/// The registry after window `id` became the Background of `o`, when
/// `added` says it did.
pub open spec fn with_background(m: Map<WindowId, Surface>, added: bool, id: WindowId, o: OutputId) -> Map<
    WindowId,
    Surface,
> {
    if added {
        m.insert(id, Surface::Background(o))
    } else {
        m
    }
}

/// Output `o` has a bar anchored at `a`.
pub open spec fn has_bar_at(m: Map<WindowId, Surface>, o: OutputId, a: Anchor) -> bool {
    exists|w: WindowId| #[trigger] is_top_on(m, w, o) && m[w]->Top_1@.anchor == a
}

/// Where "Add bar" opens its bar, given what the application's geometry
/// found: `menu_edge` is the edge of the menu's stored output closest to the
/// menu position, `nearest` the output under the menu position (or nearest
/// to it) with its closest edge.
/// - A menu with a stored output: that output, at `menu_edge` when the
///   output's geometry is known, else at the top edge.
/// - A menu without one: the `nearest` output and edge; with no output at
///   all, a top bar on the active output.
/// - No menu: the first known output, at the top edge; with none, a top bar
///   on the active output.
pub open spec fn spec_bar_target(
    menu: Option<ContextMenu>,
    outs: Map<u64, OutputGeometry>,
    keys: Seq<u64>,
    menu_edge: Option<Anchor>,
    nearest: Option<(OutputId, Anchor)>,
) -> (Option<OutputId>, Anchor) {
    let top = Anchor { bits: ANCHOR_TOP };
    match menu {
        Some(cm) => match cm.output {
            Some(o) => (
                Some(o),
                if outs.contains_key(output_key(o)) {
                    match menu_edge {
                        Some(a) => a,
                        None => top,
                    }
                } else {
                    top
                },
            ),
            None => match nearest {
                Some((o, a)) => (Some(o), a),
                None => (None, top),
            },
        },
        None => if keys.len() > 0 {
            (Some(OutputId(keys[0] as u32)), top)
        } else {
            (None, top)
        },
    }
}

/// Every key of the output table is the key of an output id.
pub open spec fn output_keys_fit(outs: Map<u64, OutputGeometry>) -> bool {
    forall|k: u64| #[trigger] outs.contains_key(k) ==> k <= 0xFFFF_FFFF
}

/// The daemon's state, apart from pointer, timing and selection state.
pub struct Plots {
    /// Every window the daemon owns.
    pub registry: Registry,
    /// Geometry of each known output, keyed by [`output_key`].
    pub outputs: Table<OutputGeometry>,
    /// The right-click menu, once opened.
    pub context_menu: Option<ContextMenu>,
    /// The live configuration.
    pub config: Config,
    /// The stamp of the file the live configuration came from.
    pub config_watch: ConfigWatch,
    /// The drag selection.
    pub selection: SelectionRect,
    /// The last selection, fading out after it ended.
    pub fade: Option<SelectionRect>,
}

impl Plots {
    /// The registry and the output table are well formed, and the output
    /// table is keyed by output ids (which fit in 32 bits).
    pub open spec fn wf(&self) -> bool {
        &&& self.registry.wf()
        &&& self.outputs.wf()
        &&& output_keys_fit(self.outputs@)
    }

    /// The window `id` is not one the daemon owns yet.
    pub open spec fn fresh(&self, id: WindowId) -> bool {
        !self.registry@.contains_key(id)
    }

    /// A daemon with no windows and no known outputs, serving `config`
    /// (loaded from a file stamped `config_stamp`).
    pub fn new(config: Config, config_stamp: Option<Stamp>) -> (r: Self)
        ensures
            r.wf(),
            r.registry@ == Map::<WindowId, Surface>::empty(),
            r.outputs@ == Map::<u64, OutputGeometry>::empty(),
            r.context_menu is None,
            r.config == config,
            r.config_watch.known == config_stamp,
            r.selection == idle_selection(),
            r.fade is None,
    {
        Plots {
            registry: Registry::new(),
            outputs: Table::new(),
            context_menu: None,
            config,
            config_watch: ConfigWatch { known: config_stamp },
            selection: SelectionRect::idle(),
            fade: None,
        }
    }

    /// Start a drag selection at global point `at` (a left press on a
    /// Background away from the context menu): the menu closes, any fading
    /// rectangle is dropped, and a zero-size selection starts at `at`.
    pub fn begin_selection(&mut self, at: PointPx)
        ensures
            final(self).config_watch == old(self).config_watch,
            final(self).registry == old(self).registry,
            final(self).outputs == old(self).outputs,
            final(self).config == old(self).config,
            final(self).context_menu == match old(self).context_menu {
                Some(cm) => Some(ContextMenu { open: false, ..cm }),
                None => None,
            },
            final(self).fade is None,
            final(self).selection == (SelectionRect {
                start_point: Some(at),
                selecting: true,
                x: at.x,
                y: at.y,
                width: Px { bits: 0 },
                height: Px { bits: 0 },
            }),
    {
        self.close_context_menu();
        self.fade = None;
        self.selection = SelectionRect {
            start_point: Some(at),
            selecting: true,
            x: at.x,
            y: at.y,
            width: Px::zero(),
            height: Px::zero(),
        };
    }

    /// A left release anywhere: a selection in progress ends and starts
    /// fading out as it was; without one nothing changes. Returns whether a
    /// selection ended (the application then starts the fade timer).
    pub fn end_selection(&mut self) -> (r: bool)
        ensures
            final(self).config_watch == old(self).config_watch,
            r == old(self).selection.selecting,
            final(self).registry == old(self).registry,
            final(self).outputs == old(self).outputs,
            final(self).config == old(self).config,
            final(self).context_menu == old(self).context_menu,
            final(self).selection == old(self).selection.after_reset(),
            final(self).fade == (if r {
                Some(old(self).selection)
            } else {
                old(self).fade
            }),
    {
        if self.selection.selecting {
            self.fade = Some(self.selection);
        }
        self.selection.reset()
    }

    /// The fade-out is over: drop the faded rectangle.
    pub fn finish_fade(&mut self)
        ensures
            final(self).config_watch == old(self).config_watch,
            final(self).registry == old(self).registry,
            final(self).outputs == old(self).outputs,
            final(self).config == old(self).config,
            final(self).context_menu == old(self).context_menu,
            final(self).selection == old(self).selection,
            final(self).fade is None,
    {
        self.fade = None;
    }

    /// The daemon's application namespace.
    pub fn namespace() -> (r: String)
        ensures
            r@ == "Riced Main Runtime"@,
    {
        String::from_str("Riced Main Runtime")
    }

    /// What kind of window `id` is, if the daemon owns it.
    pub fn id_info(&self, id: WindowId) -> (r: Option<PlotInfo>)
        requires
            self.wf(),
        ensures
            r == (if self.registry@.contains_key(id) {
                Some(info_of(self.registry@[id]))
            } else {
                None
            }),
    {
        self.registry.id_info(id)
    }

    /// The title of window `id`: only Settings windows have one.
    pub fn title(&self, id: WindowId) -> (r: Option<String>)
        requires
            self.wf(),
        ensures
            match r {
                Some(t) => is_setting(self.registry@, id) && t@ == "Riced Settings"@,
                None => !is_setting(self.registry@, id),
            },
    {
        self.registry.title(id)
    }

    /// Where window-local coordinates of window `id` start in global
    /// coordinates: the origin of its output's Background area for a
    /// Background window whose output is known; `None` (no translation) for
    /// any other window.
    pub fn window_origin(&self, id: WindowId) -> (r: Option<(i128, i128)>)
        requires
            self.wf(),
        ensures
            r == (if self.registry@.contains_key(id) && self.registry@[id] is Background {
                match spec_available_rect(
                    self.registry@,
                    self.registry.order(),
                    self.outputs@,
                    self.registry@[id]->Background_0,
                ) {
                    Some(a) => Some((a.x, a.y)),
                    None => None,
                }
            } else {
                None
            }),
    {
        match self.registry.id_info(id) {
            Some(PlotInfo::Background(o)) => {
                match Background::available_rect(o, &self.outputs, &self.registry) {
                    Some(a) => Some((a.x, a.y)),
                    None => match self.outputs.get(o.0 as u64) {
                        Some(g) => {
                            let full = Background::output_geometry(&g);
                            Some((full.x, full.y))
                        },
                        None => None,
                    },
                }
            },
            _ => None,
        }
    }

    /// Hide the context menu (it keeps its position and output).
    pub fn close_context_menu(&mut self)
        ensures
            final(self).selection == old(self).selection,
            final(self).fade == old(self).fade,
            final(self).registry == old(self).registry,
            final(self).outputs == old(self).outputs,
            final(self).config == old(self).config,
            final(self).config_watch == old(self).config_watch,
            final(self).context_menu == match old(self).context_menu {
                Some(cm) => Some(ContextMenu { open: false, ..cm }),
                None => None,
            },
    {
        match self.context_menu {
            Some(cm) => {
                self.context_menu = Some(ContextMenu { open: false, ..cm });
            },
            None => {},
        }
    }

    /// Show the context menu at global `(x, y)`, opened on the Background of `output`.
    pub fn open_context_menu(&mut self, x: Px, y: Px, output: Option<OutputId>)
        ensures
            final(self).selection == old(self).selection,
            final(self).fade == old(self).fade,
            final(self).registry == old(self).registry,
            final(self).outputs == old(self).outputs,
            final(self).config == old(self).config,
            final(self).config_watch == old(self).config_watch,
            final(self).context_menu == Some(ContextMenu { x, y, open: true, output }),
    {
        self.context_menu = Some(ContextMenu { x, y, open: true, output });
    }

    /// Open a Settings window (as window `id`), closing the context menu first.
    pub fn open_settings(&mut self, id: WindowId) -> (r: BaseWindowSpec)
        requires
            old(self).wf(),
            old(self).fresh(id),
        ensures
            final(self).config_watch == old(self).config_watch,
            final(self).config == old(self).config,
            final(self).selection == old(self).selection,
            final(self).fade == old(self).fade,
            final(self).wf(),
            final(self).registry@ == old(self).registry@.insert(id, Surface::Setting),
            final(self).registry.order() == old(self).registry.order().push(id),
            final(self).outputs == old(self).outputs,
            final(self).context_menu == match old(self).context_menu {
                Some(cm) => Some(ContextMenu { open: false, ..cm }),
                None => None,
            },
            r.client_side_decorations,
    {
        self.close_context_menu();
        self.registry.add_setting(id)
    }

    /// The Settings toggle (context menu entry, `riced open-settings`):
    /// closes the context menu, then opens a Settings window (as `id`) when
    /// none is open, else closes every open one.
    pub fn toggle_settings(&mut self, id: WindowId) -> (r: SettingsToggle)
        requires
            old(self).wf(),
            old(self).fresh(id),
        ensures
            final(self).config_watch == old(self).config_watch,
            final(self).config == old(self).config,
            final(self).selection == old(self).selection,
            final(self).fade == old(self).fade,
            final(self).wf(),
            final(self).outputs == old(self).outputs,
            final(self).context_menu == match old(self).context_menu {
                Some(cm) => Some(ContextMenu { open: false, ..cm }),
                None => None,
            },
            match r {
                SettingsToggle::Opened(spec) => {
                    &&& !settings_open(old(self).registry@)
                    &&& spec.client_side_decorations
                    &&& final(self).registry@ == old(self).registry@.insert(id, Surface::Setting)
                },
                SettingsToggle::Closed(ids) => {
                    &&& settings_open(old(self).registry@)
                    &&& ids@.no_duplicates()
                    &&& forall|w: WindowId| #[trigger] ids@.contains(w) <==> is_setting(old(self).registry@, w)
                    &&& final(self).registry@ == old(self).registry@.remove_keys(
                        Set::new(|w: WindowId| is_setting(old(self).registry@, w)),
                    )
                },
            },
    {
        self.close_context_menu();
        if !self.registry.has_settings() {
            SettingsToggle::Opened(self.registry.add_setting(id))
        } else {
            SettingsToggle::Closed(self.registry.close_all_settings())
        }
    }

    /// A window closed (by us or by the compositor): forget it.
    pub fn uproot(&mut self, id: WindowId) -> (r: Option<PlotInfo>)
        requires
            old(self).wf(),
        ensures
            final(self).config_watch == old(self).config_watch,
            final(self).config == old(self).config,
            final(self).selection == old(self).selection,
            final(self).fade == old(self).fade,
            final(self).wf(),
            final(self).registry@ == old(self).registry@.remove(id),
            final(self).outputs == old(self).outputs,
            final(self).context_menu == old(self).context_menu,
            r == (if old(self).registry@.contains_key(id) {
                Some(info_of(old(self).registry@[id]))
            } else {
                None
            }),
    {
        self.registry.uproot(id)
    }

    /// An output appeared: record its geometry, close the bars that were
    /// opened before any output was known, give the output a Background (as
    /// window `id`) unless it has one, and a top bar (as window `bar_id`)
    /// unless it already has a bar on its top edge.
    pub fn output_added(&mut self, o: OutputId, geometry: OutputGeometry, id: WindowId, bar_id: WindowId) -> (r: OutputAdded)
        requires
            old(self).wf(),
            old(self).fresh(id),
            old(self).fresh(bar_id),
            id != bar_id,
        ensures
            final(self).config_watch == old(self).config_watch,
            final(self).config == old(self).config,
            final(self).selection == old(self).selection,
            final(self).fade == old(self).fade,
            final(self).wf(),
            final(self).outputs@ == old(self).outputs@.insert(output_key(o), geometry),
            final(self).context_menu == old(self).context_menu,
            r.closed@.no_duplicates(),
            forall|w: WindowId| #[trigger] r.closed@.contains(w) <==> is_top_on(
                old(self).registry@,
                w,
                OutputId(SENTINEL_OUTPUT),
            ),
            match r.background {
                Some(spec) => {
                    &&& !has_background(without_sentinels(old(self).registry@), o)
                    &&& spec@ == background_spec(o.0)
                },
                None => has_background(without_sentinels(old(self).registry@), o),
            },
            bars_standard(final(self).registry@),
            match r.bar {
                Some(spec) => {
                    let before = with_background(without_sentinels(old(self).registry@), r.background is Some, id, o);
                    &&& !has_bar_at(before, o, Anchor { bits: ANCHOR_TOP })
                    &&& spec@ == bar_spec(bar(Anchor { bits: ANCHOR_TOP })@, OutputTarget::GlobalName(o.0))
                    &&& final(self).registry@ == before.insert(bar_id, Surface::Top(o, bar(Anchor { bits: ANCHOR_TOP })))
                },
                None => {
                    let before = with_background(without_sentinels(old(self).registry@), r.background is Some, id, o);
                    &&& has_bar_at(before, o, Anchor { bits: ANCHOR_TOP })
                    &&& final(self).registry@ == before
                },
            },
    {
        self.outputs.insert(o.0 as u64, geometry);
        let closed = self.registry.cleanup_sentinels();
        let background = self.registry.ensure_background(o, id);
        let ghost with_bg = self.registry@;
        let top = Anchor::top();
        assert(top == Anchor { bits: ANCHOR_TOP });
        let new_bar = if self.registry.has_bar_at(o, top) {
            None
        } else {
            let (spec, _) = self.registry.add_top(Some(o), top, bar_id);
            Some(spec)
        };
        proof {
            let kept = without_sentinels(old(self).registry@);
            assert(with_bg == with_background(kept, background is Some, id, o));
            self.registry.lemma_order();
        }
        OutputAdded { closed, background, bar: new_bar }
    }

    /// An output's geometry changed.
    pub fn output_updated(&mut self, o: OutputId, geometry: OutputGeometry)
        requires
            old(self).wf(),
        ensures
            final(self).config_watch == old(self).config_watch,
            final(self).config == old(self).config,
            final(self).selection == old(self).selection,
            final(self).fade == old(self).fade,
            final(self).wf(),
            final(self).outputs@ == old(self).outputs@.insert(output_key(o), geometry),
            final(self).registry == old(self).registry,
            final(self).context_menu == old(self).context_menu,
    {
        self.outputs.insert(o.0 as u64, geometry);
    }

    /// An output went away: forget its geometry and close its Background
    /// and all its bars. Returns the windows to close, the Background first.
    pub fn output_removed(&mut self, o: OutputId) -> (r: Vec<WindowId>)
        requires
            old(self).wf(),
        ensures
            final(self).config_watch == old(self).config_watch,
            final(self).config == old(self).config,
            final(self).selection == old(self).selection,
            final(self).fade == old(self).fade,
            final(self).wf(),
            final(self).outputs@ == old(self).outputs@.remove(output_key(o)),
            final(self).context_menu == old(self).context_menu,
            r@.no_duplicates(),
            forall|w: WindowId| #[trigger] r@.contains(w) <==> (is_background_of(old(self).registry@, w, o) || is_top_on(old(self).registry@, w, o)),
            has_background(old(self).registry@, o) ==> is_background_of(old(self).registry@, r@[0], o),
            final(self).registry@ == old(self).registry@.remove_keys(
                Set::new(|w: WindowId| is_background_of(old(self).registry@, w, o) || is_top_on(old(self).registry@, w, o)),
            ),
    {
        let ghost before = self.registry@;
        proof {
            self.registry.lemma_order();
        }
        let mut closed: Vec<WindowId> = Vec::new();
        let bg = self.registry.remove_background(o);
        match bg {
            Some(w) => closed.push(w),
            None => {},
        }
        proof {
            match bg {
                Some(w) => {
                    assert(closed@ =~= seq![w]);
                },
                None => {
                    assert(closed@ =~= Seq::<WindowId>::empty());
                },
            }
        }
        let ghost mid = self.registry@;
        let tops = self.registry.remove_tops_for_output(o);
        let ghost first = closed@;
        let mut j: usize = 0;
        while j < tops.len()
            invariant
                j <= tops@.len(),
                closed@ == first + tops@.take(j as int),
                first.len() <= 1,
                forall|w: WindowId| #[trigger] first.contains(w) ==> is_background_of(before, w, o),
            decreases tops@.len() - j,
        {
            closed.push(tops[j]);
            proof {
                assert(first + tops@.take(j + 1) =~= (first + tops@.take(j as int)).push(tops@[j as int]));
            }
            j = j + 1;
        }
        proof {
            assert(tops@.take(tops@.len() as int) =~= tops@);
            assert forall|w: WindowId| #[trigger] is_top_on(mid, w, o) <==> is_top_on(before, w, o) by {}
            assert forall|w: WindowId| #[trigger] closed@.contains(w) <==> (is_background_of(before, w, o) || is_top_on(before, w, o)) by {
                if closed@.contains(w) {
                    let a = choose|a: int| 0 <= a < closed@.len() && closed@[a] == w;
                    if a < first.len() {
                        assert(first.contains(w));
                    } else {
                        assert(tops@[a - first.len()] == w);
                        assert(tops@.contains(w));
                    }
                }
                if is_background_of(before, w, o) {
                    assert(has_background(before, o));
                    let w2 = bg->Some_0;
                    assert(is_background_of(before, w2, o));
                    assert(w2 == w);
                    assert(first[0] == w);
                    assert(closed@[0] == w);
                }
                if is_top_on(before, w, o) {
                    assert(tops@.contains(w));
                    let a = choose|a: int| 0 <= a < tops@.len() && tops@[a] == w;
                    assert(closed@[first.len() + a] == w);
                }
            }
            assert forall|a: int, b: int| 0 <= a < closed@.len() && 0 <= b < closed@.len() && a != b implies closed@[a] != closed@[b] by {
                if a >= first.len() && b >= first.len() {
                    assert(tops@[a - first.len()] != tops@[b - first.len()]);
                } else if a < first.len() && b >= first.len() {
                    assert(tops@.contains(closed@[b]));
                    assert(is_top_on(before, closed@[b], o));
                    assert(is_background_of(before, closed@[a], o));
                } else if b < first.len() && a >= first.len() {
                    assert(tops@.contains(closed@[a]));
                    assert(is_top_on(before, closed@[a], o));
                    assert(is_background_of(before, closed@[b], o));
                }
            }
            let target = before.remove_keys(
                Set::new(|w: WindowId| is_background_of(before, w, o) || is_top_on(before, w, o)),
            );
            assert forall|k: WindowId| #[trigger] self.registry@.contains_key(k) <==> target.contains_key(k) by {
                if bg is Some && k == bg->Some_0 {
                    assert(is_background_of(before, k, o));
                }
            }
            assert forall|k: WindowId| #[trigger] self.registry@.contains_key(k) implies self.registry@[k] == target[k] by {}
            assert(self.registry@ =~= before.remove_keys(
                Set::new(|w: WindowId| is_background_of(before, w, o) || is_top_on(before, w, o)),
            ));
        }
        self.outputs.remove(o.0 as u64);
        closed
    }

    /// The output and edge "Add bar" opens its bar at (see
    /// [`spec_bar_target`]); `menu_edge` and `nearest` come from the
    /// application's geometry.
    pub fn bar_target(&self, menu_edge: Option<Anchor>, nearest: Option<(OutputId, Anchor)>) -> (r: (
        Option<OutputId>,
        Anchor,
    ))
        requires
            self.wf(),
        ensures
            r == spec_bar_target(self.context_menu, self.outputs@, self.outputs.order(), menu_edge, nearest),
            self.context_menu is None && r.0 is Some ==> self.outputs@.contains_key(output_key(r.0->Some_0)),
    {
        let top = Anchor::top();
        match self.context_menu {
            Some(cm) => match cm.output {
                Some(o) => {
                    if self.outputs.contains_key(o.0 as u64) {
                        match menu_edge {
                            Some(a) => (Some(o), a),
                            None => (Some(o), top),
                        }
                    } else {
                        (Some(o), top)
                    }
                },
                None => match nearest {
                    Some((o, a)) => (Some(o), a),
                    None => (None, top),
                },
            },
            None => {
                if self.outputs.len() > 0 {
                    let k = self.outputs.key_at(0);
                    proof {
                        self.outputs.lemma_order();
                        assert(self.outputs.order().contains(k));
                        assert(self.outputs@.contains_key(k));
                        assert(k <= 0xFFFF_FFFF);
                        assert((k as u32) as u64 == k);
                    }
                    (Some(OutputId(k as u32)), top)
                } else {
                    (None, top)
                }
            },
        }
    }

    /// "Add bar" from the context menu: close the menu, then open a bar (as
    /// window `id`) at `anchor` on `target`, or a top bar on the active output
    /// when no output is known. The application picks `target` and `anchor`
    /// from where the menu was opened. Returns the bar's surface and whether
    /// the output already had a bar there.
    pub fn add_top(&mut self, target: Option<OutputId>, anchor: Anchor, id: WindowId) -> (r: (LayerSpec, bool))
        requires
            old(self).wf(),
            old(self).fresh(id),
        ensures
            final(self).config_watch == old(self).config_watch,
            final(self).config == old(self).config,
            final(self).selection == old(self).selection,
            final(self).fade == old(self).fade,
            final(self).wf(),
            final(self).outputs == old(self).outputs,
            final(self).registry.order() == old(self).registry.order().push(id),
            final(self).context_menu == match old(self).context_menu {
                Some(cm) => Some(ContextMenu { open: false, ..cm }),
                None => None,
            },
            final(self).registry@ == old(self).registry@.insert(
                id,
                match target {
                    Some(o) => Surface::Top(o, bar(anchor)),
                    None => Surface::Top(OutputId(SENTINEL_OUTPUT), bar(Anchor { bits: ANCHOR_TOP })),
                },
            ),
            match target {
                Some(o) => {
                    &&& r.0@ == bar_spec(bar(anchor)@, OutputTarget::GlobalName(o.0))
                    &&& r.1 == exists|w: WindowId| #[trigger] is_top_on(old(self).registry@, w, o)
                        && old(self).registry@[w]->Top_1@.anchor == anchor
                },
                None => {
                    &&& r.0@ == bar_spec(bar(Anchor { bits: ANCHOR_TOP })@, OutputTarget::Active)
                    &&& !r.1
                },
            },
    {
        self.close_context_menu();
        self.registry.add_top(target, anchor, id)
    }

    /// Handle a configuration message: a tick asks to check the file; a
    /// reloaded configuration replaces the live one; a patch is applied to
    /// the live one and must be saved.
    pub fn config_event(&mut self, ev: ConfigEvent) -> (r: ConfigAction)
        ensures
            final(self).selection == old(self).selection,
            final(self).fade == old(self).fade,
            final(self).registry == old(self).registry,
            final(self).outputs == old(self).outputs,
            final(self).context_menu == old(self).context_menu,
            final(self).config_watch == old(self).config_watch,
            match ev {
                ConfigEvent::ConfigTick => r == ConfigAction::CheckFile && final(self).config == old(self).config,
                ConfigEvent::ConfigReloaded(cfg) => r == ConfigAction::Redraw && final(self).config == cfg,
                ConfigEvent::Patch(p) => r == ConfigAction::SaveAndRedraw && final(self).config == old(self).config.patched(p),
            },
    {
        match ev {
            ConfigEvent::ConfigTick => ConfigAction::CheckFile,
            ConfigEvent::ConfigReloaded(cfg) => {
                self.config = cfg;
                ConfigAction::Redraw
            },
            ConfigEvent::Patch(p) => {
                self.config.apply(p);
                ConfigAction::SaveAndRedraw
            },
        }
    }
}

/// A release ends any selection: afterwards nothing is selecting, and a
/// selection that was in progress has lost its start point and size. A
/// second release changes nothing.
pub proof fn lemma_release_ends_selection(s: SelectionRect)
    ensures
        !s.after_reset().selecting,
        s.selecting ==> s.after_reset().start_point is None && s.after_reset().width.bits == 0
            && s.after_reset().height.bits == 0,
        s.after_reset().after_reset() == s.after_reset(),
{
}

/// Removing an output undoes adding it: an output that had no windows gets
/// a Background and a top bar when it appears, and when it goes away
/// exactly those two windows are closed and the registry is as before
/// (bars opened before any output was known are closed on the way and do
/// not come back, so the registry here has none).
pub proof fn lemma_output_removed_undoes_added(
    m: Map<WindowId, Surface>,
    o: OutputId,
    id: WindowId,
    bar_id: WindowId,
)
    requires
        !m.contains_key(id),
        !m.contains_key(bar_id),
        id != bar_id,
        !has_background(m, o),
        forall|w: WindowId| !is_top_on(m, w, o),
        forall|w: WindowId| !is_top_on(m, w, OutputId(SENTINEL_OUTPUT)),
    ensures
        without_sentinels(m) == m,
        !has_bar_at(with_background(m, true, id, o), o, Anchor { bits: ANCHOR_TOP }),
        ({
            let added = with_background(m, true, id, o).insert(
                bar_id,
                Surface::Top(o, bar(Anchor { bits: ANCHOR_TOP })),
            );
            let gone = Set::new(|w: WindowId| is_background_of(added, w, o) || is_top_on(added, w, o));
            &&& gone == Set::<WindowId>::empty().insert(id).insert(bar_id)
            &&& added.remove_keys(gone) == m
        }),
{
    assert(without_sentinels(m) =~= m);
    let bg = m.insert(id, Surface::Background(o));
    assert forall|w: WindowId| !is_top_on(bg, w, o) by {
        if w != id {
            assert(!is_top_on(m, w, o));
        }
    }
    let added = bg.insert(bar_id, Surface::Top(o, bar(Anchor { bits: ANCHOR_TOP })));
    let gone = Set::new(|w: WindowId| is_background_of(added, w, o) || is_top_on(added, w, o));
    assert forall|w: WindowId| gone.contains(w) <==> (w == id || w == bar_id) by {
        if w != id && w != bar_id && is_background_of(added, w, o) {
            assert(is_background_of(m, w, o));
        }
        if w != id && w != bar_id && is_top_on(added, w, o) {
            assert(is_top_on(m, w, o));
        }
        if w == id {
            assert(is_background_of(added, w, o));
        }
        if w == bar_id {
            assert(is_top_on(added, w, o));
        }
    }
    assert(gone =~= Set::<WindowId>::empty().insert(id).insert(bar_id));
    assert(added.remove_keys(gone) =~= m);
}

/// The Settings toggle undoes itself: with no Settings window open, the
/// first toggle opens one and the second closes it, leaving the registry as
/// it was.
pub proof fn lemma_settings_toggle_twice(m: Map<WindowId, Surface>, id: WindowId)
    requires
        !m.contains_key(id),
        !settings_open(m),
    ensures
        ({
            let opened = m.insert(id, Surface::Setting);
            &&& settings_open(opened)
            &&& Set::new(|w: WindowId| is_setting(opened, w)) == Set::<WindowId>::empty().insert(id)
            &&& opened.remove_keys(Set::new(|w: WindowId| is_setting(opened, w))) == m
        }),
{
    let opened = m.insert(id, Surface::Setting);
    assert(is_setting(opened, id));
    assert forall|w: WindowId| is_setting(opened, w) <==> w == id by {
        if w != id && is_setting(opened, w) {
            assert(is_setting(m, w));
        }
    }
    assert(Set::new(|w: WindowId| is_setting(opened, w)) =~= Set::<WindowId>::empty().insert(id));
    assert(opened.remove_keys(Set::new(|w: WindowId| is_setting(opened, w))) =~= m);
}

/// On an output without bars the Background area is the whole output.
pub proof fn lemma_no_bars_full_area(
    m: Map<WindowId, Surface>,
    order: Seq<WindowId>,
    outs: Map<u64, OutputGeometry>,
    o: OutputId,
)
    requires
        outs.contains_key(output_key(o)),
        spec_output_rect(outs[output_key(o)]).width >= 0,
        spec_output_rect(outs[output_key(o)]).height >= 0,
        forall|w: WindowId| !is_top_on(m, w, o),
        forall|i: int| 0 <= i < order.len() ==> m.contains_key(#[trigger] order[i]),
    ensures
        spec_available_rect(m, order, outs, o) == Some(spec_output_rect(outs[output_key(o)])),
{
    lemma_no_bars_no_insets(m, order, o, Edge::Left);
    lemma_no_bars_no_insets(m, order, o, Edge::Right);
    lemma_no_bars_no_insets(m, order, o, Edge::Top);
    lemma_no_bars_no_insets(m, order, o, Edge::Bottom);
}

} // verus!
