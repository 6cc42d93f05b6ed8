//! The window registry: every surface the daemon owns, by window id.
//!
//! One table row per window holds what the daemon knows of it. The per-kind
//! views the shell works with (ids, bars, settings windows, the Background
//! of each output) are projections of that table, so they always agree.

use vstd::prelude::*;
use crate::geometry::{
    Anchor, LayerSpec, OutputId, OutputTarget, WindowId, ANCHOR_BOTTOM, ANCHOR_LEFT, ANCHOR_RIGHT,
    ANCHOR_TOP,
};
use crate::layers::{
    background_spec, bar_spec, settings_title, Background, BaseWindowSpec, Setting, Top, TopView,
    BAR_THICKNESS,
};
use crate::table::Table;

verus! {

/// Output id of bars opened before any output was known (opened on the
/// active output, replaced once outputs are reported).
pub const SENTINEL_OUTPUT: u32 = 0xFFFF_FFFF;

/// What the daemon tracks for a window it owns.
#[derive(Debug, Clone, Copy)]
pub enum Surface {
    /// The Settings toplevel.
    Setting,
    /// The fullscreen Background of an output.
    Background(OutputId),
    /// A bar on an output.
    Top(OutputId, Top),
}

/// What kind of window an id is.
#[derive(Debug, Clone, Copy, PartialEq, Eq, Hash, Structural)]
pub enum PlotInfo {
    Setting,
    Background(OutputId),
    Top(OutputId),
}

pub open spec fn info_of(s: Surface) -> PlotInfo {
    match s {
        Surface::Setting => PlotInfo::Setting,
        Surface::Background(o) => PlotInfo::Background(o),
        Surface::Top(o, _) => PlotInfo::Top(o),
    }
}

/// Window `w` is the Background of output `o`.
pub open spec fn is_background_of(m: Map<WindowId, Surface>, w: WindowId, o: OutputId) -> bool {
    m.contains_key(w) && m[w] == Surface::Background(o)
}

/// Output `o` has a Background window.
pub open spec fn has_background(m: Map<WindowId, Surface>, o: OutputId) -> bool {
    exists|w: WindowId| is_background_of(m, w, o)
}

/// Window `w` is a bar on output `o`.
pub open spec fn is_top_on(m: Map<WindowId, Surface>, w: WindowId, o: OutputId) -> bool {
    m.contains_key(w) && match m[w] {
        Surface::Top(o2, _) => o2 == o,
        _ => false,
    }
}

/// Window `w` is a Settings window.
pub open spec fn is_setting(m: Map<WindowId, Surface>, w: WindowId) -> bool {
    m.contains_key(w) && m[w] is Setting
}

/// Some Settings window is open.
pub open spec fn settings_open(m: Map<WindowId, Surface>) -> bool {
    exists|w: WindowId| is_setting(m, w)
}

/// An output has at most one Background window.
pub open spec fn one_background_per_output(m: Map<WindowId, Surface>) -> bool {
    forall|w1: WindowId, w2: WindowId, o: OutputId|
        is_background_of(m, w1, o) && is_background_of(m, w2, o) ==> w1 == w2
}

/// Every bar has the standard thickness.
pub open spec fn bars_standard(m: Map<WindowId, Surface>) -> bool {
    forall|w: WindowId| #[trigger] m.contains_key(w) && m[w] is Top ==> m[w]->Top_1@.thickness == BAR_THICKNESS
}

/// Which rows a scan collects.
#[derive(Debug, Clone, Copy, PartialEq, Eq, Structural)]
pub enum Selector {
    /// The bars on an output.
    TopsOn(OutputId),
    /// The Settings windows.
    Settings,
}

pub open spec fn selects(m: Map<WindowId, Surface>, sel: Selector, w: WindowId) -> bool {
    match sel {
        Selector::TopsOn(o) => is_top_on(m, w, o),
        Selector::Settings => is_setting(m, w),
    }
}

/// The bar the daemon opens for `anchor`.
pub open spec fn bar(anchor: Anchor) -> Top {
    Top::from_view(TopView { thickness: BAR_THICKNESS, anchor })
}

/// The edge of an output whose space a bar reserves.
#[derive(Debug, Clone, Copy, PartialEq, Eq, Structural)]
pub enum Edge {
    Left,
    Right,
    Top,
    Bottom,
}

/// A bar anchored exactly left, right or bottom reserves that edge; the top
/// anchor and any other or combined anchor reserve the top edge.
pub open spec fn edge_of(a: Anchor) -> Edge {
    if a.bits == ANCHOR_LEFT {
        Edge::Left
    } else if a.bits == ANCHOR_RIGHT {
        Edge::Right
    } else if a.bits == ANCHOR_BOTTOM {
        Edge::Bottom
    } else {
        Edge::Top
    }
}

/// What surface `s` reserves on edge `e` of output `o`.
pub open spec fn reserved(s: Surface, o: OutputId, e: Edge) -> nat {
    match s {
        Surface::Top(o2, t) => if o2 == o && edge_of(t@.anchor) == e {
            t@.thickness as nat
        } else {
            0
        },
        _ => 0,
    }
}

/// Space reserved on edge `e` of output `o` by the windows `keys` of `m`.
pub open spec fn edge_inset(m: Map<WindowId, Surface>, keys: Seq<WindowId>, o: OutputId, e: Edge) -> nat
    decreases keys.len(),
{
    if keys.len() == 0 {
        0
    } else {
        edge_inset(m, keys.drop_last(), o, e) + reserved(m[keys.last()], o, e)
    }
}

/// Space reserved on each edge of an output by its bars, in logical pixels.
#[derive(Debug, Clone, Copy, PartialEq, Eq, Structural)]
pub struct Insets {
    pub left: u128,
    pub right: u128,
    pub top: u128,
    pub bottom: u128,
}

/// An upper bound on the space `keys` can reserve on one edge.
pub proof fn lemma_edge_inset_bound(m: Map<WindowId, Surface>, keys: Seq<WindowId>, o: OutputId, e: Edge)
    ensures
        edge_inset(m, keys, o, e) <= keys.len() * 0xFFFF_FFFF,
    decreases keys.len(),
{
    if keys.len() > 0 {
        lemma_edge_inset_bound(m, keys.drop_last(), o, e);
        match m[keys.last()] {
            Surface::Top(o2, t) => {
                assert(t@.thickness <= 0xFFFF_FFFF);
            },
            _ => {},
        }
    }
}

/// Every surface the daemon owns, by window id.
pub struct Registry {
    table: Table<Surface>,
}

impl View for Registry {
    type V = Map<WindowId, Surface>;

    closed spec fn view(&self) -> Map<WindowId, Surface> {
        self.table@
    }
}

impl Registry {
    /// The window ids in the order they were registered (later removals keep
    /// the relative order of the rest).
    pub closed spec fn order(&self) -> Seq<WindowId> {
        self.table.order()
    }

    pub closed spec fn wf(&self) -> bool {
        &&& self.table.wf()
        &&& one_background_per_output(self.table@)
        &&& bars_standard(self.table@)
    }

    /// What a well-formed registry's order says of its windows.
    pub proof fn lemma_order(&self)
        requires
            self.wf(),
        ensures
            self.order().no_duplicates(),
            forall|w: WindowId| #[trigger] self@.contains_key(w) <==> self.order().contains(w),
            one_background_per_output(self@),
            bars_standard(self@),
    {
        self.table.lemma_order();
    }

    pub fn new() -> (r: Self)
        ensures
            r.wf(),
            r@ == Map::<WindowId, Surface>::empty(),
            r.order() == Seq::<WindowId>::empty(),
    {
        Registry { table: Table::new() }
    }

    /// Number of windows.
    pub fn len(&self) -> (n: usize)
        ensures
            n == self.order().len(),
    {
        self.table.len()
    }

    /// The `i`-th window id in registry order.
    pub fn key_at(&self, i: usize) -> (w: WindowId)
        requires
            i < self.order().len(),
        ensures
            w == self.order()[i as int],
    {
        self.table.key_at(i)
    }

    /// What the daemon tracks for window `id`.
    pub fn get(&self, id: WindowId) -> (r: Option<Surface>)
        requires
            self.wf(),
        ensures
            r == (if self@.contains_key(id) {
                Some(self@[id])
            } else {
                None
            }),
    {
        self.table.get(id)
    }

    /// What kind of window `id` is, if the daemon owns it.
    pub fn id_info(&self, id: WindowId) -> (r: Option<PlotInfo>)
        requires
            self.wf(),
        ensures
            r == (if self@.contains_key(id) {
                Some(info_of(self@[id]))
            } else {
                None
            }),
    {
        match self.table.get(id) {
            Some(Surface::Setting) => Some(PlotInfo::Setting),
            Some(Surface::Background(o)) => Some(PlotInfo::Background(o)),
            Some(Surface::Top(o, _)) => Some(PlotInfo::Top(o)),
            None => None,
        }
    }

    /// The bar with window id `id`, if it is one.
    pub fn top(&self, id: WindowId) -> (r: Option<Top>)
        requires
            self.wf(),
        ensures
            r == (if self@.contains_key(id) && self@[id] is Top {
                Some(self@[id]->Top_1)
            } else {
                None
            }),
    {
        match self.table.get(id) {
            Some(Surface::Top(_, t)) => Some(t),
            _ => None,
        }
    }

    /// The title of window `id`: the Settings title for a Settings window.
    pub fn title(&self, id: WindowId) -> (r: Option<String>)
        requires
            self.wf(),
        ensures
            match r {
                Some(t) => is_setting(self@, id) && t@ == settings_title(),
                None => !is_setting(self@, id),
            },
    {
        match self.table.get(id) {
            Some(Surface::Setting) => Some(Setting::title()),
            _ => None,
        }
    }

    /// The Background window of output `o`, if it has one.
    pub fn background_of(&self, o: OutputId) -> (r: Option<WindowId>)
        requires
            self.wf(),
        ensures
            match r {
                Some(w) => is_background_of(self@, w, o),
                None => !has_background(self@, o),
            },
    {
        proof {
            self.table.lemma_order();
        }
        let n = self.table.len();
        let mut i: usize = 0;
        while i < n
            invariant
                self.wf(),
                n == self.order().len(),
                i <= n,
                forall|j: int| 0 <= j < i ==> !is_background_of(self@, #[trigger] self.order()[j], o),
                forall|w: WindowId| #[trigger] self@.contains_key(w) <==> self.order().contains(w),
            decreases n - i,
        {
            let k = self.table.key_at(i);
            proof {
                assert(self.order().contains(k));
            }
            match self.table.get(k) {
                Some(Surface::Background(o2)) => {
                    if o2.0 == o.0 {
                        return Some(k);
                    }
                },
                _ => {},
            }
            i = i + 1;
        }
        proof {
            assert forall|w: WindowId| !is_background_of(self@, w, o) by {
                if self@.contains_key(w) {
                    let j = choose|j: int| 0 <= j < self.order().len() && self.order()[j] == w;
                    assert(!is_background_of(self@, self.order()[j], o));
                }
            }
        }
        None
    }

    /// The rows `sel` selects, in table order.
    pub fn select(&self, sel: Selector) -> (r: Vec<WindowId>)
        requires
            self.wf(),
        ensures
            r@.no_duplicates(),
            forall|w: WindowId| #[trigger] r@.contains(w) <==> selects(self@, sel, w),
    {
        proof {
            self.table.lemma_order();
        }
        let n = self.table.len();
        let mut r: Vec<WindowId> = Vec::new();
        let mut i: usize = 0;
        while i < n
            invariant
                self.wf(),
                n == self.order().len(),
                i <= n,
                self.order().no_duplicates(),
                forall|w: WindowId| #[trigger] self@.contains_key(w) <==> self.order().contains(w),
                r@.no_duplicates(),
                forall|w: WindowId|
                    #[trigger] r@.contains(w) <==> (exists|j: int|
                        0 <= j < i && self.order()[j] == w) && selects(self@, sel, w),
            decreases n - i,
        {
            let k = self.table.key_at(i);
            proof {
                assert(self.order().contains(k));
            }
            let s = self.table.get(k);
            let pick = match (s, sel) {
                (Some(Surface::Top(o2, _)), Selector::TopsOn(o)) => o2.0 == o.0,
                (Some(Surface::Setting), Selector::Settings) => true,
                _ => false,
            };
            proof {
                assert(pick == selects(self@, sel, k));
            }
            let ghost old_r = r@;
            if pick {
                proof {
                    assert(!old_r.contains(k)) by {
                        if old_r.contains(k) {
                            let j = choose|j: int| 0 <= j < i && self.order()[j] == k;
                            assert(self.order()[j] == self.order()[i as int]);
                        }
                    }
                }
                r.push(k);
                proof {
                    assert forall|a: int, b: int|
                        0 <= a < r@.len() && 0 <= b < r@.len() && a != b implies r@[a] != r@[b] by {
                        if a < old_r.len() && b < old_r.len() {
                            assert(old_r[a] != old_r[b]);
                        } else if a < old_r.len() {
                            assert(old_r.contains(old_r[a]));
                        } else if b < old_r.len() {
                            assert(old_r.contains(old_r[b]));
                        }
                    }
                }
            }
            proof {
                assert forall|w: WindowId| #[trigger] r@.contains(w) <==> (exists|j: int|
                    0 <= j < i + 1 && self.order()[j] == w) && selects(self@, sel, w) by {
                    if r@.contains(w) {
                        if pick && w == k {
                            assert(self.order()[i as int] == w);
                        } else {
                            assert(old_r.contains(w)) by {
                                if pick {
                                    let a = choose|a: int| 0 <= a < r@.len() && r@[a] == w;
                                    assert(a < old_r.len());
                                    assert(old_r[a] == w);
                                }
                            }
                        }
                    }
                    if (exists|j: int| 0 <= j < i + 1 && self.order()[j] == w) && selects(
                        self@,
                        sel,
                        w,
                    ) {
                        let j = choose|j: int| 0 <= j < i + 1 && self.order()[j] == w;
                        if j == i {
                            assert(pick);
                            assert(r@[r@.len() - 1] == w);
                        } else {
                            assert(old_r.contains(w));
                            let a = choose|a: int| 0 <= a < old_r.len() && old_r[a] == w;
                            assert(r@[a] == w);
                        }
                    }
                }
            }
            i = i + 1;
        }
        proof {
            assert forall|w: WindowId| #[trigger] r@.contains(w) <==> selects(self@, sel, w) by {
                if selects(self@, sel, w) {
                    assert(self.order().contains(w));
                    let j = choose|j: int| 0 <= j < self.order().len() && self.order()[j] == w;
                    assert(0 <= j < n && self.order()[j] == w);
                }
            }
        }
        r
    }

    /// Remove the windows `ids` lists.
    fn remove_all(&mut self, ids: &Vec<WindowId>)
        requires
            old(self).wf(),
        ensures
            final(self).wf(),
            final(self)@ == old(self)@.remove_keys(Set::new(|w: WindowId| ids@.contains(w))),
    {
        let mut j: usize = 0;
        while j < ids.len()
            invariant
                self.wf(),
                j <= ids@.len(),
                self@ == old(self)@.remove_keys(Set::new(|w: WindowId| ids@.take(j as int).contains(w))),
            decreases ids@.len() - j,
        {
            let ghost before = self@;
            self.table.remove(ids[j]);
            proof {
                let t0 = ids@.take(j as int);
                let t1 = ids@.take(j + 1);
                assert forall|w: WindowId| t1.contains(w) <==> t0.contains(w) || w == ids@[j as int] by {
                    if t1.contains(w) {
                        let a = choose|a: int| 0 <= a < t1.len() && #[trigger] t1[a] == w;
                        if a < j {
                            assert(t0[a] == w);
                            assert(t0.contains(w));
                        } else {
                            assert(t1[a] == ids@[j as int]);
                        }
                    }
                    if t0.contains(w) {
                        let a = choose|a: int| 0 <= a < t0.len() && #[trigger] t0[a] == w;
                        assert(t1[a] == w);
                    }
                    if w == ids@[j as int] {
                        assert(t1[j as int] == w);
                    }
                }
                assert(self.table@ =~= old(self)@.remove_keys(Set::new(|w: WindowId| ids@.take(j + 1).contains(w))));
                assert forall|w1: WindowId, w2: WindowId, o: OutputId|
                    is_background_of(self.table@, w1, o) && is_background_of(
                        self.table@,
                        w2,
                        o,
                    ) implies w1 == w2 by {
                    assert(is_background_of(before, w1, o));
                    assert(is_background_of(before, w2, o));
                }
            }
            j = j + 1;
        }
        proof {
            assert(ids@.take(ids@.len() as int) =~= ids@);
        }
    }

    /// Remove the rows `sel` selects, returning their ids (in table order).
    pub fn take_selected(&mut self, sel: Selector) -> (r: Vec<WindowId>)
        requires
            old(self).wf(),
        ensures
            final(self).wf(),
            r@.no_duplicates(),
            forall|w: WindowId| #[trigger] r@.contains(w) <==> selects(old(self)@, sel, w),
            final(self)@ == old(self)@.remove_keys(
                Set::new(|w: WindowId| selects(old(self)@, sel, w)),
            ),
    {
        let r = self.select(sel);
        self.remove_all(&r);
        proof {
            assert(Set::new(|w: WindowId| r@.contains(w)) =~= Set::new(|w: WindowId| selects(old(self)@, sel, w)));
        }
        r
    }

    /// Ensure a fullscreen Background exists for `output`. When the output
    /// has none, window `id` becomes it and its surface is returned;
    /// otherwise nothing changes.
    pub fn ensure_background(&mut self, output: OutputId, id: WindowId) -> (r: Option<LayerSpec>)
        requires
            old(self).wf(),
            !old(self)@.contains_key(id),
        ensures
            final(self).wf(),
            match r {
                Some(spec) => {
                    &&& !has_background(old(self)@, output)
                    &&& spec@ == background_spec(output.0)
                    &&& final(self)@ == old(self)@.insert(id, Surface::Background(output))
                    &&& final(self).order() == old(self).order().push(id)
                },
                None => has_background(old(self)@, output) && final(self)@ == old(self)@
                    && final(self).order() == old(self).order(),
            },
    {
        match self.background_of(output) {
            Some(_) => None,
            None => {
                let bg = Background;
                let spec = bg.open(output.0);
                let ghost before = self@;
                self.table.insert(id, Surface::Background(output));
                proof {
                    assert forall|w1: WindowId, w2: WindowId, o: OutputId|
                        is_background_of(self.table@, w1, o) && is_background_of(
                            self.table@,
                            w2,
                            o,
                        ) implies w1 == w2 by {
                        if w1 != id && w2 != id {
                            assert(is_background_of(before, w1, o));
                            assert(is_background_of(before, w2, o));
                        } else if w1 != id {
                            assert(is_background_of(before, w1, o));
                        } else if w2 != id {
                            assert(is_background_of(before, w2, o));
                        }
                    }
                }
                Some(spec)
            },
        }
    }

    /// Remove the Background of `output`, returning its window id if it had one.
    pub fn remove_background(&mut self, output: OutputId) -> (r: Option<WindowId>)
        requires
            old(self).wf(),
        ensures
            final(self).wf(),
            match r {
                Some(w) => is_background_of(old(self)@, w, output) && final(self)@ == old(self)@.remove(w),
                None => !has_background(old(self)@, output) && final(self)@ == old(self)@,
            },
    {
        match self.background_of(output) {
            Some(w) => {
                let ghost before = self@;
                self.table.remove(w);
                proof {
                    assert forall|w1: WindowId, w2: WindowId, o: OutputId|
                        is_background_of(self.table@, w1, o) && is_background_of(
                            self.table@,
                            w2,
                            o,
                        ) implies w1 == w2 by {
                        assert(is_background_of(before, w1, o));
                        assert(is_background_of(before, w2, o));
                    }
                }
                Some(w)
            },
            None => None,
        }
    }

    /// Remove the bars opened before any output was known, returning their ids.
    pub fn cleanup_sentinels(&mut self) -> (r: Vec<WindowId>)
        requires
            old(self).wf(),
        ensures
            final(self).wf(),
            r@.no_duplicates(),
            forall|w: WindowId| #[trigger] r@.contains(w) <==> is_top_on(old(self)@, w, OutputId(SENTINEL_OUTPUT)),
            final(self)@ == old(self)@.remove_keys(
                Set::new(|w: WindowId| is_top_on(old(self)@, w, OutputId(SENTINEL_OUTPUT))),
            ),
    {
        let r = self.take_selected(Selector::TopsOn(OutputId(SENTINEL_OUTPUT)));
        proof {
            assert(Set::new(|w: WindowId| selects(old(self)@, Selector::TopsOn(OutputId(SENTINEL_OUTPUT)), w))
                =~= Set::new(|w: WindowId| is_top_on(old(self)@, w, OutputId(SENTINEL_OUTPUT))));
        }
        r
    }

    /// Remove all bars on `output`, returning their ids.
    pub fn remove_tops_for_output(&mut self, output: OutputId) -> (r: Vec<WindowId>)
        requires
            old(self).wf(),
        ensures
            final(self).wf(),
            r@.no_duplicates(),
            forall|w: WindowId| #[trigger] r@.contains(w) <==> is_top_on(old(self)@, w, output),
            final(self)@ == old(self)@.remove_keys(
                Set::new(|w: WindowId| is_top_on(old(self)@, w, output)),
            ),
    {
        let r = self.take_selected(Selector::TopsOn(output));
        proof {
            assert(Set::new(|w: WindowId| selects(old(self)@, Selector::TopsOn(output), w))
                =~= Set::new(|w: WindowId| is_top_on(old(self)@, w, output)));
        }
        r
    }

    /// Whether `output` already has a bar anchored at `anchor`.
    pub fn has_bar_at(&self, output: OutputId, anchor: Anchor) -> (r: bool)
        requires
            self.wf(),
        ensures
            r == exists|w: WindowId| #[trigger] is_top_on(self@, w, output)
                && self@[w]->Top_1@.anchor == anchor,
    {
        let tops = self.select(Selector::TopsOn(output));
        let mut j: usize = 0;
        while j < tops.len()
            invariant
                self.wf(),
                j <= tops@.len(),
                forall|w: WindowId| #[trigger] tops@.contains(w) <==> selects(self@, Selector::TopsOn(output), w),
                forall|a: int| 0 <= a < j ==> self@[#[trigger] tops@[a]]->Top_1@.anchor != anchor,
            decreases tops@.len() - j,
        {
            let w = tops[j];
            proof {
                assert(tops@.contains(w));
            }
            match self.top(w) {
                Some(t) => {
                    if t.anchor().bits == anchor.bits {
                        return true;
                    }
                },
                None => {},
            }
            j = j + 1;
        }
        proof {
            assert forall|w: WindowId| #[trigger] is_top_on(self@, w, output) implies self@[w]->Top_1@.anchor != anchor by {
                assert(tops@.contains(w));
                let a = choose|a: int| 0 <= a < tops@.len() && tops@[a] == w;
                assert(self@[tops@[a]]->Top_1@.anchor != anchor);
            }
        }
        false
    }

    /// Register window `id` as a new bar. With a target output the bar sits
    /// at `anchor` on it; without one a top-edge bar opens on the active
    /// output under the sentinel output id. Returns the bar's surface and
    /// whether the target output already had a bar at that anchor (another
    /// one is opened regardless).
    pub fn add_top(&mut self, target: Option<OutputId>, anchor: Anchor, id: WindowId) -> (r: (LayerSpec, bool))
        requires
            old(self).wf(),
            !old(self)@.contains_key(id),
        ensures
            final(self).wf(),
            final(self).order() == old(self).order().push(id),
            match target {
                Some(o) => {
                    &&& final(self)@ == old(self)@.insert(id, Surface::Top(o, bar(anchor)))
                    &&& r.0@ == bar_spec(bar(anchor)@, OutputTarget::GlobalName(o.0))
                    &&& r.1 == exists|w: WindowId| #[trigger] is_top_on(old(self)@, w, o)
                        && old(self)@[w]->Top_1@.anchor == anchor
                },
                None => {
                    &&& final(self)@ == old(self)@.insert(
                        id,
                        Surface::Top(OutputId(SENTINEL_OUTPUT), bar(Anchor { bits: ANCHOR_TOP })),
                    )
                    &&& r.0@ == bar_spec(bar(Anchor { bits: ANCHOR_TOP })@, OutputTarget::Active)
                    &&& !r.1
                },
            },
    {
        proof {
            self.table.lemma_order();
        }
        let ghost before = self@;
        match target {
            Some(o) => {
                let duplicate = self.has_bar_at(o, anchor);
                let top = Top::with_anchor(anchor);
                let spec = top.open(o.0);
                self.table.insert(id, Surface::Top(o, top));
                proof {
                    Top::lemma_view(top@, top);
                    assert forall|w1: WindowId, w2: WindowId, q: OutputId|
                        is_background_of(self.table@, w1, q) && is_background_of(
                            self.table@,
                            w2,
                            q,
                        ) implies w1 == w2 by {
                        assert(is_background_of(before, w1, q));
                        assert(is_background_of(before, w2, q));
                    }
                }
                (spec, duplicate)
            },
            None => {
                let top = Top::new();
                let spec = top.open_active();
                self.table.insert(id, Surface::Top(OutputId(SENTINEL_OUTPUT), top));
                proof {
                    Top::lemma_view(top@, top);
                    assert forall|w1: WindowId, w2: WindowId, q: OutputId|
                        is_background_of(self.table@, w1, q) && is_background_of(
                            self.table@,
                            w2,
                            q,
                        ) implies w1 == w2 by {
                        assert(is_background_of(before, w1, q));
                        assert(is_background_of(before, w2, q));
                    }
                }
                (spec, false)
            },
        }
    }

    /// Register window `id` as a new Settings window, returning what to open.
    pub fn add_setting(&mut self, id: WindowId) -> (r: BaseWindowSpec)
        requires
            old(self).wf(),
            !old(self)@.contains_key(id),
        ensures
            final(self).wf(),
            final(self).order() == old(self).order().push(id),
            final(self)@ == old(self)@.insert(id, Surface::Setting),
            r.client_side_decorations,
    {
        proof {
            self.table.lemma_order();
        }
        let ghost before = self@;
        let setting = Setting;
        let spec = setting.open();
        self.table.insert(id, Surface::Setting);
        proof {
            assert forall|w1: WindowId, w2: WindowId, q: OutputId|
                is_background_of(self.table@, w1, q) && is_background_of(
                    self.table@,
                    w2,
                    q,
                ) implies w1 == w2 by {
                assert(is_background_of(before, w1, q));
                assert(is_background_of(before, w2, q));
            }
        }
        spec
    }

    /// Whether some Settings window is open.
    pub fn has_settings(&self) -> (r: bool)
        requires
            self.wf(),
        ensures
            r == settings_open(self@),
    {
        let s = self.select(Selector::Settings);
        proof {
            if settings_open(self@) {
                let w = choose|w: WindowId| is_setting(self@, w);
                assert(s@.contains(w));
            }
            if s@.len() > 0 {
                assert(s@.contains(s@[0]));
            }
        }
        s.len() > 0
    }

    /// Stop tracking all Settings windows, returning their ids.
    pub fn close_all_settings(&mut self) -> (r: Vec<WindowId>)
        requires
            old(self).wf(),
        ensures
            final(self).wf(),
            r@.no_duplicates(),
            forall|w: WindowId| #[trigger] r@.contains(w) <==> is_setting(old(self)@, w),
            final(self)@ == old(self)@.remove_keys(Set::new(|w: WindowId| is_setting(old(self)@, w))),
    {
        let r = self.take_selected(Selector::Settings);
        proof {
            assert(Set::new(|w: WindowId| selects(old(self)@, Selector::Settings, w)) =~= Set::new(
                |w: WindowId| is_setting(old(self)@, w),
            ));
        }
        r
    }

    /// Forget window `id`, whatever it was.
    pub fn uproot(&mut self, id: WindowId) -> (r: Option<PlotInfo>)
        requires
            old(self).wf(),
        ensures
            final(self).wf(),
            final(self)@ == old(self)@.remove(id),
            r == (if old(self)@.contains_key(id) {
                Some(info_of(old(self)@[id]))
            } else {
                None
            }),
    {
        let ghost before = self@;
        let r = self.id_info(id);
        self.table.remove(id);
        proof {
            assert forall|w1: WindowId, w2: WindowId, q: OutputId|
                is_background_of(self.table@, w1, q) && is_background_of(
                    self.table@,
                    w2,
                    q,
                ) implies w1 == w2 by {
                assert(is_background_of(before, w1, q));
                assert(is_background_of(before, w2, q));
            }
        }
        r
    }
}

/// A bar added on output `o` reserves its thickness on its own edge of `o`
/// and nothing anywhere else.
pub proof fn lemma_new_bar_reserves_its_edge(
    m: Map<WindowId, Surface>,
    keys: Seq<WindowId>,
    id: WindowId,
    o: OutputId,
    t: Top,
    q: OutputId,
    e: Edge,
)
    requires
        !keys.contains(id),
    ensures
        edge_inset(m.insert(id, Surface::Top(o, t)), keys.push(id), q, e) == edge_inset(m, keys, q, e)
            + (if q == o && edge_of(t@.anchor) == e {
            t@.thickness as nat
        } else {
            0
        }),
{
    let m2 = m.insert(id, Surface::Top(o, t));
    assert(keys.push(id).drop_last() =~= keys);
    lemma_inset_ignores_other_rows(m, m2, keys, q, e);
}

/// The space `keys` reserve depends only on their own rows.
pub proof fn lemma_inset_ignores_other_rows(
    m1: Map<WindowId, Surface>,
    m2: Map<WindowId, Surface>,
    keys: Seq<WindowId>,
    q: OutputId,
    e: Edge,
)
    requires
        forall|i: int| 0 <= i < keys.len() ==> m1[keys[i]] == m2[#[trigger] keys[i]],
    ensures
        edge_inset(m1, keys, q, e) == edge_inset(m2, keys, q, e),
    decreases keys.len(),
{
    if keys.len() > 0 {
        assert(m1[keys[keys.len() - 1]] == m2[keys[keys.len() - 1]]);
        lemma_inset_ignores_other_rows(m1, m2, keys.drop_last(), q, e);
    }
}

/// Taking one window out of a duplicate-free listing takes exactly its own
/// reservation out of the sum.
pub proof fn lemma_inset_without(m: Map<WindowId, Surface>, keys: Seq<WindowId>, i: int, q: OutputId, e: Edge)
    requires
        0 <= i < keys.len(),
    ensures
        edge_inset(m, keys, q, e) == edge_inset(m, keys.remove(i), q, e) + reserved(m[keys[i]], q, e),
    decreases keys.len(),
{
    if i == keys.len() - 1 {
        assert(keys.remove(i) =~= keys.drop_last());
    } else {
        let rest = keys.drop_last();
        lemma_inset_without(m, rest, i, q, e);
        assert(rest.remove(i) =~= keys.remove(i).drop_last());
        assert(keys.remove(i).last() == keys.last());
    }
}

/// The space reserved on an edge depends only on which windows are listed,
/// not on the order they are listed in.
pub proof fn lemma_inset_order_free(
    m: Map<WindowId, Surface>,
    s1: Seq<WindowId>,
    s2: Seq<WindowId>,
    q: OutputId,
    e: Edge,
)
    requires
        s1.no_duplicates(),
        s2.no_duplicates(),
        forall|w: WindowId| s1.contains(w) <==> s2.contains(w),
    ensures
        edge_inset(m, s1, q, e) == edge_inset(m, s2, q, e),
    decreases s1.len(),
{
    if s1.len() == 0 {
        if s2.len() > 0 {
            assert(s2.contains(s2[0]));
        }
    } else {
        let x = s1.last();
        assert(s1.contains(x));
        let j = choose|j: int| 0 <= j < s2.len() && s2[j] == x;
        lemma_inset_without(m, s2, j, q, e);
        let r1 = s1.drop_last();
        let r2 = s2.remove(j);
        assert forall|w: WindowId| r1.contains(w) <==> r2.contains(w) by {
            if r1.contains(w) {
                let a = choose|a: int| 0 <= a < r1.len() && r1[a] == w;
                assert(s1[a] == w && a != s1.len() - 1);
                assert(s1.contains(w));
                let b = choose|b: int| 0 <= b < s2.len() && s2[b] == w;
                assert(b != j);
                if b < j {
                    assert(r2[b] == w);
                } else {
                    assert(r2[b - 1] == w);
                }
            }
            if r2.contains(w) {
                let b = choose|b: int| 0 <= b < r2.len() && r2[b] == w;
                let b2 = if b < j { b } else { b + 1 };
                assert(s2[b2] == w && b2 != j);
                assert(s2.contains(w));
                let a = choose|a: int| 0 <= a < s1.len() && s1[a] == w;
                assert(a != s1.len() - 1);
                assert(r1[a] == w);
            }
        }
        assert(r2.no_duplicates()) by {
            assert forall|a: int, b: int| 0 <= a < r2.len() && 0 <= b < r2.len() && a != b implies r2[a] != r2[b] by {
                let a2 = if a < j { a } else { a + 1 };
                let b2 = if b < j { b } else { b + 1 };
                assert(s2[a2] == r2[a] && s2[b2] == r2[b]);
            }
        }
        lemma_inset_order_free(m, r1, r2, q, e);
    }
}

/// Closing a window gives back exactly the space it reserved: with the
/// windows of `m` listed in `s1` and those left after closing `id` listed
/// in `s2` (each once, in any order), the space on each edge drops by what
/// `id` reserved there (a bar's thickness on its own edge, else nothing).
pub proof fn lemma_closing_frees_its_space(
    m: Map<WindowId, Surface>,
    s1: Seq<WindowId>,
    s2: Seq<WindowId>,
    id: WindowId,
    q: OutputId,
    e: Edge,
)
    requires
        m.contains_key(id),
        s1.no_duplicates(),
        s2.no_duplicates(),
        forall|w: WindowId| #[trigger] m.contains_key(w) <==> s1.contains(w),
        forall|w: WindowId| #[trigger] m.remove(id).contains_key(w) <==> s2.contains(w),
    ensures
        edge_inset(m, s1, q, e) == edge_inset(m.remove(id), s2, q, e) + reserved(m[id], q, e),
{
    assert(s1.contains(id));
    let i = choose|i: int| 0 <= i < s1.len() && s1[i] == id;
    lemma_inset_without(m, s1, i, q, e);
    let r = s1.remove(i);
    assert forall|a: int| 0 <= a < r.len() implies m[r[a]] == m.remove(id)[#[trigger] r[a]] by {
        let a2 = if a < i { a } else { a + 1 };
        assert(s1[a2] == r[a] && a2 != i);
    }
    lemma_inset_ignores_other_rows(m, m.remove(id), r, q, e);
    assert(r.no_duplicates()) by {
        assert forall|a: int, b: int| 0 <= a < r.len() && 0 <= b < r.len() && a != b implies r[a] != r[b] by {
            let a2 = if a < i { a } else { a + 1 };
            let b2 = if b < i { b } else { b + 1 };
            assert(s1[a2] == r[a] && s1[b2] == r[b]);
        }
    }
    assert forall|w: WindowId| r.contains(w) <==> s2.contains(w) by {
        if r.contains(w) {
            let a = choose|a: int| 0 <= a < r.len() && r[a] == w;
            let a2 = if a < i { a } else { a + 1 };
            assert(s1[a2] == w && a2 != i);
            assert(s1.contains(w));
            assert(m.contains_key(w));
            assert(m.remove(id).contains_key(w));
        }
        if s2.contains(w) {
            assert(m.remove(id).contains_key(w));
            assert(m.contains_key(w));
            assert(s1.contains(w));
            let a = choose|a: int| 0 <= a < s1.len() && s1[a] == w;
            assert(a != i);
            if a < i {
                assert(r[a] == w);
            } else {
                assert(r[a - 1] == w);
            }
        }
    }
    lemma_inset_order_free(m.remove(id), r, s2, q, e);
}

/// An output without bars reserves nothing.
pub proof fn lemma_no_bars_no_insets(m: Map<WindowId, Surface>, keys: Seq<WindowId>, q: OutputId, e: Edge)
    requires
        forall|w: WindowId| !is_top_on(m, w, q),
        forall|i: int| 0 <= i < keys.len() ==> m.contains_key(#[trigger] keys[i]),
    ensures
        edge_inset(m, keys, q, e) == 0,
    decreases keys.len(),
{
    if keys.len() > 0 {
        assert(m.contains_key(keys[keys.len() - 1]));
        assert(!is_top_on(m, keys.last(), q));
        lemma_no_bars_no_insets(m, keys.drop_last(), q, e);
    }
}

} // verus!
