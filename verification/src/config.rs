//! The configuration model (`config.toml`), its defaults, runtime patches
//! and the hot-reload decision.
//!
//! Every configured value is a length in logical pixels. The library never
//! computes with these lengths; it stores, replaces and hands them on, so it
//! carries each one as the bit pattern of its single-precision value ([`Px`]).

use vstd::prelude::*;

verus! {

/// A length in logical pixels, carried as the bit pattern of its
/// single-precision floating-point value (`f32::to_bits`).
#[derive(Debug, Clone, Copy, PartialEq, Eq, Structural)]
pub struct Px {
    pub bits: u32,
}

/// Bit pattern of `0.0`.
pub const ZERO_BITS: u32 = 0x0000_0000;

/// Bit pattern of `180.0`, the default width of menus and context menus.
pub const DEFAULT_WIDTH_BITS: u32 = 0x4334_0000;

/// Bit pattern of `92.0`, the default menu height.
pub const DEFAULT_MENU_HEIGHT_BITS: u32 = 0x42B8_0000;

impl Px {
    /// The length `0.0`.
    pub fn zero() -> (r: Px)
        ensures
            r.bits == ZERO_BITS,
    {
        Px { bits: ZERO_BITS }
    }
}

/// Default width of `[composable.menu]` and `[composable.context_menu]`.
pub fn default_width() -> (r: Px)
    ensures
        r.bits == DEFAULT_WIDTH_BITS,
{
    Px { bits: DEFAULT_WIDTH_BITS }
}

/// Default height of `[composable.menu]`.
pub fn default_menu_height() -> (r: Px)
    ensures
        r.bits == DEFAULT_MENU_HEIGHT_BITS,
{
    Px { bits: DEFAULT_MENU_HEIGHT_BITS }
}

/// `[composable.context_menu]`.
#[derive(Debug, Clone, Copy, PartialEq, Eq, Structural)]
pub struct ContextMenuConfig {
    pub width: Px,
    pub padding: Px,
    pub spacing: Px,
    pub rounding: Px,
}

/// `[composable.menu]`.
#[derive(Debug, Clone, Copy, PartialEq, Eq, Structural)]
pub struct MenuConfig {
    pub width: Px,
    pub height: Px,
    pub padding: Px,
    pub spacing: Px,
    pub rounding: Px,
}

/// `[composable.panel]`: style keys only, geometry is positional.
#[derive(Debug, Clone, Copy, PartialEq, Eq, Structural)]
pub struct PanelConfig {
    pub padding: Px,
    pub spacing: Px,
    pub rounding: Px,
}

/// `[composable.context_menu_item]`: the buttons inside the context menu.
#[derive(Debug, Clone, Copy, PartialEq, Eq, Structural)]
pub struct ContextMenuItemConfig {
    pub padding: Px,
    pub rounding: Px,
}

/// The per-component tables under `[composable.*]`.
#[derive(Debug, Clone, Copy, PartialEq, Eq, Structural)]
pub struct ComposableConfig {
    pub menu: MenuConfig,
    pub panel: PanelConfig,
    pub context_menu: ContextMenuConfig,
    pub context_menu_item: ContextMenuItemConfig,
}

/// Top-level `config.toml`.
#[derive(Debug, Clone, Copy, PartialEq, Eq, Structural)]
pub struct Config {
    pub composable: ComposableConfig,
}

pub open spec fn zero_px() -> Px {
    Px { bits: ZERO_BITS }
}

pub open spec fn default_context_menu() -> ContextMenuConfig {
    ContextMenuConfig {
        width: Px { bits: DEFAULT_WIDTH_BITS },
        padding: zero_px(),
        spacing: zero_px(),
        rounding: zero_px(),
    }
}

pub open spec fn default_menu() -> MenuConfig {
    MenuConfig {
        width: Px { bits: DEFAULT_WIDTH_BITS },
        height: Px { bits: DEFAULT_MENU_HEIGHT_BITS },
        padding: zero_px(),
        spacing: zero_px(),
        rounding: zero_px(),
    }
}

pub open spec fn default_panel() -> PanelConfig {
    PanelConfig { padding: zero_px(), spacing: zero_px(), rounding: zero_px() }
}

pub open spec fn default_context_menu_item() -> ContextMenuItemConfig {
    ContextMenuItemConfig { padding: zero_px(), rounding: zero_px() }
}

pub open spec fn default_config() -> Config {
    Config {
        composable: ComposableConfig {
            menu: default_menu(),
            panel: default_panel(),
            context_menu: default_context_menu(),
            context_menu_item: default_context_menu_item(),
        },
    }
}

impl Default for ContextMenuConfig {
    fn default() -> (r: Self)
        ensures
            r == default_context_menu(),
            r.width.bits == DEFAULT_WIDTH_BITS,
            r.padding.bits == ZERO_BITS,
            r.spacing.bits == ZERO_BITS,
            r.rounding.bits == ZERO_BITS,
    {
        ContextMenuConfig {
            width: default_width(),
            padding: Px::zero(),
            spacing: Px::zero(),
            rounding: Px::zero(),
        }
    }
}

impl Default for MenuConfig {
    fn default() -> (r: Self)
        ensures
            r == default_menu(),
            r.width.bits == DEFAULT_WIDTH_BITS,
            r.height.bits == DEFAULT_MENU_HEIGHT_BITS,
            r.padding.bits == ZERO_BITS,
            r.spacing.bits == ZERO_BITS,
            r.rounding.bits == ZERO_BITS,
    {
        MenuConfig {
            width: default_width(),
            height: default_menu_height(),
            padding: Px::zero(),
            spacing: Px::zero(),
            rounding: Px::zero(),
        }
    }
}

impl Default for PanelConfig {
    fn default() -> (r: Self)
        ensures
            r == default_panel(),
            r.padding.bits == ZERO_BITS,
            r.spacing.bits == ZERO_BITS,
            r.rounding.bits == ZERO_BITS,
    {
        PanelConfig { padding: Px::zero(), spacing: Px::zero(), rounding: Px::zero() }
    }
}

impl Default for ContextMenuItemConfig {
    fn default() -> (r: Self)
        ensures
            r == default_context_menu_item(),
            r.padding.bits == ZERO_BITS,
            r.rounding.bits == ZERO_BITS,
    {
        ContextMenuItemConfig { padding: Px::zero(), rounding: Px::zero() }
    }
}

impl Default for ComposableConfig {
    fn default() -> (r: Self)
        ensures
            r == default_config().composable,
    {
        ComposableConfig {
            menu: MenuConfig::default(),
            panel: PanelConfig::default(),
            context_menu: ContextMenuConfig::default(),
            context_menu_item: ContextMenuItemConfig::default(),
        }
    }
}

impl Default for Config {
    /// Menu and context-menu widths `180.0`, menu height `92.0`, every
    /// other leaf `0.0`.
    fn default() -> (r: Self)
        ensures
            r == default_config(),
            forall|k: ConfigLeaf| #[trigger] r.leaf(k).bits == (if k == ConfigLeaf::MenuWidth || k
                == ConfigLeaf::ContextMenuWidth {
                DEFAULT_WIDTH_BITS
            } else if k == ConfigLeaf::MenuHeight {
                DEFAULT_MENU_HEIGHT_BITS
            } else {
                ZERO_BITS
            }),
    {
        Config { composable: ComposableConfig::default() }
    }
}

/// The individually settable values ("leaves") of the configuration.
#[derive(Debug, Clone, Copy, PartialEq, Eq, Structural)]
pub enum ConfigLeaf {
    MenuWidth,
    MenuHeight,
    MenuPadding,
    MenuSpacing,
    MenuRounding,
    PanelPadding,
    PanelSpacing,
    PanelRounding,
    ContextMenuWidth,
    ContextMenuPadding,
    ContextMenuSpacing,
    ContextMenuRounding,
    ContextMenuItemPadding,
    ContextMenuItemRounding,
}

/// A single runtime edit to the live config (e.g. from a Settings-panel
/// control): the new value of one leaf.
#[derive(Debug, Clone, Copy, PartialEq, Eq, Structural)]
pub enum ConfigPatch {
    MenuWidth(Px),
    MenuHeight(Px),
    MenuPadding(Px),
    MenuSpacing(Px),
    MenuRounding(Px),
    PanelPadding(Px),
    PanelSpacing(Px),
    PanelRounding(Px),
    ContextMenuWidth(Px),
    ContextMenuPadding(Px),
    ContextMenuSpacing(Px),
    ContextMenuRounding(Px),
    ContextMenuItemPadding(Px),
    ContextMenuItemRounding(Px),
}

impl ConfigPatch {
    /// The leaf this patch sets.
    pub open spec fn leaf(self) -> ConfigLeaf {
        match self {
            ConfigPatch::MenuWidth(_) => ConfigLeaf::MenuWidth,
            ConfigPatch::MenuHeight(_) => ConfigLeaf::MenuHeight,
            ConfigPatch::MenuPadding(_) => ConfigLeaf::MenuPadding,
            ConfigPatch::MenuSpacing(_) => ConfigLeaf::MenuSpacing,
            ConfigPatch::MenuRounding(_) => ConfigLeaf::MenuRounding,
            ConfigPatch::PanelPadding(_) => ConfigLeaf::PanelPadding,
            ConfigPatch::PanelSpacing(_) => ConfigLeaf::PanelSpacing,
            ConfigPatch::PanelRounding(_) => ConfigLeaf::PanelRounding,
            ConfigPatch::ContextMenuWidth(_) => ConfigLeaf::ContextMenuWidth,
            ConfigPatch::ContextMenuPadding(_) => ConfigLeaf::ContextMenuPadding,
            ConfigPatch::ContextMenuSpacing(_) => ConfigLeaf::ContextMenuSpacing,
            ConfigPatch::ContextMenuRounding(_) => ConfigLeaf::ContextMenuRounding,
            ConfigPatch::ContextMenuItemPadding(_) => ConfigLeaf::ContextMenuItemPadding,
            ConfigPatch::ContextMenuItemRounding(_) => ConfigLeaf::ContextMenuItemRounding,
        }
    }

    /// The value this patch sets.
    pub open spec fn value(self) -> Px {
        match self {
            ConfigPatch::MenuWidth(v) => v,
            ConfigPatch::MenuHeight(v) => v,
            ConfigPatch::MenuPadding(v) => v,
            ConfigPatch::MenuSpacing(v) => v,
            ConfigPatch::MenuRounding(v) => v,
            ConfigPatch::PanelPadding(v) => v,
            ConfigPatch::PanelSpacing(v) => v,
            ConfigPatch::PanelRounding(v) => v,
            ConfigPatch::ContextMenuWidth(v) => v,
            ConfigPatch::ContextMenuPadding(v) => v,
            ConfigPatch::ContextMenuSpacing(v) => v,
            ConfigPatch::ContextMenuRounding(v) => v,
            ConfigPatch::ContextMenuItemPadding(v) => v,
            ConfigPatch::ContextMenuItemRounding(v) => v,
        }
    }
}

impl Config {
    /// The value of one leaf.
    pub open spec fn leaf(self, k: ConfigLeaf) -> Px {
        let c = self.composable;
        match k {
            ConfigLeaf::MenuWidth => c.menu.width,
            ConfigLeaf::MenuHeight => c.menu.height,
            ConfigLeaf::MenuPadding => c.menu.padding,
            ConfigLeaf::MenuSpacing => c.menu.spacing,
            ConfigLeaf::MenuRounding => c.menu.rounding,
            ConfigLeaf::PanelPadding => c.panel.padding,
            ConfigLeaf::PanelSpacing => c.panel.spacing,
            ConfigLeaf::PanelRounding => c.panel.rounding,
            ConfigLeaf::ContextMenuWidth => c.context_menu.width,
            ConfigLeaf::ContextMenuPadding => c.context_menu.padding,
            ConfigLeaf::ContextMenuSpacing => c.context_menu.spacing,
            ConfigLeaf::ContextMenuRounding => c.context_menu.rounding,
            ConfigLeaf::ContextMenuItemPadding => c.context_menu_item.padding,
            ConfigLeaf::ContextMenuItemRounding => c.context_menu_item.rounding,
        }
    }

    /// This configuration with leaf `k` set to `v` and everything else kept.
    pub open spec fn with_leaf(self, k: ConfigLeaf, v: Px) -> Config {
        let c = self.composable;
        let m = c.menu;
        let p = c.panel;
        let cm = c.context_menu;
        let ci = c.context_menu_item;
        let composable = match k {
            ConfigLeaf::MenuWidth => ComposableConfig { menu: MenuConfig { width: v, ..m }, ..c },
            ConfigLeaf::MenuHeight => ComposableConfig { menu: MenuConfig { height: v, ..m }, ..c },
            ConfigLeaf::MenuPadding => ComposableConfig {
                menu: MenuConfig { padding: v, ..m },
                ..c
            },
            ConfigLeaf::MenuSpacing => ComposableConfig {
                menu: MenuConfig { spacing: v, ..m },
                ..c
            },
            ConfigLeaf::MenuRounding => ComposableConfig {
                menu: MenuConfig { rounding: v, ..m },
                ..c
            },
            ConfigLeaf::PanelPadding => ComposableConfig {
                panel: PanelConfig { padding: v, ..p },
                ..c
            },
            ConfigLeaf::PanelSpacing => ComposableConfig {
                panel: PanelConfig { spacing: v, ..p },
                ..c
            },
            ConfigLeaf::PanelRounding => ComposableConfig {
                panel: PanelConfig { rounding: v, ..p },
                ..c
            },
            ConfigLeaf::ContextMenuWidth => ComposableConfig {
                context_menu: ContextMenuConfig { width: v, ..cm },
                ..c
            },
            ConfigLeaf::ContextMenuPadding => ComposableConfig {
                context_menu: ContextMenuConfig { padding: v, ..cm },
                ..c
            },
            ConfigLeaf::ContextMenuSpacing => ComposableConfig {
                context_menu: ContextMenuConfig { spacing: v, ..cm },
                ..c
            },
            ConfigLeaf::ContextMenuRounding => ComposableConfig {
                context_menu: ContextMenuConfig { rounding: v, ..cm },
                ..c
            },
            ConfigLeaf::ContextMenuItemPadding => ComposableConfig {
                context_menu_item: ContextMenuItemConfig { padding: v, ..ci },
                ..c
            },
            ConfigLeaf::ContextMenuItemRounding => ComposableConfig {
                context_menu_item: ContextMenuItemConfig { rounding: v, ..ci },
                ..c
            },
        };
        Config { composable }
    }

    /// This configuration after `patch`.
    pub open spec fn patched(self, patch: ConfigPatch) -> Config {
        self.with_leaf(patch.leaf(), patch.value())
    }

    /// Apply a runtime [`ConfigPatch`] to the live config in place.
    pub fn apply(&mut self, patch: ConfigPatch)
        ensures
            *final(self) == old(self).patched(patch),
    {
        let c = &mut self.composable;
        match patch {
            ConfigPatch::MenuWidth(v) => c.menu.width = v,
            ConfigPatch::MenuHeight(v) => c.menu.height = v,
            ConfigPatch::MenuPadding(v) => c.menu.padding = v,
            ConfigPatch::MenuSpacing(v) => c.menu.spacing = v,
            ConfigPatch::MenuRounding(v) => c.menu.rounding = v,
            ConfigPatch::PanelPadding(v) => c.panel.padding = v,
            ConfigPatch::PanelSpacing(v) => c.panel.spacing = v,
            ConfigPatch::PanelRounding(v) => c.panel.rounding = v,
            ConfigPatch::ContextMenuWidth(v) => c.context_menu.width = v,
            ConfigPatch::ContextMenuPadding(v) => c.context_menu.padding = v,
            ConfigPatch::ContextMenuSpacing(v) => c.context_menu.spacing = v,
            ConfigPatch::ContextMenuRounding(v) => c.context_menu.rounding = v,
            ConfigPatch::ContextMenuItemPadding(v) => c.context_menu_item.padding = v,
            ConfigPatch::ContextMenuItemRounding(v) => c.context_menu_item.rounding = v,
        }
    }
}

/// A patch sets exactly its own leaf: that leaf reads back the patched value
/// and every other leaf keeps its value.
pub proof fn lemma_patch_sets_only_its_leaf(cfg: Config, patch: ConfigPatch, k: ConfigLeaf)
    ensures
        cfg.patched(patch).leaf(k) == (if k == patch.leaf() {
            patch.value()
        } else {
            cfg.leaf(k)
        }),
{
}

/// Two configurations are equal exactly when all their leaves are.
pub proof fn lemma_config_is_its_leaves(a: Config, b: Config)
    requires
        forall|k: ConfigLeaf| a.leaf(k) == b.leaf(k),
    ensures
        a == b,
{
    assert(a.leaf(ConfigLeaf::MenuWidth) == b.leaf(ConfigLeaf::MenuWidth));
    assert(a.leaf(ConfigLeaf::MenuHeight) == b.leaf(ConfigLeaf::MenuHeight));
    assert(a.leaf(ConfigLeaf::MenuPadding) == b.leaf(ConfigLeaf::MenuPadding));
    assert(a.leaf(ConfigLeaf::MenuSpacing) == b.leaf(ConfigLeaf::MenuSpacing));
    assert(a.leaf(ConfigLeaf::MenuRounding) == b.leaf(ConfigLeaf::MenuRounding));
    assert(a.leaf(ConfigLeaf::PanelPadding) == b.leaf(ConfigLeaf::PanelPadding));
    assert(a.leaf(ConfigLeaf::PanelSpacing) == b.leaf(ConfigLeaf::PanelSpacing));
    assert(a.leaf(ConfigLeaf::PanelRounding) == b.leaf(ConfigLeaf::PanelRounding));
    assert(a.leaf(ConfigLeaf::ContextMenuWidth) == b.leaf(ConfigLeaf::ContextMenuWidth));
    assert(a.leaf(ConfigLeaf::ContextMenuPadding) == b.leaf(ConfigLeaf::ContextMenuPadding));
    assert(a.leaf(ConfigLeaf::ContextMenuSpacing) == b.leaf(ConfigLeaf::ContextMenuSpacing));
    assert(a.leaf(ConfigLeaf::ContextMenuRounding) == b.leaf(ConfigLeaf::ContextMenuRounding));
    assert(a.leaf(ConfigLeaf::ContextMenuItemPadding) == b.leaf(
        ConfigLeaf::ContextMenuItemPadding,
    ));
    assert(a.leaf(ConfigLeaf::ContextMenuItemRounding) == b.leaf(
        ConfigLeaf::ContextMenuItemRounding,
    ));
}

/// Applying the same patch twice is the same as applying it once.
pub proof fn lemma_patch_idempotent(cfg: Config, patch: ConfigPatch)
    ensures
        cfg.patched(patch).patched(patch) == cfg.patched(patch),
{
    let a = cfg.patched(patch).patched(patch);
    let b = cfg.patched(patch);
    assert forall|k: ConfigLeaf| a.leaf(k) == b.leaf(k) by {
        lemma_patch_sets_only_its_leaf(b, patch, k);
        lemma_patch_sets_only_its_leaf(cfg, patch, k);
    }
    lemma_config_is_its_leaves(a, b);
}

/// Patches to different leaves commute.
pub proof fn lemma_patches_commute(cfg: Config, p: ConfigPatch, q: ConfigPatch)
    requires
        p.leaf() != q.leaf(),
    ensures
        cfg.patched(p).patched(q) == cfg.patched(q).patched(p),
{
    let a = cfg.patched(p).patched(q);
    let b = cfg.patched(q).patched(p);
    assert forall|k: ConfigLeaf| a.leaf(k) == b.leaf(k) by {
        lemma_patch_sets_only_its_leaf(cfg.patched(p), q, k);
        lemma_patch_sets_only_its_leaf(cfg, p, k);
        lemma_patch_sets_only_its_leaf(cfg.patched(q), p, k);
        lemma_patch_sets_only_its_leaf(cfg, q, k);
    }
    lemma_config_is_its_leaves(a, b);
}

/// The documented defaults: menus and context menus are `180.0` wide, menus
/// `92.0` high, and every other leaf (paddings, spacings, roundings) is
/// `0.0`.
pub proof fn lemma_default_leaves(k: ConfigLeaf)
    ensures
        k == ConfigLeaf::MenuWidth || k == ConfigLeaf::ContextMenuWidth ==> default_config().leaf(k).bits
            == DEFAULT_WIDTH_BITS,
        k == ConfigLeaf::MenuHeight ==> default_config().leaf(k).bits == DEFAULT_MENU_HEIGHT_BITS,
        k != ConfigLeaf::MenuWidth && k != ConfigLeaf::ContextMenuWidth && k != ConfigLeaf::MenuHeight
            ==> default_config().leaf(k).bits == ZERO_BITS,
{
}

/// Config messages handled by the daemon.
#[derive(Debug, Clone, Copy, PartialEq, Eq, Structural)]
pub enum ConfigEvent {
    /// Poll tick: check whether `config.toml` changed.
    ConfigTick,
    /// A freshly loaded configuration replaces the live one.
    ConfigReloaded(Config),
    /// Runtime edit from a Settings-panel control. Applied to the single
    /// live config, persisted, and broadcast via full redraw.
    Patch(ConfigPatch),
}

/// Modification time of `config.toml`, in nanoseconds relative to the Unix
/// epoch (negative before it).
pub type Stamp = i128;

/// Hot-reload bookkeeping: the file stamp the live configuration came from.
#[derive(Debug, Clone, Copy, PartialEq, Eq, Structural)]
pub struct ConfigWatch {
    pub known: Option<Stamp>,
}

impl ConfigWatch {
    /// Whether a poll that sees stamp `current` (and whether the file exists)
    /// reads the file: its stamp differs from the known one and it exists.
    pub open spec fn wants_load(self, current: Option<Stamp>, exists: bool) -> bool {
        current != self.known && exists
    }

    /// The bookkeeping after a load that stamped the file `loaded` (`None`
    /// when the read failed): a new stamp becomes the known one; a failed
    /// read keeps the old stamp so the next tick retries.
    pub open spec fn after_load(self, loaded: Option<Stamp>) -> ConfigWatch {
        if loaded is Some && loaded != self.known {
            ConfigWatch { known: loaded }
        } else {
            self
        }
    }

    /// Whether a load stamped `loaded` brought a file the live configuration
    /// did not come from: it succeeded and its stamp differs from the known one.
    pub open spec fn advances(self, loaded: Option<Stamp>) -> bool {
        loaded is Some && loaded != self.known
    }

    /// Whether the poll tick should read the file: its stamp differs from the
    /// known one (it changed, appeared or vanished) and the file exists.
    pub fn needs_load(&self, current: Option<Stamp>, exists: bool) -> (r: bool)
        ensures
            r == self.wants_load(current, exists),
    {
        let changed = match (current, self.known) {
            (Some(a), Some(b)) => a != b,
            (None, None) => false,
            _ => true,
        };
        changed && exists
    }

    /// Record a load (or a save) that stamped the file `loaded`, `None` when
    /// it failed. Returns whether the stamp advanced: only a successful load
    /// with a new stamp does, and its stamp becomes the known one; a failed
    /// read keeps the old stamp and reports nothing, so the next tick retries.
    pub fn accept(&mut self, loaded: Option<Stamp>) -> (r: bool)
        ensures
            r == old(self).advances(loaded),
            *final(self) == old(self).after_load(loaded),
            forall|s: Stamp| loaded == Some(s) && old(self).known != Some(s) ==> r && final(self).known
                == Some(s),
            loaded is None || loaded == old(self).known ==> !r && *final(self) == *old(self),
    {
        let changed = match (loaded, self.known) {
            (Some(a), Some(b)) => a != b,
            (Some(_), None) => true,
            (None, _) => false,
        };
        if changed {
            self.known = loaded;
        }
        changed
    }

    /// The outcome of a poll that read the file: `loaded` is its stamp
    /// (`None` when the read failed) and `parsed` the configuration its
    /// content parsed to (`None` when it did not parse). A configuration is
    /// reported only when the stamp advanced and the content parsed; a file
    /// that does not parse keeps the old configuration serving (its stamp is
    /// still recorded, so it is not parsed again until it changes).
    pub fn reload(&mut self, loaded: Option<Stamp>, parsed: Option<Config>) -> (r: Option<Config>)
        ensures
            *final(self) == old(self).after_load(loaded),
            r == (if old(self).advances(loaded) {
                parsed
            } else {
                None
            }),
            forall|s: Stamp| loaded == Some(s) && old(self).known != Some(s) ==> r == parsed
                && final(self).known == Some(s),
            loaded is None || loaded == old(self).known ==> r is None && *final(self) == *old(self),
    {
        if self.accept(loaded) {
            parsed
        } else {
            None
        }
    }
}

/// A successful read with a stamp other than the known one (including the
/// first stamp, when none was known, as when the file appears) is reported
/// and becomes the known stamp; a failed read or the known stamp is not.
pub proof fn lemma_new_stamp_reported(w: ConfigWatch, s: Stamp)
    ensures
        w.known != Some(s) ==> w.advances(Some(s)) && w.after_load(Some(s)).known == Some(s),
        w.known == Some(s) ==> !w.advances(Some(s)) && w.after_load(Some(s)) == w,
        !w.advances(None) && w.after_load(None) == w,
{
}

/// A file change is picked up once: after a read that stamped the file
/// `loaded`, a poll that sees the same stamp does not read it again; a
/// failed read changes nothing, so the next poll retries.
pub proof fn lemma_reload_reported_once(w: ConfigWatch, loaded: Option<Stamp>, exists: bool)
    ensures
        loaded is Some ==> !w.after_load(loaded).wants_load(loaded, exists),
        loaded is None ==> w.after_load(loaded) == w && !w.advances(loaded),
{
}

} // verus!
