use riced::config::{
    default_menu_height, default_width, Config, ConfigLeaf, ConfigPatch, ConfigWatch, Px,
    DEFAULT_MENU_HEIGHT_BITS, DEFAULT_WIDTH_BITS,
};

fn px(v: f32) -> Px {
    Px { bits: v.to_bits() }
}

fn val(p: Px) -> f32 {
    f32::from_bits(p.bits)
}

#[test]
fn patch_updates_only_the_targeted_leaf() {
    let mut cfg = Config::default();
    cfg.apply(ConfigPatch::PanelRounding(px(6.0)));
    assert_eq!(val(cfg.composable.panel.rounding), 6.0);
    // everything else untouched
    assert_eq!(val(cfg.composable.menu.width), 180.0);
    assert_eq!(val(cfg.composable.panel.padding), 0.0);
    cfg.apply(ConfigPatch::MenuWidth(px(250.0)));
    assert_eq!(val(cfg.composable.menu.width), 250.0);
    assert_eq!(val(cfg.composable.panel.rounding), 6.0);
}

#[test]
fn defaults_match_the_documented_values() {
    assert_eq!(val(default_width()), 180.0);
    assert_eq!(val(default_menu_height()), 92.0);
    assert_eq!(DEFAULT_WIDTH_BITS, 180.0f32.to_bits());
    assert_eq!(DEFAULT_MENU_HEIGHT_BITS, 92.0f32.to_bits());
    let cfg = Config::default();
    let c = cfg.composable;
    assert_eq!(val(c.menu.width), 180.0);
    assert_eq!(val(c.menu.height), 92.0);
    assert_eq!(val(c.menu.padding), 0.0);
    assert_eq!(val(c.menu.spacing), 0.0);
    assert_eq!(val(c.menu.rounding), 0.0);
    assert_eq!(val(c.context_menu.width), 180.0);
    assert_eq!(val(c.context_menu.padding), 0.0);
    assert_eq!(val(c.panel.spacing), 0.0);
    assert_eq!(val(c.context_menu_item.padding), 0.0);
    assert_eq!(val(c.context_menu_item.rounding), 0.0);
}

#[test]
fn every_patch_sets_its_own_leaf() {
    let patches: Vec<(ConfigPatch, fn(&Config) -> Px)> = vec![
        (ConfigPatch::MenuWidth(px(1.0)), |c| c.composable.menu.width),
        (ConfigPatch::MenuHeight(px(2.0)), |c| c.composable.menu.height),
        (ConfigPatch::MenuPadding(px(3.0)), |c| c.composable.menu.padding),
        (ConfigPatch::MenuSpacing(px(4.0)), |c| c.composable.menu.spacing),
        (ConfigPatch::MenuRounding(px(5.0)), |c| c.composable.menu.rounding),
        (ConfigPatch::PanelPadding(px(6.0)), |c| c.composable.panel.padding),
        (ConfigPatch::PanelSpacing(px(7.0)), |c| c.composable.panel.spacing),
        (ConfigPatch::PanelRounding(px(8.0)), |c| c.composable.panel.rounding),
        (ConfigPatch::ContextMenuWidth(px(9.0)), |c| c.composable.context_menu.width),
        (ConfigPatch::ContextMenuPadding(px(10.0)), |c| c.composable.context_menu.padding),
        (ConfigPatch::ContextMenuSpacing(px(11.0)), |c| c.composable.context_menu.spacing),
        (ConfigPatch::ContextMenuRounding(px(12.0)), |c| c.composable.context_menu.rounding),
        (ConfigPatch::ContextMenuItemPadding(px(13.0)), |c| c.composable.context_menu_item.padding),
        (ConfigPatch::ContextMenuItemRounding(px(14.0)), |c| c.composable.context_menu_item.rounding),
    ];
    for (i, (patch, get)) in patches.iter().enumerate() {
        let mut cfg = Config::default();
        let before = cfg;
        cfg.apply(*patch);
        assert_eq!(val(get(&cfg)), (i + 1) as f32);
        // all other leaves as before
        for (j, (_, other)) in patches.iter().enumerate() {
            if j != i {
                assert_eq!(other(&cfg), other(&before));
            }
        }
        // the same patch again changes nothing
        let once = cfg;
        cfg.apply(*patch);
        assert_eq!(cfg, once);
    }
    let _ = ConfigLeaf::MenuWidth;
}

#[test]
fn patches_to_different_leaves_commute() {
    let p = ConfigPatch::MenuWidth(px(300.0));
    let q = ConfigPatch::PanelPadding(px(4.0));
    let mut a = Config::default();
    a.apply(p);
    a.apply(q);
    let mut b = Config::default();
    b.apply(q);
    b.apply(p);
    assert_eq!(a, b);
}

#[test]
fn reload_is_reported_once_per_change() {
    let mut w = ConfigWatch { known: Some(10) };
    assert!(!w.needs_load(Some(10), true));
    assert!(w.needs_load(Some(11), true));
    assert!(!w.needs_load(Some(11), false));
    assert!(w.needs_load(None, true));
    // a read that yields the old stamp is not reported and retried next tick
    assert!(!w.accept(Some(10)));
    assert_eq!(w.known, Some(10));
    assert!(w.accept(Some(11)));
    assert_eq!(w.known, Some(11));
    assert!(!w.needs_load(Some(11), true));
    let fresh = ConfigWatch { known: None };
    assert!(fresh.needs_load(Some(-5), true));
}

#[test]
fn failed_read_keeps_the_stamp_and_retries() {
    let mut w = ConfigWatch { known: Some(10) };
    assert!(!w.accept(None));
    assert_eq!(w.known, Some(10));
    assert_eq!(w.reload(None, Some(Config::default())), None);
    assert_eq!(w.known, Some(10));
    // the file is read again on the next tick
    assert!(w.needs_load(Some(12), true));
}

#[test]
fn unparsable_file_keeps_the_old_configuration() {
    let mut w = ConfigWatch { known: Some(10) };
    assert_eq!(w.reload(Some(11), None), None);
    assert_eq!(w.known, Some(11));
    assert!(!w.needs_load(Some(11), true));
    let mut cfg = Config::default();
    cfg.apply(ConfigPatch::MenuWidth(Px { bits: 0x4348_0000 }));
    assert_eq!(w.reload(Some(12), Some(cfg)), Some(cfg));
    assert_eq!(w.known, Some(12));
    assert_eq!(w.reload(Some(12), Some(Config::default())), None);
}
