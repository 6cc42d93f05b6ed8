use riced::config::{Config, ConfigEvent, ConfigPatch, Px};
use riced::geometry::{Anchor, Extent, OutputGeometry, OutputId, OutputTarget, Position, Rect};
use riced::layers::{Background, Top};
use riced::plots::{ConfigAction, Plots, PointPx, SelectionRect, SettingsToggle};
use riced::registry::{PlotInfo, SENTINEL_OUTPUT};

fn geometry(x: i32, y: i32, w: i32, h: i32) -> OutputGeometry {
    OutputGeometry {
        location: Position { x, y },
        logical_position: Some(Position { x, y }),
        logical_size: Some(Extent { width: w, height: h }),
        current_mode: None,
    }
}

fn plots() -> Plots {
    Plots::new(Config::default(), None)
}

#[test]
fn output_lifecycle() {
    let mut p = plots();
    let added = p.output_added(OutputId(1), geometry(0, 0, 1920, 1080), 10, 14);
    assert!(added.closed.is_empty());
    let spec = added.background.unwrap();
    assert_eq!(spec.output, OutputTarget::GlobalName(1));
    assert_eq!(p.id_info(10), Some(PlotInfo::Background(OutputId(1))));
    // every output gets a top bar as it appears
    let bar = added.bar.unwrap();
    assert_eq!(bar.namespace, "Riced - TOP 1");
    assert_eq!(bar.exclusive_zone, 50);
    assert_eq!(bar.anchor, Anchor::top());
    assert_eq!(bar.output, OutputTarget::GlobalName(1));
    assert_eq!(p.id_info(14), Some(PlotInfo::Top(OutputId(1))));
    // a second report of the same output keeps its Background and its bar
    let again = p.output_added(OutputId(1), geometry(0, 0, 1920, 1080), 11, 15);
    assert!(again.background.is_none());
    assert!(again.bar.is_none());
    assert_eq!(p.registry.top(14).unwrap().thickness(), 50);
    assert_eq!(p.id_info(11), None);
    assert_eq!(p.id_info(15), None);
    // more bars on the output
    let (_, dup) = p.add_top(Some(OutputId(1)), Anchor::top(), 12);
    assert!(dup);
    let (spec, dup) = p.add_top(Some(OutputId(1)), Anchor::left(), 13);
    assert!(!dup);
    assert_eq!(spec.namespace, "Riced - LEFT 1");
    assert_eq!(spec.exclusive_zone, 50);
    assert_eq!(p.id_info(13), Some(PlotInfo::Top(OutputId(1))));
    // removal closes the Background first, then the bars
    let mut closed = p.output_removed(OutputId(1));
    assert_eq!(closed[0], 10);
    closed.sort();
    assert_eq!(closed, vec![10, 12, 13, 14]);
    assert_eq!(p.id_info(10), None);
    assert_eq!(p.id_info(12), None);
    assert_eq!(p.id_info(14), None);
    assert!(p.outputs.get(1).is_none());
    assert_eq!(Background::available_rect(OutputId(1), &p.outputs, &p.registry), None);
}

#[test]
fn sentinel_bars_close_when_an_output_appears() {
    let mut p = plots();
    let (spec, dup) = p.add_top(None, Anchor::left(), 5);
    assert!(!dup);
    assert_eq!(spec.output, OutputTarget::Active);
    assert_eq!(spec.namespace, "Riced - TOP Active");
    assert_eq!(p.id_info(5), Some(PlotInfo::Top(OutputId(SENTINEL_OUTPUT))));
    let added = p.output_added(OutputId(3), geometry(0, 0, 800, 600), 6, 7);
    assert_eq!(added.closed, vec![5]);
    assert_eq!(p.id_info(5), None);
    assert_eq!(p.id_info(6), Some(PlotInfo::Background(OutputId(3))));
    assert_eq!(added.bar.unwrap().namespace, "Riced - TOP 3");
    assert_eq!(p.id_info(7), Some(PlotInfo::Top(OutputId(3))));
}

#[test]
fn bars_shrink_the_background_area() {
    let mut p = plots();
    p.output_added(OutputId(1), geometry(0, 0, 1920, 1080), 1, 11);
    p.output_added(OutputId(2), geometry(1920, -100, 1280, 1024), 2, 12);
    // the top bar each output gets takes its 50 px
    assert_eq!(Background::available_rect(OutputId(1), &p.outputs, &p.registry), Some(Rect { x: 0, y: 50, width: 1920, height: 1030 }));
    p.add_top(Some(OutputId(1)), Anchor::left(), 4);
    p.add_top(Some(OutputId(1)), Anchor::bottom(), 5);
    p.add_top(Some(OutputId(1)), Anchor::right(), 6);
    p.add_top(Some(OutputId(1)), Anchor::left(), 7);
    let ins = Top::insets_for_output(&p.registry, OutputId(1));
    assert_eq!((ins.left, ins.right, ins.top, ins.bottom), (100, 50, 50, 50));
    assert_eq!(Background::available_rect(OutputId(1), &p.outputs, &p.registry), Some(Rect { x: 100, y: 50, width: 1770, height: 980 }));
    // the other output only loses its own top bar
    assert_eq!(Background::available_rect(OutputId(2), &p.outputs, &p.registry), Some(Rect { x: 1920, y: -50, width: 1280, height: 974 }));
    // window-local coordinates of a Background start at its area's origin
    assert_eq!(p.window_origin(1), Some((100, 50)));
    assert_eq!(p.window_origin(2), Some((1920, -50)));
    assert_eq!(p.window_origin(11), None);
    assert_eq!(p.window_origin(99), None);
    // closing a bar gives its space back
    p.uproot(7);
    assert_eq!(Background::available_rect(OutputId(1), &p.outputs, &p.registry), Some(Rect { x: 50, y: 50, width: 1820, height: 980 }));
    p.uproot(11);
    assert_eq!(Background::available_rect(OutputId(1), &p.outputs, &p.registry), Some(Rect { x: 50, y: 0, width: 1820, height: 1030 }));
    // unknown outputs fall back to full HD at the origin
    assert_eq!(Background::available_rect(OutputId(9), &p.outputs, &p.registry), None);
    assert_eq!(Background::available_rect_or_fallback(OutputId(9), &p.outputs, &p.registry), Rect { x: 0, y: 0, width: 1920, height: 1080 });
}

#[test]
fn area_never_goes_negative() {
    let mut p = plots();
    p.output_added(OutputId(1), geometry(0, 0, 60, 60), 1, 9);
    p.add_top(Some(OutputId(1)), Anchor::left(), 2);
    p.add_top(Some(OutputId(1)), Anchor::right(), 3);
    assert_eq!(Background::available_rect(OutputId(1), &p.outputs, &p.registry), Some(Rect { x: 50, y: 50, width: 0, height: 10 }));
}

#[test]
fn add_bar_target() {
    let mut p = plots();
    let top = Anchor::top();
    // no menu and no output: a top bar on the active output
    assert_eq!(p.bar_target(None, None), (None, top));
    p.output_added(OutputId(1), geometry(0, 0, 1920, 1080), 1, 2);
    p.output_added(OutputId(2), geometry(1920, 0, 1920, 1080), 3, 4);
    // no menu: the first known output, top edge
    assert_eq!(p.bar_target(Some(Anchor::left()), Some((OutputId(2), Anchor::right()))), (Some(OutputId(1)), top));
    // a menu on a known output: the edge closest to it
    p.open_context_menu(Px { bits: 0 }, Px { bits: 0 }, Some(OutputId(2)));
    assert_eq!(p.bar_target(Some(Anchor::left()), None), (Some(OutputId(2)), Anchor::left()));
    // a menu on an output without geometry: top edge
    p.open_context_menu(Px { bits: 0 }, Px { bits: 0 }, Some(OutputId(9)));
    assert_eq!(p.bar_target(Some(Anchor::left()), None), (Some(OutputId(9)), top));
    // a menu without a stored output: the output the geometry found
    p.open_context_menu(Px { bits: 0 }, Px { bits: 0 }, None);
    assert_eq!(p.bar_target(None, Some((OutputId(2), Anchor::right()))), (Some(OutputId(2)), Anchor::right()));
    assert_eq!(p.bar_target(None, None), (None, top));
}

#[test]
fn settings_toggle_and_context_menu() {
    let mut p = plots();
    p.open_context_menu(Px { bits: 1 }, Px { bits: 2 }, Some(OutputId(1)));
    assert!(p.context_menu.unwrap().open);
    match p.toggle_settings(20) {
        SettingsToggle::Opened(spec) => assert!(spec.client_side_decorations),
        SettingsToggle::Closed(_) => panic!("nothing was open"),
    }
    assert!(!p.context_menu.unwrap().open);
    assert_eq!(p.context_menu.unwrap().output, Some(OutputId(1)));
    assert_eq!(p.title(20), Some("Riced Settings".to_string()));
    match p.toggle_settings(21) {
        SettingsToggle::Closed(ids) => assert_eq!(ids, vec![20]),
        SettingsToggle::Opened(_) => panic!("one was open"),
    }
    assert_eq!(p.id_info(20), None);
    assert_eq!(p.id_info(21), None);
    p.open_settings(22);
    p.open_settings(23);
    match p.toggle_settings(24) {
        SettingsToggle::Closed(ids) => assert_eq!(ids, vec![22, 23]),
        SettingsToggle::Opened(_) => panic!("two were open"),
    }
    assert_eq!(Plots::namespace(), "Riced Main Runtime");
}

#[test]
fn uproot_forgets_any_window() {
    let mut p = plots();
    p.output_added(OutputId(1), geometry(0, 0, 100, 100), 1, 4);
    p.open_settings(2);
    assert_eq!(p.uproot(1), Some(PlotInfo::Background(OutputId(1))));
    assert_eq!(p.uproot(2), Some(PlotInfo::Setting));
    assert_eq!(p.uproot(2), None);
    // the output gets a new Background on its next report
    let again = p.output_added(OutputId(1), geometry(0, 0, 100, 100), 3, 5);
    assert!(again.background.is_some());
    // its bar is still there
    assert!(again.bar.is_none());
}

#[test]
fn config_messages() {
    let mut p = plots();
    assert_eq!(p.config_event(ConfigEvent::ConfigTick), ConfigAction::CheckFile);
    let patch = ConfigPatch::MenuWidth(Px { bits: 250.0f32.to_bits() });
    assert_eq!(p.config_event(ConfigEvent::Patch(patch)), ConfigAction::SaveAndRedraw);
    assert_eq!(f32::from_bits(p.config.composable.menu.width.bits), 250.0);
    assert_eq!(p.config_event(ConfigEvent::ConfigReloaded(Config::default())), ConfigAction::Redraw);
    assert_eq!(p.config, Config::default());
}

#[test]
fn selection_press_release_fade() {
    let mut p = plots();
    assert!(!p.end_selection());
    assert_eq!(p.fade, None);
    p.open_context_menu(Px { bits: 0 }, Px { bits: 0 }, None);
    let at = PointPx { x: Px { bits: 10.5f32.to_bits() }, y: Px { bits: 20.0f32.to_bits() } };
    p.begin_selection(at);
    assert!(!p.context_menu.unwrap().open);
    assert!(p.selection.selecting);
    assert_eq!(p.selection.start_point, Some(at));
    assert_eq!(p.selection.x, at.x);
    assert_eq!(p.selection.width, Px { bits: 0 });
    // the application's drag update widens it
    p.selection.width = Px { bits: 30.0f32.to_bits() };
    let dragged = p.selection;
    assert!(p.end_selection());
    assert_eq!(p.fade, Some(dragged));
    assert!(!p.selection.selecting);
    assert_eq!(p.selection.start_point, None);
    assert_eq!(p.selection.width, Px { bits: 0 });
    assert_eq!(p.selection.x, at.x);
    // a second release changes nothing
    assert!(!p.end_selection());
    assert_eq!(p.fade, Some(dragged));
    p.finish_fade();
    assert_eq!(p.fade, None);
    let mut idle = SelectionRect::idle();
    assert!(!idle.reset());
    assert_eq!(idle, SelectionRect::idle());
}
