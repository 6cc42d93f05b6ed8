use riced::input::{
    classify_release, fade_finished, graft_filter, redraw_scope, selection_update_due,
    GraftDecision, MouseButton, PlantKind, PointerEvent, Release, Scope,
};

#[test]
fn redraw_scopes() {
    assert_eq!(redraw_scope(PlantKind::SelectionTick), Scope::All);
    assert_eq!(redraw_scope(PlantKind::TopPressed), Scope::All);
    assert_eq!(redraw_scope(PlantKind::BackgroundReleased), Scope::All);
    assert_eq!(redraw_scope(PlantKind::Graft(PointerEvent::ButtonReleased(MouseButton::Left))), Scope::All);
    assert_eq!(redraw_scope(PlantKind::Graft(PointerEvent::CursorMoved)), Scope::Skip);
    assert_eq!(redraw_scope(PlantKind::Graft(PointerEvent::ButtonPressed(MouseButton::Right))), Scope::All);
    assert_eq!(redraw_scope(PlantKind::Graft(PointerEvent::Other)), Scope::Skip);
    assert_eq!(redraw_scope(PlantKind::ConfigTick), Scope::Skip);
    assert_eq!(redraw_scope(PlantKind::IpcPoll), Scope::Skip);
    assert_eq!(redraw_scope(PlantKind::ConfigReloaded), Scope::All);
    assert_eq!(redraw_scope(PlantKind::Wayland), Scope::All);
    assert_eq!(redraw_scope(PlantKind::ConfigPatch), Scope::All);
    assert_eq!(redraw_scope(PlantKind::Uproot), Scope::All);
}

#[test]
fn cursor_moves_are_throttled_releases_always_pass() {
    assert_eq!(graft_filter(PointerEvent::CursorMoved, 15_999_999), GraftDecision::Drop);
    assert_eq!(graft_filter(PointerEvent::CursorMoved, 16_000_000), GraftDecision::Forward { restamp: true });
    assert_eq!(
        graft_filter(PointerEvent::ButtonReleased(MouseButton::Middle), 0),
        GraftDecision::Forward { restamp: false }
    );
    assert_eq!(graft_filter(PointerEvent::ButtonPressed(MouseButton::Left), 1 << 40), GraftDecision::Drop);
    assert_eq!(graft_filter(PointerEvent::OtherMouse, 1 << 40), GraftDecision::Drop);
    assert!(selection_update_due(None));
    assert!(!selection_update_due(Some(1_000_000)));
    assert!(selection_update_due(Some(16_000_000)));
}

#[test]
fn holds_clicks_and_fades() {
    assert_eq!(classify_release(Some(500_000_000)), Release::Hold);
    assert_eq!(classify_release(Some(499_999_999)), Release::Click);
    assert_eq!(classify_release(None), Release::Unpaired);
    assert!(!fade_finished(149_999_999));
    assert!(fade_finished(150_000_000));
}
