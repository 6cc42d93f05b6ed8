use riced::geometry::{
    decimal_string, Anchor, Blur, Extent, Layer, LayerSize, OutputGeometry, OutputTarget, Position,
    Rect,
};
use riced::layers::{Background, Overlay, Setting, Top, BAR_THICKNESS};

#[test]
fn decimal_spelling() {
    assert_eq!(decimal_string(0), "0");
    assert_eq!(decimal_string(7), "7");
    assert_eq!(decimal_string(10), "10");
    assert_eq!(decimal_string(4096), "4096");
    assert_eq!(decimal_string(u32::MAX), u32::MAX.to_string());
}

#[test]
fn bar_surfaces() {
    let top = Top::new();
    assert_eq!(top.thickness(), 50);
    assert_eq!(top.anchor(), Anchor::top());
    assert_eq!(top.layer_size(), LayerSize::FillWidth(50));
    assert_eq!(top.anchor_label(), "TOP");
    let spec = top.open(42);
    assert_eq!(spec.namespace, "Riced - TOP 42");
    assert_eq!(spec.layer, Layer::Top);
    assert_eq!(spec.exclusive_zone, 50);
    assert_eq!(spec.output, OutputTarget::GlobalName(42));
    assert_eq!(spec.blur, Some(Blur::FullRegion));
    assert_eq!(spec.anchor, Anchor::top());

    let left = Top::with_anchor(Anchor::left());
    assert_eq!(left.layer_size(), LayerSize::FillHeight(BAR_THICKNESS));
    assert_eq!(left.anchor_label(), "LEFT");
    assert_eq!(left.open_active().namespace, "Riced - LEFT Active");
    assert_eq!(left.open_active().output, OutputTarget::Active);
    assert_eq!(Top::with_anchor(Anchor::right()).anchor_label(), "RIGHT");
    assert_eq!(Top::with_anchor(Anchor::bottom()).anchor_label(), "BOTTOM");
    assert_eq!(Top::with_anchor(Anchor::bottom()).layer_size(), LayerSize::FillWidth(50));
    let odd = Top::with_anchor(Anchor { bits: 3 });
    assert_eq!(odd.anchor_label(), "BAR");
    assert_eq!(odd.open(0).namespace, "Riced - BAR 0");
}

#[test]
fn background_overlay_and_settings_surfaces() {
    let bg = Background.open(7);
    assert_eq!(bg.anchor, Anchor::all());
    assert_eq!(bg.layer, Layer::Background);
    assert_eq!(bg.exclusive_zone, 0);
    assert_eq!(bg.size, Some(LayerSize::Fill));
    assert_eq!(bg.namespace, "Riced - Background");
    assert_eq!(bg.blur, Some(Blur::Off));
    let ov = Overlay.open(7);
    assert_eq!(ov.layer, Layer::Overlay);
    assert_eq!(ov.size, None);
    assert_eq!(ov.namespace, "Riced - Overlay");
    assert_eq!(Setting::title(), "Riced Settings");
    assert_eq!(Setting::TITLE, "Riced Settings");
    assert!(Setting.open().client_side_decorations);
}

#[test]
fn output_rect_prefers_logical_values() {
    let g = OutputGeometry {
        location: Position { x: 5, y: 6 },
        logical_position: Some(Position { x: 1920, y: -100 }),
        logical_size: Some(Extent { width: 1280, height: 1024 }),
        current_mode: Some(Extent { width: 2560, height: 2048 }),
    };
    assert_eq!(Background::output_geometry(&g), Rect { x: 1920, y: -100, width: 1280, height: 1024 });
    let g = OutputGeometry { logical_position: None, logical_size: None, ..g };
    assert_eq!(Background::output_geometry(&g), Rect { x: 5, y: 6, width: 2560, height: 2048 });
    let g = OutputGeometry { current_mode: None, ..g };
    assert_eq!(Background::output_geometry(&g), Rect { x: 5, y: 6, width: 1920, height: 1080 });
}
