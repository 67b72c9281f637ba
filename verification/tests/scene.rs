use rad_builder::scene::{spawn_widget, DockArea, Project, WidgetId, WidgetKind, WidgetProps};
use rad_builder::text::escape;

#[test]
fn widget_id_doubles_as_draw_order_key() {
    assert_eq!(WidgetId::new(5).as_z(), 5);
    assert_eq!(WidgetId::new(5).value(), 5);
    // the key is the id truncated to the key's width
    assert_eq!(WidgetId::new((1u64 << 32) + 7).as_z(), 7);
}

#[test]
fn default_props_match_the_documented_bag() {
    let p = WidgetProps::default();
    assert_eq!(p.text, "Label");
    assert!(!p.checked);
    assert_eq!((p.value, p.min, p.max), (500, 0, 1000));
    assert!(p.items.is_empty());
    assert_eq!(p.selected, 0);
    assert_eq!(p.url, "https://example.com");
    assert_eq!((p.year, p.month, p.day), (2024, 1, 1));
    assert_eq!(p.icon, "🖼️");
}

#[test]
fn default_scene_is_empty_with_disabled_panels() {
    let p = Project::default();
    assert!(p.widgets.is_empty());
    assert_eq!((p.canvas_w, p.canvas_h), (12000, 8000));
    assert!(!p.panel_top_enabled && !p.panel_bottom_enabled);
    assert!(!p.panel_left_enabled && !p.panel_right_enabled);
}

#[test]
fn spawned_slider_gets_kind_defaults() {
    let w = spawn_widget(4, WidgetKind::Slider, 140, 280, DockArea::Top);
    assert_eq!(w.id.value(), 4);
    assert_eq!(w.z, 4);
    assert_eq!((w.x, w.y, w.w, w.h), (140, 280, 2200, 240));
    assert_eq!(w.area, DockArea::Top);
    assert_eq!(w.props.text, "Value");
    assert_eq!((w.props.value, w.props.min, w.props.max), (42000, 0, 100000));
}

#[test]
fn spawned_tree_gets_indented_sample_items() {
    let w = spawn_widget(1, WidgetKind::Tree, 0, 0, DockArea::Free);
    assert_eq!((w.w, w.h), (2600, 2000));
    assert_eq!(w.props.items[0], "Animals");
    assert_eq!(w.props.items[1], "  Mammals");
    assert_eq!(w.props.items.len(), 8);
}

#[test]
fn escape_doubles_backslashes_and_escapes_quotes() {
    assert_eq!(escape("plain"), "plain");
    assert_eq!(escape("a\\b"), "a\\\\b");
    assert_eq!(escape("say \"hi\""), "say \\\"hi\\\"");
    assert_eq!(escape("\\\""), "\\\\\\\"");
    // everything else passes through verbatim, including newlines and unicode
    assert_eq!(escape("π\n°"), "π\n°");
    assert_eq!(escape(""), "");
}
