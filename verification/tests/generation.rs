use rad_builder::scene::{DockArea, Project, Widget, WidgetId, WidgetKind, WidgetProps};
use rad_builder::generate::generate;

fn widget(id: u64, kind: WidgetKind, x: i32, y: i32, w: i32, h: i32, area: DockArea) -> Widget {
    let wid = WidgetId::new(id);
    let z = wid.as_z();
    Widget { id: wid, kind, x, y, w, h, z, area, props: WidgetProps::default() }
}

fn empty_scene() -> Project {
    Project::default()
}

#[test]
fn determinism_repeated_generation() {
    let mut p = empty_scene();
    let mut w = widget(1, WidgetKind::Slider, 140, 280, 2200, 240, DockArea::Top);
    w.props.text = "Speed".to_owned();
    p.widgets.push(w);
    p.widgets.push(widget(2, WidgetKind::Label, 0, 0, 1400, 240, DockArea::Center));
    p.panel_top_enabled = true;
    let first = generate(&p);
    let second = generate(&p);
    assert_eq!(first, second);
}

#[test]
fn scenario_label_in_center() {
    let mut p = empty_scene();
    let mut w = widget(1, WidgetKind::Label, 30, 40, 1400, 240, DockArea::Center);
    w.props.text = "Hi".to_owned();
    p.widgets.push(w);
    let out = generate(&p);
    // no state field for the label
    assert!(!out.contains("text_1"));
    assert!(!out.contains("_1:"));
    // one construction statement at the center origin offset by (3.0, 4.0)
    let stmt = "    ui.scope_builder(egui::UiBuilder::new().max_rect(egui::Rect::from_min_size(canvas.min + egui::vec2(3.0,4.0), egui::vec2(140.0,24.0))), |ui| { ui.label(\"Hi\"); });\n";
    assert_eq!(out.matches(stmt).count(), 1);
}

#[test]
fn scenario_slider_defaults() {
    let mut p = empty_scene();
    let mut w = widget(2, WidgetKind::Slider, 0, 0, 2200, 240, DockArea::Center);
    w.props.min = 0;
    w.props.max = 10000;
    w.props.value = 5000;
    w.props.text = "Value".to_owned();
    p.widgets.push(w);
    let out = generate(&p);
    assert!(out.contains("    value_2: f32,\n"));
    assert!(out.contains("            value_2: 5.000,\n"));
    assert!(out.contains("egui::Slider::new(&mut state.value_2, 0.000..=10.000)"));
}

#[test]
fn scenario_empty_scene() {
    let p = empty_scene();
    let out = generate(&p);
    assert!(out.contains("struct GeneratedState {\n    enable_top: bool, enable_bottom: bool, enable_left: bool, enable_right: bool,\n}\n"));
    assert!(out.contains("            enable_top: false, enable_bottom: false, enable_left: false, enable_right: false,\n"));
    assert!(out.contains("egui::CentralPanel::default().show(ctx, |ui| {\n        let canvas = egui::Rect::from_min_size(ui.min_rect().min, egui::vec2(1200.0, 800.0));\n        let _ = ui.allocate_painter(canvas.size(), egui::Sense::hover());\n    });\n"));
    assert!(out.contains("fn main() -> eframe::Result<()>"));
    assert!(!out.contains("GenTreeNode"));
}

#[test]
fn completeness_one_statement_per_widget() {
    let kinds = [
        WidgetKind::MenuButton,
        WidgetKind::Label,
        WidgetKind::Button,
        WidgetKind::ImageTextButton,
        WidgetKind::Checkbox,
        WidgetKind::TextEdit,
        WidgetKind::Slider,
        WidgetKind::ProgressBar,
        WidgetKind::RadioGroup,
        WidgetKind::Link,
        WidgetKind::Hyperlink,
        WidgetKind::SelectableLabel,
        WidgetKind::ComboBox,
        WidgetKind::Separator,
        WidgetKind::CollapsingHeader,
        WidgetKind::DatePicker,
        WidgetKind::AngleSelector,
        WidgetKind::Password,
        WidgetKind::Tree,
    ];
    let mut p = empty_scene();
    let mut id: u64 = 1;
    for k in kinds {
        p.widgets.push(widget(id, k, 0, 0, 1000, 300, DockArea::Center));
        id += 1;
    }
    let out = generate(&p);
    assert_eq!(out.matches("    ui.scope_builder(").count(), 19);
    // one field and one initializer per stateful widget, keyed by id
    for (needle, init) in [
        ("    sel_1: usize,\n", "            sel_1: 0,\n"),
        ("    checked_5: bool,\n", "            checked_5: false,\n"),
        ("    text_6: String,\n", "            text_6: \"Label\".to_owned(),\n"),
        ("    value_7: f32,\n", "            value_7: 0.500,\n"),
        ("    progress_8: f32,\n", "            progress_8: 0.500,\n"),
        ("    sel_9: usize,\n", "            sel_9: 0,\n"),
        ("    sel_12: bool,\n", "            sel_12: false,\n"),
        ("    sel_13: usize,\n", "            sel_13: 0,\n"),
        ("    open_15: bool,\n", "            open_15: false,\n"),
        ("    date_16: NaiveDate,\n", "            date_16: NaiveDate::from_ymd_opt(2024, 1, 1).unwrap(),\n"),
        ("    angle_17: f32,\n", "            angle_17: 0.500,\n"),
        ("    pass_18: String,\n", "            pass_18: \"Label\".to_owned(),\n"),
    ] {
        assert_eq!(out.matches(needle).count(), 1, "field {needle:?}");
        assert_eq!(out.matches(init).count(), 1, "init {init:?}");
    }
    // stateless kinds leave no field behind
    assert!(!out.contains("_2:"));
    assert!(!out.contains("_3:"));
    assert!(!out.contains("_19:"));
}

#[test]
fn escaping_in_generated_literals() {
    let mut p = empty_scene();
    let mut w = widget(1, WidgetKind::Label, 0, 0, 1400, 240, DockArea::Center);
    w.props.text = "say \"hi\" \\ bye".to_owned();
    p.widgets.push(w);
    let out = generate(&p);
    assert!(out.contains("ui.label(\"say \\\"hi\\\" \\\\ bye\")"));
}

#[test]
fn tree_widget_emits_shared_helper_once() {
    let mut p = empty_scene();
    let mut w = widget(1, WidgetKind::Tree, 0, 0, 2600, 2000, DockArea::Center);
    w.props.items = vec!["A".to_owned(), "  B".to_owned()];
    p.widgets.push(w);
    let mut w2 = widget(2, WidgetKind::Tree, 0, 0, 2600, 2000, DockArea::Center);
    w2.props.items = vec!["X".to_owned()];
    p.widgets.push(w2);
    let out = generate(&p);
    assert_eq!(out.matches("fn gen_show_tree(").count(), 1);
    assert_eq!(out.matches("gen_show_tree(ui, &nodes);").count(), 2);
    assert!(out.contains("vec![GenTreeNode { label: \"A\".to_string(), children: vec![GenTreeNode { label: \"B\".to_string(), children: vec![] }] }]"));
}

#[test]
fn progress_value_clamped_to_unit_interval() {
    let mut p = empty_scene();
    let mut w = widget(3, WidgetKind::ProgressBar, 0, 0, 2200, 200, DockArea::Center);
    w.props.value = 5000;
    p.widgets.push(w);
    let out = generate(&p);
    assert!(out.contains("            progress_3: 1.000,\n"));
}

#[test]
fn date_components_clamped() {
    let mut p = empty_scene();
    let mut w = widget(4, WidgetKind::DatePicker, 0, 0, 2000, 280, DockArea::Center);
    w.props.year = 1999;
    w.props.month = 13;
    w.props.day = 31;
    p.widgets.push(w);
    let out = generate(&p);
    assert!(out.contains("            date_4: NaiveDate::from_ymd_opt(1999, 12, 28).unwrap(),\n"));
}

#[test]
fn selection_index_clamped_and_empty_list_fallback() {
    let mut p = empty_scene();
    let mut combo = widget(5, WidgetKind::ComboBox, 0, 0, 2200, 280, DockArea::Center);
    combo.props.items = vec!["a".to_owned(), "b".to_owned()];
    combo.props.selected = 7;
    p.widgets.push(combo);
    let mut radio = widget(6, WidgetKind::RadioGroup, 0, 0, 2000, 800, DockArea::Center);
    radio.props.items = vec![];
    radio.props.selected = 3;
    p.widgets.push(radio);
    let out = generate(&p);
    assert!(out.contains("            sel_5: 1,\n"));
    assert!(out.contains("            sel_6: 0,\n"));
    assert!(out.contains("\"Item\".to_string()"));
}

#[test]
fn negative_coordinates_format_with_one_decimal() {
    let mut p = empty_scene();
    p.widgets.push(widget(1, WidgetKind::Separator, -35, -7, 2200, 80, DockArea::Free));
    let out = generate(&p);
    assert!(out.contains("canvas.min + egui::vec2(-3.5,-0.7), egui::vec2(220.0,8.0)"));
}

#[test]
fn docked_widgets_emit_into_their_regions() {
    let mut p = empty_scene();
    p.widgets.push(widget(1, WidgetKind::Button, 0, 0, 1600, 320, DockArea::Top));
    p.widgets.push(widget(2, WidgetKind::Button, 0, 0, 1600, 320, DockArea::Left));
    let out = generate(&p);
    let top_panel = out.find("egui::TopBottomPanel::top(\"gen_top\")").unwrap();
    let left_panel = out.find("egui::SidePanel::left(\"gen_left\")").unwrap();
    let b1 = out.find("egui::Button::new(\"Label\")").unwrap();
    assert!(top_panel < b1 && b1 < left_panel);
}

#[test]
fn negative_range_bounds_format_with_three_decimals() {
    let mut p = empty_scene();
    let mut w = widget(9, WidgetKind::Slider, 0, 0, 2200, 240, DockArea::Center);
    w.props.min = -500;
    w.props.max = 1500;
    w.props.value = -42;
    p.widgets.push(w);
    let out = generate(&p);
    assert!(out.contains("egui::Slider::new(&mut state.value_9, -0.500..=1.500)"));
    assert!(out.contains("            value_9: -0.042,\n"));
}
