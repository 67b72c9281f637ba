use rad_builder::codec::{decode, encode, import_or_keep, next_widget_id};
use rad_builder::scene::{DockArea, Project, Widget, WidgetId, WidgetKind, WidgetProps};

fn widget(id: u64, kind: WidgetKind) -> Widget {
    let wid = WidgetId::new(id);
    let z = wid.as_z();
    Widget { id: wid, kind, x: -35, y: 40, w: 2200, h: 240, z, area: DockArea::Left, props: WidgetProps::default() }
}

fn sample_scene() -> Project {
    let mut p = Project::default();
    let mut w1 = widget(1, WidgetKind::Slider);
    w1.props.text = "Größe \"x\" \\ y".to_owned();
    w1.props.value = -500;
    w1.props.min = -100000;
    w1.props.max = 100000;
    p.widgets.push(w1);
    let mut w2 = widget(7, WidgetKind::ComboBox);
    w2.props.items = vec!["Red".to_owned(), "Grün\nZeile".to_owned(), "".to_owned()];
    w2.props.selected = 2;
    w2.props.icon = "🖼️".to_owned();
    p.widgets.push(w2);
    p.panel_top_enabled = true;
    p.panel_right_enabled = true;
    p.canvas_w = 6400;
    p.canvas_h = 4800;
    p
}

fn assert_same_scene(a: &Project, b: &Project) {
    assert_eq!(a.canvas_w, b.canvas_w);
    assert_eq!(a.canvas_h, b.canvas_h);
    assert_eq!(a.panel_top_enabled, b.panel_top_enabled);
    assert_eq!(a.panel_bottom_enabled, b.panel_bottom_enabled);
    assert_eq!(a.panel_left_enabled, b.panel_left_enabled);
    assert_eq!(a.panel_right_enabled, b.panel_right_enabled);
    assert_eq!(a.widgets.len(), b.widgets.len());
    for (x, y) in a.widgets.iter().zip(b.widgets.iter()) {
        assert_eq!(x.id.value(), y.id.value());
        assert_eq!(x.kind, y.kind);
        assert_eq!((x.x, x.y, x.w, x.h, x.z), (y.x, y.y, y.w, y.h, y.z));
        assert_eq!(x.area, y.area);
        assert_eq!(x.props.text, y.props.text);
        assert_eq!(x.props.checked, y.props.checked);
        assert_eq!((x.props.value, x.props.min, x.props.max), (y.props.value, y.props.min, y.props.max));
        assert_eq!(x.props.items, y.props.items);
        assert_eq!(x.props.selected, y.props.selected);
        assert_eq!(x.props.url, y.props.url);
        assert_eq!((x.props.year, x.props.month, x.props.day), (y.props.year, y.props.month, y.props.day));
        assert_eq!(x.props.icon, y.props.icon);
    }
}

#[test]
fn roundtrip_reproduces_scene() {
    let p = sample_scene();
    let doc = encode(&p);
    let q = decode(&doc).expect("own encoding must decode");
    assert_same_scene(&p, &q);
}

#[test]
fn roundtrip_empty_scene() {
    let p = Project::default();
    let q = decode(&encode(&p)).expect("empty scene must round-trip");
    assert_same_scene(&p, &q);
}

#[test]
fn document_header_is_stable() {
    let doc = encode(&Project::default());
    assert!(doc.starts_with("radproject 1\ncanvas 12000 8000\npanels 0 0 0 0\nwidgets 0\n"));
}

#[test]
fn import_of_invalid_document_keeps_scene() {
    let mut p = Project::default();
    p.widgets.push(widget(1, WidgetKind::Button));
    p.widgets.push(widget(2, WidgetKind::Label));
    p.widgets.push(widget(9, WidgetKind::Tree));
    let kept = import_or_keep(p, "{ not the interchange format }");
    assert_eq!(kept.widgets.len(), 3);
    let ids: Vec<u64> = kept.widgets.iter().map(|w| w.id.value()).collect();
    assert_eq!(ids, vec![1, 2, 9]);
}

#[test]
fn import_of_valid_document_replaces_scene() {
    let current = Project::default();
    let incoming = sample_scene();
    let doc = encode(&incoming);
    let got = import_or_keep(current, &doc);
    assert_same_scene(&incoming, &got);
}

#[test]
fn decode_rejects_malformed_documents() {
    assert!(decode("").is_none());
    assert!(decode("radproject 1\ncanvas 12000").is_none());
    // widget count larger than the records present
    assert!(decode("radproject 1\ncanvas 0 0\npanels 0 0 0 0\nwidgets 2\n").is_none());
    // unknown kind tag
    assert!(decode("radproject 1\ncanvas 0 0\npanels 0 0 0 0\nwidgets 1\nwidget 1 99 0 0 0 0 0 0\n").is_none());
    // trailing garbage
    let mut doc = encode(&Project::default());
    doc.push_str("extra");
    assert!(decode(&doc).is_none());
}

#[test]
fn next_id_is_one_past_the_largest() {
    let mut p = Project::default();
    assert_eq!(next_widget_id(&p), 0);
    p.widgets.push(widget(3, WidgetKind::Button));
    p.widgets.push(widget(7, WidgetKind::Label));
    p.widgets.push(widget(5, WidgetKind::Link));
    assert_eq!(next_widget_id(&p), 8);
}

#[test]
fn handwritten_document_decodes() {
    let doc = "radproject 1\ncanvas 100 200\npanels 1 0 1 0\nwidgets 1\nwidget 5 1 10 20 30 40 5 5\nprops 0 500 0 1000 0 2024 1 1\ns 2 Hi\ns 0 \ns 1 X\nitems 2\ns 1 a\ns 1 b\n";
    let p = decode(doc).expect("grammar-conforming document must decode");
    assert_eq!((p.canvas_w, p.canvas_h), (100, 200));
    assert!(p.panel_top_enabled && !p.panel_bottom_enabled);
    assert!(p.panel_left_enabled && !p.panel_right_enabled);
    assert_eq!(p.widgets.len(), 1);
    let w = &p.widgets[0];
    assert_eq!(w.id.value(), 5);
    assert_eq!(w.kind, WidgetKind::Label);
    assert_eq!((w.x, w.y, w.w, w.h, w.z), (10, 20, 30, 40, 5));
    assert_eq!(w.area, DockArea::Center);
    assert_eq!(w.props.text, "Hi");
    assert_eq!(w.props.url, "");
    assert_eq!(w.props.icon, "X");
    assert_eq!(w.props.items, vec!["a".to_string(), "b".to_string()]);
}

#[test]
fn strings_with_embedded_newlines_roundtrip() {
    let mut p = Project::default();
    let mut w = widget(1, WidgetKind::Label);
    w.props.text = "line one\nline two\n".to_owned();
    p.widgets.push(w);
    let q = decode(&encode(&p)).expect("must decode");
    assert_eq!(q.widgets[0].props.text, "line one\nline two\n");
}
