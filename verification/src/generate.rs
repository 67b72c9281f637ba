//! The program assembler: walks the scene in a fixed order — header, state
//! record, default impl, one UI function bucketed by dock region, trailer —
//! and emits one complete program text. The output is a pure function of
//! the scene, so repeated generation is byte-identical.

use vstd::prelude::*;
use crate::scene::DockArea;
use crate::scene::Project;
use crate::scene::Widget;
use crate::scene::WidgetKind;
use crate::emit::field_text;
use crate::emit::stateful;
use crate::emit::init_text;
use crate::emit::push_field;
use crate::emit::push_init;
use crate::emit::push_stmt;
use crate::emit::stmt_text;
use crate::text::bool_str;
use crate::text::push_bool;
use crate::text::push_str;
use crate::text::push_tenths;
use crate::text::tenths_str;

verus! {

/// Whether any widget in the scene is a tree: only then is the shared
/// recursive rendering helper emitted, once per program.
pub open spec fn has_tree(ws: Seq<Widget>) -> bool {
    exists|i: int| 0 <= i < ws.len() && ws[i].kind == WidgetKind::Tree
}

/// The fixed program header, with the shared tree helper when needed.
pub open spec fn header_text(ws: Seq<Widget>) -> Seq<char> {
    if has_tree(ws) {
        "// --- generated by egui RAD GUI Builder ---\nuse eframe::egui;\nuse egui_extras::DatePickerButton;\nuse chrono::NaiveDate;\n\n"@
            + "#[derive(Clone)]\nstruct GenTreeNode { label: String, children: Vec<GenTreeNode> }\n\nfn gen_show_tree(ui: &mut egui::Ui, nodes: &[GenTreeNode]) {\n\tfor n in nodes {\n\t\tif n.children.is_empty() { ui.label(&n.label); }\n\t\telse { ui.collapsing(&n.label, |ui| gen_show_tree(ui, &n.children)); }\n\t}\n}\n\n"@
    } else {
        "// --- generated by egui RAD GUI Builder ---\nuse eframe::egui;\nuse egui_extras::DatePickerButton;\nuse chrono::NaiveDate;\n\n"@
    }
}

/// The state-field lines of all stateful widgets, in scene order.
pub open spec fn fields_text(ws: Seq<Widget>) -> Seq<char>
    decreases ws.len(),
{
    if ws.len() == 0 {
        Seq::<char>::empty()
    } else {
        fields_text(ws.drop_last()) + field_text(ws.last())
    }
}

/// The default-initializer lines of all stateful widgets, in scene order.
pub open spec fn inits_text(ws: Seq<Widget>) -> Seq<char>
    decreases ws.len(),
{
    if ws.len() == 0 {
        Seq::<char>::empty()
    } else {
        inits_text(ws.drop_last()) + init_text(ws.last())
    }
}

/// The generated state record: four region enable flags plus one field per
/// stateful widget.
pub open spec fn state_text(ws: Seq<Widget>) -> Seq<char> {
    "struct GeneratedState {\n"@
        + "    enable_top: bool, enable_bottom: bool, enable_left: bool, enable_right: bool,\n"@
        + fields_text(ws) + "}\n\n"@
}

/// The state record's default-construction block, mirroring the field order.
pub open spec fn default_text(p: Project) -> Seq<char> {
    "impl Default for GeneratedState {\n    fn default() -> Self {\n        Self {\n"@
        + "            enable_top: "@ + bool_str(p.panel_top_enabled) + ", enable_bottom: "@
        + bool_str(p.panel_bottom_enabled) + ", enable_left: "@ + bool_str(p.panel_left_enabled)
        + ", enable_right: "@ + bool_str(p.panel_right_enabled) + ",\n"@ + inits_text(p.widgets@)
        + "        }\n    }\n}\n\n"@
}

/// The construction statements of the widgets assigned to `area`, in scene
/// order, against that region's origin expression.
pub open spec fn stmts_area(ws: Seq<Widget>, area: DockArea, origin: Seq<char>) -> Seq<char>
    decreases ws.len(),
{
    if ws.len() == 0 {
        Seq::<char>::empty()
    } else {
        stmts_area(ws.drop_last(), area, origin) + if ws.last().area == area {
            stmt_text(ws.last(), origin)
        } else {
            Seq::<char>::empty()
        }
    }
}

/// The generated UI function: each docked region guarded by its enable
/// flag, the central canvas unconditional, with the free bucket placed in
/// the central canvas after the center bucket.
pub open spec fn ui_text(p: Project) -> Seq<char> {
    "fn generated_ui(ctx: &egui::Context, state: &mut GeneratedState) {\n"@
        + "    if state.enable_top {\n        egui::TopBottomPanel::top(\"gen_top\")\n            .resizable(true)\n            .show(ctx, |ui| {\n"@
        + stmts_area(p.widgets@, DockArea::Top, "ui.min_rect().min"@)
        + "            });\n    }\n"@
        + "    if state.enable_bottom {\n        egui::TopBottomPanel::bottom(\"gen_bottom\")\n            .resizable(true)\n            .show(ctx, |ui| {\n"@
        + stmts_area(p.widgets@, DockArea::Bottom, "ui.min_rect().min"@)
        + "            });\n    }\n"@
        + "    if state.enable_left {\n        egui::SidePanel::left(\"gen_left\")\n            .resizable(true)\n            .show(ctx, |ui| {\n"@
        + stmts_area(p.widgets@, DockArea::Left, "ui.min_rect().min"@)
        + "            });\n    }\n"@
        + "    if state.enable_right {\n        egui::SidePanel::right(\"gen_right\")\n            .resizable(true)\n            .show(ctx, |ui| {\n"@
        + stmts_area(p.widgets@, DockArea::Right, "ui.min_rect().min"@)
        + "            });\n    }\n"@
        + "    egui::CentralPanel::default().show(ctx, |ui| {\n        let canvas = egui::Rect::from_min_size(ui.min_rect().min, egui::vec2("@
        + tenths_str(p.canvas_w as int) + ", "@ + tenths_str(p.canvas_h as int)
        + "));\n        let _ = ui.allocate_painter(canvas.size(), egui::Sense::hover());\n"@
        + stmts_area(p.widgets@, DockArea::Center, "canvas.min"@)
        + stmts_area(p.widgets@, DockArea::Free, "canvas.min"@) + "    });\n"@ + "}\n\n"@
}

/// The fixed trailer: a minimal host application that constructs the state
/// and invokes the generated UI function every render cycle.
pub open spec fn trailer_text() -> Seq<char> {
    "pub struct GeneratedApp { state: GeneratedState }\nimpl Default for GeneratedApp { fn default() -> Self { Self { state: Default::default() } } }\nimpl eframe::App for GeneratedApp {\n\tfn update(&mut self, ctx: &egui::Context, _frame: &mut eframe::Frame) {\n\t\tgenerated_ui(ctx, &mut self.state);\n\t}\n}\n\nfn main() -> eframe::Result<()> {\n\tlet native_options = eframe::NativeOptions::default();\n\teframe::run_native(\"Generated UI\", native_options, Box::new(|_cc| Ok(Box::new(GeneratedApp::default()))))\n}\n"@
}

/// The complete program text generated from a scene.
pub open spec fn generate_spec(p: Project) -> Seq<char> {
    header_text(p.widgets@) + state_text(p.widgets@) + default_text(p) + ui_text(p)
        + trailer_text()
}

/// Whether the scene holds at least one tree widget.
fn scene_has_tree(ws: &Vec<Widget>) -> (r: bool)
    ensures
        r == has_tree(ws@),
{
    let mut i: usize = 0;
    while i < ws.len()
        invariant
            i <= ws@.len(),
            forall|k: int| 0 <= k < i ==> ws@[k].kind != WidgetKind::Tree,
        decreases ws@.len() - i,
    {
        if matches!(ws[i].kind, WidgetKind::Tree) {
            return true;
        }
        i = i + 1;
    }
    false
}

/// Appends the program header, with the shared tree helper only when some
/// tree widget exists.
fn push_header(out: &mut String, ws: &Vec<Widget>)
    ensures
        final(out)@ == old(out)@ + header_text(ws@),
{
    let ghost orig = out@;
    push_str(
        out,
        "// --- generated by egui RAD GUI Builder ---\nuse eframe::egui;\nuse egui_extras::DatePickerButton;\nuse chrono::NaiveDate;\n\n",
    );
    if scene_has_tree(ws) {
        push_str(
            out,
            "#[derive(Clone)]\nstruct GenTreeNode { label: String, children: Vec<GenTreeNode> }\n\nfn gen_show_tree(ui: &mut egui::Ui, nodes: &[GenTreeNode]) {\n\tfor n in nodes {\n\t\tif n.children.is_empty() { ui.label(&n.label); }\n\t\telse { ui.collapsing(&n.label, |ui| gen_show_tree(ui, &n.children)); }\n\t}\n}\n\n",
        );
    }
    proof {
        assert(out@ =~= orig + header_text(ws@));
    }
}

/// Appends the state record declaration.
fn push_state_struct(out: &mut String, ws: &Vec<Widget>)
    ensures
        final(out)@ == old(out)@ + state_text(ws@),
{
    let ghost orig = out@;
    push_str(out, "struct GeneratedState {\n");
    push_str(
        out,
        "    enable_top: bool, enable_bottom: bool, enable_left: bool, enable_right: bool,\n",
    );
    let ghost mid = out@;
    let mut i: usize = 0;
    while i < ws.len()
        invariant
            i <= ws@.len(),
            out@ == mid + fields_text(ws@.take(i as int)),
        decreases ws@.len() - i,
    {
        proof {
            assert(ws@.take(i + 1).drop_last() =~= ws@.take(i as int));
            assert(ws@.take(i + 1).last() == ws@[i as int]);
        }
        push_field(out, &ws[i]);
        proof {
            assert(out@ =~= mid + fields_text(ws@.take(i + 1)));
        }
        i = i + 1;
    }
    push_str(out, "}\n\n");
    proof {
        assert(ws@.take(ws@.len() as int) =~= ws@);
        assert(out@ =~= orig + state_text(ws@));
    }
}

/// Appends the default-construction block.
#[verifier::rlimit(60)]
fn push_default_impl(out: &mut String, p: &Project)
    ensures
        final(out)@ == old(out)@ + default_text(*p),
{
    let ghost orig = out@;
    push_str(out, "impl Default for GeneratedState {\n    fn default() -> Self {\n        Self {\n");
    push_str(out, "            enable_top: ");
    push_bool(out, p.panel_top_enabled);
    push_str(out, ", enable_bottom: ");
    push_bool(out, p.panel_bottom_enabled);
    push_str(out, ", enable_left: ");
    push_bool(out, p.panel_left_enabled);
    push_str(out, ", enable_right: ");
    push_bool(out, p.panel_right_enabled);
    push_str(out, ",\n");
    let ghost mid = out@;
    let ws = &p.widgets;
    let mut i: usize = 0;
    while i < ws.len()
        invariant
            i <= ws@.len(),
            out@ == mid + inits_text(ws@.take(i as int)),
        decreases ws@.len() - i,
    {
        proof {
            assert(ws@.take(i + 1).drop_last() =~= ws@.take(i as int));
            assert(ws@.take(i + 1).last() == ws@[i as int]);
        }
        push_init(out, &ws[i]);
        proof {
            assert(out@ =~= mid + inits_text(ws@.take(i + 1)));
        }
        i = i + 1;
    }
    push_str(out, "        }\n    }\n}\n\n");
    proof {
        assert(ws@.take(ws@.len() as int) =~= ws@);
        assert(out@ =~= orig + default_text(*p));
    }
}

/// Appends the construction statements of one region's bucket, in scene
/// order.
fn push_area_stmts(out: &mut String, ws: &Vec<Widget>, area: DockArea, origin: &str)
    ensures
        final(out)@ == old(out)@ + stmts_area(ws@, area, origin@),
{
    let ghost orig = out@;
    let mut i: usize = 0;
    while i < ws.len()
        invariant
            i <= ws@.len(),
            out@ == orig + stmts_area(ws@.take(i as int), area, origin@),
        decreases ws@.len() - i,
    {
        proof {
            assert(ws@.take(i + 1).drop_last() =~= ws@.take(i as int));
            assert(ws@.take(i + 1).last() == ws@[i as int]);
        }
        if ws[i].area == area {
            push_stmt(out, &ws[i], origin);
        }
        proof {
            assert(out@ =~= orig + stmts_area(ws@.take(i + 1), area, origin@));
        }
        i = i + 1;
    }
    proof {
        assert(ws@.take(ws@.len() as int) =~= ws@);
    }
}

/// Appends the generated UI function.
#[verifier::rlimit(100)]
#[verifier::spinoff_prover]
fn push_ui_fn(out: &mut String, p: &Project)
    ensures
        final(out)@ == old(out)@ + ui_text(*p),
{
    let ghost orig = out@;
    push_str(out, "fn generated_ui(ctx: &egui::Context, state: &mut GeneratedState) {\n");
    push_str(
        out,
        "    if state.enable_top {\n        egui::TopBottomPanel::top(\"gen_top\")\n            .resizable(true)\n            .show(ctx, |ui| {\n",
    );
    push_area_stmts(out, &p.widgets, DockArea::Top, "ui.min_rect().min");
    push_str(out, "            });\n    }\n");
    push_str(
        out,
        "    if state.enable_bottom {\n        egui::TopBottomPanel::bottom(\"gen_bottom\")\n            .resizable(true)\n            .show(ctx, |ui| {\n",
    );
    push_area_stmts(out, &p.widgets, DockArea::Bottom, "ui.min_rect().min");
    push_str(out, "            });\n    }\n");
    push_str(
        out,
        "    if state.enable_left {\n        egui::SidePanel::left(\"gen_left\")\n            .resizable(true)\n            .show(ctx, |ui| {\n",
    );
    push_area_stmts(out, &p.widgets, DockArea::Left, "ui.min_rect().min");
    push_str(out, "            });\n    }\n");
    push_str(
        out,
        "    if state.enable_right {\n        egui::SidePanel::right(\"gen_right\")\n            .resizable(true)\n            .show(ctx, |ui| {\n",
    );
    push_area_stmts(out, &p.widgets, DockArea::Right, "ui.min_rect().min");
    push_str(out, "            });\n    }\n");
    push_str(
        out,
        "    egui::CentralPanel::default().show(ctx, |ui| {\n        let canvas = egui::Rect::from_min_size(ui.min_rect().min, egui::vec2(",
    );
    push_tenths(out, p.canvas_w);
    push_str(out, ", ");
    push_tenths(out, p.canvas_h);
    push_str(
        out,
        "));\n        let _ = ui.allocate_painter(canvas.size(), egui::Sense::hover());\n",
    );
    push_area_stmts(out, &p.widgets, DockArea::Center, "canvas.min");
    push_area_stmts(out, &p.widgets, DockArea::Free, "canvas.min");
    push_str(out, "    });\n");
    push_str(out, "}\n\n");
    proof {
        assert(out@ =~= orig + ui_text(*p));
    }
}

/// Generates the complete, self-contained program text for a scene.
/// Generation is total — it succeeds for every scene, including an empty
/// one — and the result is exactly `generate_spec` of the scene, a pure
/// function of the scene alone.
pub fn generate(p: &Project) -> (r: String)
    ensures
        r@ == generate_spec(*p),
{
    let mut out = String::new();
    push_header(&mut out, &p.widgets);
    push_state_struct(&mut out, &p.widgets);
    push_default_impl(&mut out, p);
    push_ui_fn(&mut out, p);
    push_str(&mut out, "pub struct GeneratedApp { state: GeneratedState }\nimpl Default for GeneratedApp { fn default() -> Self { Self { state: Default::default() } } }\nimpl eframe::App for GeneratedApp {\n\tfn update(&mut self, ctx: &egui::Context, _frame: &mut eframe::Frame) {\n\t\tgenerated_ui(ctx, &mut self.state);\n\t}\n}\n\nfn main() -> eframe::Result<()> {\n\tlet native_options = eframe::NativeOptions::default();\n\teframe::run_native(\"Generated UI\", native_options, Box::new(|_cc| Ok(Box::new(GeneratedApp::default()))))\n}\n");
    proof {
        assert(out@ =~= generate_spec(*p));
    }
    out
}

/// Determinism: the generated text is a function of the scene alone, so
/// any two generation results for the same unmodified scene are
/// byte-identical.
pub proof fn lemma_generation_deterministic(p: Project, r1: Seq<char>, r2: Seq<char>)
    requires
        r1 == generate_spec(p),
        r2 == generate_spec(p),
    ensures
        r1 == r2,
{
}


/// The stateful widgets of the scene, in scene order.
pub open spec fn stateful_widgets(ws: Seq<Widget>) -> Seq<Widget> {
    ws.filter(|w: Widget| stateful(w.kind))
}

/// One state-field line per stateful widget, in scene order, each keyed by
/// that widget's id.
pub open spec fn field_lines(ws: Seq<Widget>) -> Seq<Seq<char>> {
    stateful_widgets(ws).map_values(|w: Widget| field_text(w))
}

/// One default-initializer line per stateful widget, mirroring
/// `field_lines` widget for widget.
pub open spec fn init_lines(ws: Seq<Widget>) -> Seq<Seq<char>> {
    stateful_widgets(ws).map_values(|w: Widget| init_text(w))
}

/// The widgets assigned to one dock region, in scene order.
pub open spec fn area_filter(ws: Seq<Widget>, a: DockArea) -> Seq<Widget> {
    ws.filter(|w: Widget| w.area == a)
}

/// All widgets in the order their construction statements are emitted:
/// bucket by bucket, scene order within each bucket.
pub open spec fn emission_order(ws: Seq<Widget>) -> Seq<Widget> {
    area_filter(ws, DockArea::Top) + area_filter(ws, DockArea::Bottom) + area_filter(
        ws,
        DockArea::Left,
    ) + area_filter(ws, DockArea::Right) + area_filter(ws, DockArea::Center) + area_filter(
        ws,
        DockArea::Free,
    )
}

/// One construction statement per widget of the bucket, in scene order.
pub open spec fn stmt_lines(ws: Seq<Widget>, a: DockArea, origin: Seq<char>) -> Seq<Seq<char>> {
    area_filter(ws, a).map_values(|w: Widget| stmt_text(w, origin))
}

/// The lines joined back into one text.
pub open spec fn texts_concat(ts: Seq<Seq<char>>) -> Seq<char>
    decreases ts.len(),
{
    if ts.len() == 0 {
        Seq::<char>::empty()
    } else {
        texts_concat(ts.drop_last()) + ts.last()
    }
}

/// A stateless kind has no field line and no initializer line.
proof fn lemma_stateless_empty(w: Widget)
    requires
        !stateful(w.kind),
    ensures
        field_text(w) == Seq::<char>::empty(),
        init_text(w) == Seq::<char>::empty(),
{
}

/// Completeness of the state record: the emitted field block is exactly one
/// field line per stateful widget, and the default block exactly one
/// initializer line for the same widgets in the same order — so each
/// stateful widget gets exactly one field and one matching initializer,
/// both keyed by its id.
pub proof fn lemma_state_completeness(ws: Seq<Widget>)
    ensures
        fields_text(ws) == texts_concat(field_lines(ws)),
        inits_text(ws) == texts_concat(init_lines(ws)),
        field_lines(ws).len() == stateful_widgets(ws).len(),
        init_lines(ws).len() == stateful_widgets(ws).len(),
        forall|i: int|
            0 <= i < stateful_widgets(ws).len() ==> #[trigger] field_lines(ws)[i] == field_text(
                stateful_widgets(ws)[i],
            ) && init_lines(ws)[i] == init_text(stateful_widgets(ws)[i]),
    decreases ws.len(),
{
    reveal(Seq::filter);
    if ws.len() > 0 {
        let pre = ws.drop_last();
        let w = ws.last();
        lemma_state_completeness(pre);
        if stateful(w.kind) {
            assert(stateful_widgets(ws) == stateful_widgets(pre).push(w));
            assert(field_lines(ws) =~= field_lines(pre).push(field_text(w)));
            assert(init_lines(ws) =~= init_lines(pre).push(init_text(w)));
            assert(field_lines(ws).drop_last() =~= field_lines(pre));
            assert(init_lines(ws).drop_last() =~= init_lines(pre));
        } else {
            assert(stateful_widgets(ws) == stateful_widgets(pre));
            lemma_stateless_empty(w);
            assert(field_lines(ws) =~= field_lines(pre));
            assert(init_lines(ws) =~= init_lines(pre));
            assert(fields_text(ws) =~= texts_concat(field_lines(ws)));
            assert(inits_text(ws) =~= texts_concat(init_lines(ws)));
        }
    }
}

/// Completeness of one region's body: the emitted statements are exactly
/// one construction statement per widget assigned to that region, in scene
/// order.
pub proof fn lemma_construction_completeness(ws: Seq<Widget>, a: DockArea, origin: Seq<char>)
    ensures
        stmts_area(ws, a, origin) == texts_concat(stmt_lines(ws, a, origin)),
        stmt_lines(ws, a, origin).len() == area_filter(ws, a).len(),
        forall|i: int|
            0 <= i < area_filter(ws, a).len() ==> #[trigger] stmt_lines(ws, a, origin)[i]
                == stmt_text(area_filter(ws, a)[i], origin),
    decreases ws.len(),
{
    reveal(Seq::filter);
    if ws.len() > 0 {
        let pre = ws.drop_last();
        let w = ws.last();
        lemma_construction_completeness(pre, a, origin);
        if w.area == a {
            assert(area_filter(ws, a) == area_filter(pre, a).push(w));
            assert(stmt_lines(ws, a, origin) =~= stmt_lines(pre, a, origin).push(
                stmt_text(w, origin),
            ));
            assert(stmt_lines(ws, a, origin).drop_last() =~= stmt_lines(pre, a, origin));
        } else {
            assert(area_filter(ws, a) == area_filter(pre, a));
            assert(stmt_lines(ws, a, origin) =~= stmt_lines(pre, a, origin));
            assert(stmts_area(ws, a, origin) =~= texts_concat(stmt_lines(ws, a, origin)));
        }
    }
}

/// The six region buckets partition the scene: taken together they hold
/// every widget instance exactly once.
pub proof fn lemma_emission_partition(ws: Seq<Widget>)
    ensures
        emission_order(ws).to_multiset() == ws.to_multiset(),
    decreases ws.len(),
{
    broadcast use vstd::seq_lib::lemma_multiset_commutative;
    broadcast use vstd::seq_lib::group_to_multiset_ensures;

    reveal(Seq::filter);
    if ws.len() == 0 {
        assert(area_filter(ws, DockArea::Top) == ws);
        assert(emission_order(ws) =~= ws);
    } else {
        let pre = ws.drop_last();
        let w = ws.last();
        lemma_emission_partition(pre);
        assert(ws == pre.push(w));
        assert(ws.to_multiset() == pre.to_multiset().insert(w));
        let f1 = area_filter(pre, DockArea::Top);
        let f2 = area_filter(pre, DockArea::Bottom);
        let f3 = area_filter(pre, DockArea::Left);
        let f4 = area_filter(pre, DockArea::Right);
        let f5 = area_filter(pre, DockArea::Center);
        let f6 = area_filter(pre, DockArea::Free);
        let g1 = area_filter(ws, DockArea::Top);
        let g2 = area_filter(ws, DockArea::Bottom);
        let g3 = area_filter(ws, DockArea::Left);
        let g4 = area_filter(ws, DockArea::Right);
        let g5 = area_filter(ws, DockArea::Center);
        let g6 = area_filter(ws, DockArea::Free);
        assert(emission_order(pre).to_multiset() == f1.to_multiset().add(f2.to_multiset()).add(
            f3.to_multiset(),
        ).add(f4.to_multiset()).add(f5.to_multiset()).add(f6.to_multiset()));
        assert(emission_order(ws).to_multiset() == g1.to_multiset().add(g2.to_multiset()).add(
            g3.to_multiset(),
        ).add(g4.to_multiset()).add(g5.to_multiset()).add(g6.to_multiset()));
        match w.area {
            DockArea::Top => {
                assert(g1 == f1.push(w) && g2 == f2 && g3 == f3 && g4 == f4 && g5 == f5 && g6
                    == f6);
                assert(g1.to_multiset() == f1.to_multiset().insert(w));
            },
            DockArea::Bottom => {
                assert(g2 == f2.push(w) && g1 == f1 && g3 == f3 && g4 == f4 && g5 == f5 && g6
                    == f6);
                assert(g2.to_multiset() == f2.to_multiset().insert(w));
            },
            DockArea::Left => {
                assert(g3 == f3.push(w) && g1 == f1 && g2 == f2 && g4 == f4 && g5 == f5 && g6
                    == f6);
                assert(g3.to_multiset() == f3.to_multiset().insert(w));
            },
            DockArea::Right => {
                assert(g4 == f4.push(w) && g1 == f1 && g2 == f2 && g3 == f3 && g5 == f5 && g6
                    == f6);
                assert(g4.to_multiset() == f4.to_multiset().insert(w));
            },
            DockArea::Center => {
                assert(g5 == f5.push(w) && g1 == f1 && g2 == f2 && g3 == f3 && g4 == f4 && g6
                    == f6);
                assert(g5.to_multiset() == f5.to_multiset().insert(w));
            },
            DockArea::Free => {
                assert(g6 == f6.push(w) && g1 == f1 && g2 == f2 && g3 == f3 && g4 == f4 && g5
                    == f5);
                assert(g6.to_multiset() == f6.to_multiset().insert(w));
            },
        }
        assert(emission_order(ws).to_multiset() =~= ws.to_multiset());
    }
}

} // verus!
