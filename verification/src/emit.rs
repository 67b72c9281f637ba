//! Per-widget-kind code emission: each widget yields up to three pieces of
//! text — a state field, a default initializer, and a construction
//! statement — each pinned down exactly by a spec function.

use vstd::prelude::*;
use crate::scene::Widget;
use crate::scene::WidgetKind;
use crate::scene::sel_default;
use crate::text::bool_str;
use crate::text::escaped;
use crate::text::int_digits;
use crate::text::milli_str;
use crate::text::push_bool;
use crate::text::push_escaped;
use crate::text::push_i64;
use crate::text::push_milli;
use crate::text::push_str;
use crate::text::push_tenths;
use crate::text::push_u64;
use crate::text::tenths_str;
use crate::text::u64_digits;
use crate::tree::forest_items_text;
use crate::tree::push_forest_literal;
use crate::tree::parse_tree_items;
use crate::tree::tree_forest_spec;

verus! {

/// The decimal digits of a widget's id, the suffix of every generated
/// identifier that belongs to it.
pub open spec fn id_digits(w: Widget) -> Seq<char> {
    u64_digits(w.id.0 as nat)
}

/// Whether a widget kind owns a state field in the generated program.
pub open spec fn stateful(kind: WidgetKind) -> bool {
    match kind {
        WidgetKind::TextEdit => true,
        WidgetKind::Checkbox => true,
        WidgetKind::Slider => true,
        WidgetKind::ProgressBar => true,
        WidgetKind::SelectableLabel => true,
        WidgetKind::RadioGroup => true,
        WidgetKind::ComboBox => true,
        WidgetKind::MenuButton => true,
        WidgetKind::CollapsingHeader => true,
        WidgetKind::DatePicker => true,
        WidgetKind::Password => true,
        WidgetKind::AngleSelector => true,
        _ => false,
    }
}

/// A stored month normalized into `[1, 12]` at the point of use.
pub open spec fn month_clamped(m: nat) -> nat {
    if m < 1 {
        1
    } else if m > 12 {
        12
    } else {
        m
    }
}

/// A stored day normalized into `[1, 28]` at the point of use — the
/// deliberately conservative clamp that avoids invalid dates in every month.
pub open spec fn day_clamped(d: nat) -> nat {
    if d < 1 {
        1
    } else if d > 28 {
        28
    } else {
        d
    }
}

/// A progress value (in thousandths) clamped to the unit interval.
pub open spec fn progress_clamped(v: int) -> int {
    if v < 0 {
        0
    } else if v > 1000 {
        1000
    } else {
        v
    }
}

/// The state-field declaration line of a widget, empty for stateless kinds.
pub open spec fn field_text(w: Widget) -> Seq<char> {
    match w.kind {
        WidgetKind::TextEdit => "    text_"@ + id_digits(w) + ": String,\n"@,
        WidgetKind::Checkbox => "    checked_"@ + id_digits(w) + ": bool,\n"@,
        WidgetKind::Slider => "    value_"@ + id_digits(w) + ": f32,\n"@,
        WidgetKind::ProgressBar => "    progress_"@ + id_digits(w) + ": f32,\n"@,
        WidgetKind::SelectableLabel => "    sel_"@ + id_digits(w) + ": bool,\n"@,
        WidgetKind::RadioGroup => "    sel_"@ + id_digits(w) + ": usize,\n"@,
        WidgetKind::ComboBox => "    sel_"@ + id_digits(w) + ": usize,\n"@,
        WidgetKind::MenuButton => "    sel_"@ + id_digits(w) + ": usize,\n"@,
        WidgetKind::CollapsingHeader => "    open_"@ + id_digits(w) + ": bool,\n"@,
        WidgetKind::DatePicker => "    date_"@ + id_digits(w) + ": NaiveDate,\n"@,
        WidgetKind::Password => "    pass_"@ + id_digits(w) + ": String,\n"@,
        WidgetKind::AngleSelector => "    angle_"@ + id_digits(w) + ": f32,\n"@,
        _ => Seq::<char>::empty(),
    }
}

/// The default-initializer line of a widget, empty for stateless kinds.
/// List selections are clamped into range (zero for an empty list), the
/// progress value into the unit interval, and the date into safe bounds.
pub open spec fn init_text(w: Widget) -> Seq<char> {
    match w.kind {
        WidgetKind::TextEdit => "            text_"@ + id_digits(w) + ": \""@ + escaped(
            w.props.text@,
        ) + "\".to_owned(),\n"@,
        WidgetKind::Checkbox => "            checked_"@ + id_digits(w) + ": "@ + bool_str(
            w.props.checked,
        ) + ",\n"@,
        WidgetKind::Slider => "            value_"@ + id_digits(w) + ": "@ + milli_str(
            w.props.value as int,
        ) + ",\n"@,
        WidgetKind::ProgressBar => "            progress_"@ + id_digits(w) + ": "@ + milli_str(
            progress_clamped(w.props.value as int),
        ) + ",\n"@,
        WidgetKind::SelectableLabel => "            sel_"@ + id_digits(w) + ": "@ + bool_str(
            w.props.checked,
        ) + ",\n"@,
        WidgetKind::RadioGroup => sel_init_text(w),
        WidgetKind::ComboBox => sel_init_text(w),
        WidgetKind::MenuButton => sel_init_text(w),
        WidgetKind::CollapsingHeader => "            open_"@ + id_digits(w) + ": "@ + bool_str(
            w.props.checked,
        ) + ",\n"@,
        WidgetKind::DatePicker => "            date_"@ + id_digits(w)
            + ": NaiveDate::from_ymd_opt("@ + int_digits(w.props.year as int) + ", "@ + u64_digits(
            month_clamped(w.props.month as nat),
        ) + ", "@ + u64_digits(day_clamped(w.props.day as nat)) + ").unwrap(),\n"@,
        WidgetKind::Password => "            pass_"@ + id_digits(w) + ": \""@ + escaped(
            w.props.text@,
        ) + "\".to_owned(),\n"@,
        WidgetKind::AngleSelector => "            angle_"@ + id_digits(w) + ": "@ + milli_str(
            w.props.value as int,
        ) + ",\n"@,
        _ => Seq::<char>::empty(),
    }
}

/// The initializer line of a list-backed selection: the stored index clamped
/// to the item count, zero when the list is empty.
pub open spec fn sel_init_text(w: Widget) -> Seq<char> {
    "            sel_"@ + id_digits(w) + ": "@ + u64_digits(
        sel_default(w.props.items@.len(), w.props.selected as nat),
    ) + ",\n"@
}

/// The opening of every construction statement: a fixed-size sub-region at
/// the region origin offset by the widget's position.
pub open spec fn scope_prefix(origin: Seq<char>, x: int, y: int, w: int, h: int) -> Seq<char> {
    "    ui.scope_builder(egui::UiBuilder::new().max_rect(egui::Rect::from_min_size("@ + origin
        + " + egui::vec2("@ + tenths_str(x) + ","@ + tenths_str(y) + "), egui::vec2("@ + tenths_str(
        w,
    ) + ","@ + tenths_str(h) + "))), |ui| {"@
}

/// A list embedded as an inline sequence of escaped string literals; an
/// empty list falls back to a single placeholder item.
pub open spec fn items_code(items: Seq<Seq<char>>) -> Seq<char> {
    if items.len() == 0 {
        "\"Item\".to_string()"@
    } else {
        items_join(items)
    }
}

pub open spec fn items_join(items: Seq<Seq<char>>) -> Seq<char>
    decreases items.len(),
{
    if items.len() == 0 {
        Seq::<char>::empty()
    } else if items.len() == 1 {
        item_literal(items[0])
    } else {
        items_join(items.drop_last()) + ", "@ + item_literal(items.last())
    }
}

pub open spec fn item_literal(s: Seq<char>) -> Seq<char> {
    "\""@ + escaped(s) + "\".to_string()"@
}

/// The construction statement of a widget against its region's origin
/// expression.
pub open spec fn stmt_text(w: Widget, origin: Seq<char>) -> Seq<char> {
    let pre = scope_prefix(origin, w.x as int, w.y as int, w.w as int, w.h as int);
    match w.kind {
        WidgetKind::MenuButton => pre + "\n        let items = vec!["@ + items_code(
            w.props.items.deep_view(),
        ) + "];\n        ui.menu_button(\""@ + escaped(w.props.text@)
            + "\", |ui| {\n            for (i, it) in items.iter().enumerate() { if ui.button(it).clicked() { state.sel_"@
            + id_digits(w)
            + " = i; ui.close_kind(egui::UiKind::Menu); } }\n        });\n    });\n"@,
        WidgetKind::Label => pre + " ui.label(\""@ + escaped(w.props.text@) + "\"); });\n"@,
        WidgetKind::Button => pre + " ui.add_sized(egui::vec2("@ + tenths_str(w.w as int) + ","@
            + tenths_str(w.h as int) + "), egui::Button::new(\""@ + escaped(w.props.text@)
            + "\")); });\n"@,
        WidgetKind::ImageTextButton => pre + " ui.add_sized(egui::vec2("@ + tenths_str(w.w as int)
            + ","@ + tenths_str(w.h as int) + "), egui::Button::new(format!(\"{}  {}\", \""@
            + escaped(w.props.icon@) + "\", \""@ + escaped(w.props.text@) + "\")) ); });\n"@,
        WidgetKind::Checkbox => pre + " ui.checkbox(&mut state.checked_"@ + id_digits(w) + ", \""@
            + escaped(w.props.text@) + "\"); });\n"@,
        WidgetKind::TextEdit => pre + " ui.add_sized(egui::vec2("@ + tenths_str(w.w as int) + ","@
            + tenths_str(w.h as int) + "), egui::TextEdit::singleline(&mut state.text_"@
            + id_digits(w) + ").hint_text(\""@ + escaped(w.props.text@) + "\")); });\n"@,
        WidgetKind::Slider => pre + " ui.add_sized(egui::vec2("@ + tenths_str(w.w as int) + ","@
            + tenths_str(w.h as int) + "), egui::Slider::new(&mut state.value_"@ + id_digits(w)
            + ", "@ + milli_str(w.props.min as int) + "..="@ + milli_str(w.props.max as int)
            + ").text(\""@ + escaped(w.props.text@) + "\")); });\n"@,
        WidgetKind::ProgressBar => pre + " ui.add_sized(egui::vec2("@ + tenths_str(w.w as int)
            + ","@ + tenths_str(w.h as int) + "), egui::ProgressBar::new(state.progress_"@
            + id_digits(w) + ").show_percentage()); });\n"@,
        WidgetKind::RadioGroup => pre + "\n        let items = vec!["@ + items_code(
            w.props.items.deep_view(),
        )
            + "];\n        for (i, it) in items.iter().enumerate() { if ui.add(egui::RadioButton::new(state.sel_"@
            + id_digits(w) + " == i, it)).clicked() { state.sel_"@ + id_digits(w)
            + " = i; } }\n    });\n"@,
        WidgetKind::Link => pre + " ui.link(\""@ + escaped(w.props.text@) + "\"); });\n"@,
        WidgetKind::Hyperlink => pre + " ui.hyperlink_to(\""@ + escaped(w.props.text@) + "\", \""@
            + escaped(w.props.url@) + "\"); });\n"@,
        WidgetKind::SelectableLabel => pre + " if ui.add(egui::Button::selectable(state.sel_"@
            + id_digits(w) + ", \""@ + escaped(w.props.text@)
            + "\")).clicked() { state.sel_"@ + id_digits(w) + " = !state.sel_"@ + id_digits(w)
            + "; } });\n"@,
        WidgetKind::ComboBox => pre + "\n        let items = vec!["@ + items_code(
            w.props.items.deep_view(),
        ) + "];\n        egui::ComboBox::from_id_source("@ + id_digits(w)
            + ")\n            .width("@ + tenths_str(w.w as int)
            + ")\n            .selected_text(items.get(state.sel_"@ + id_digits(w)
            + ").cloned().unwrap_or_else(|| \"\".to_string()))\n            .show_ui(ui, |ui| {\n                for (i, it) in items.iter().enumerate() { ui.selectable_value(&mut state.sel_"@
            + id_digits(w) + ", i, it.clone()); }\n            });\n    });\n"@,
        WidgetKind::Separator => pre + " ui.separator(); });\n"@,
        WidgetKind::CollapsingHeader => pre + " egui::CollapsingHeader::new(\""@ + escaped(
            w.props.text@,
        ) + "\").default_open(state.open_"@ + id_digits(w)
            + ").show(ui, |ui| { ui.label(\"… place your inner content here …\"); }); });\n"@,
        WidgetKind::DatePicker => pre + " ui.horizontal(|ui| { ui.label(\""@ + escaped(
            w.props.text@,
        ) + "\"); ui.add(DatePickerButton::new(&mut state.date_"@ + id_digits(w)
            + ")); }); });\n"@,
        WidgetKind::Password => pre + " ui.add_sized(egui::vec2("@ + tenths_str(w.w as int) + ","@
            + tenths_str(w.h as int) + "), egui::TextEdit::singleline(&mut state.pass_"@
            + id_digits(w) + ").password(true).hint_text(\"password\") ); });\n"@,
        WidgetKind::AngleSelector => pre + " ui.add_sized(egui::vec2("@ + tenths_str(w.w as int)
            + ","@ + tenths_str(w.h as int) + "), egui::Slider::new(&mut state.angle_"@
            + id_digits(w) + ", "@ + milli_str(w.props.min as int) + "..="@ + milli_str(
            w.props.max as int,
        ) + ").suffix(\"°\").text(\""@ + escaped(w.props.text@) + "\") ); });\n"@,
        WidgetKind::Tree => pre + " let nodes: Vec<GenTreeNode> = "@ + ("vec!["@
            + forest_items_text(tree_forest_spec(w.props.items.deep_view())) + "]"@)
            + "; egui::ScrollArea::vertical().auto_shrink([false,false]).show(ui, |ui| { gen_show_tree(ui, &nodes); }); });\n"@,
    }
}

/// Appends the id digits of `w`.
fn push_id(out: &mut String, w: &Widget)
    ensures
        final(out)@ == old(out)@ + id_digits(*w),
{
    push_u64(out, w.id.0);
}

/// Appends the state-field declaration of `w`, if its kind has one.
pub fn push_field(out: &mut String, w: &Widget)
    ensures
        final(out)@ == old(out)@ + field_text(*w),
{
    let ghost orig = out@;
    match w.kind {
        WidgetKind::TextEdit => {
            push_str(out, "    text_");
            push_id(out, w);
            push_str(out, ": String,\n");
        },
        WidgetKind::Checkbox => {
            push_str(out, "    checked_");
            push_id(out, w);
            push_str(out, ": bool,\n");
        },
        WidgetKind::Slider => {
            push_str(out, "    value_");
            push_id(out, w);
            push_str(out, ": f32,\n");
        },
        WidgetKind::ProgressBar => {
            push_str(out, "    progress_");
            push_id(out, w);
            push_str(out, ": f32,\n");
        },
        WidgetKind::SelectableLabel => {
            push_str(out, "    sel_");
            push_id(out, w);
            push_str(out, ": bool,\n");
        },
        WidgetKind::RadioGroup | WidgetKind::ComboBox | WidgetKind::MenuButton => {
            push_str(out, "    sel_");
            push_id(out, w);
            push_str(out, ": usize,\n");
        },
        WidgetKind::CollapsingHeader => {
            push_str(out, "    open_");
            push_id(out, w);
            push_str(out, ": bool,\n");
        },
        WidgetKind::DatePicker => {
            push_str(out, "    date_");
            push_id(out, w);
            push_str(out, ": NaiveDate,\n");
        },
        WidgetKind::Password => {
            push_str(out, "    pass_");
            push_id(out, w);
            push_str(out, ": String,\n");
        },
        WidgetKind::AngleSelector => {
            push_str(out, "    angle_");
            push_id(out, w);
            push_str(out, ": f32,\n");
        },
        _ => {},
    }
    proof {
        assert(out@ =~= orig + field_text(*w));
    }
}

/// The clamped selection index of a list-backed widget, as emitted.
pub fn selected_index(w: &Widget) -> (r: u64)
    ensures
        r as nat == sel_default(w.props.items@.len(), w.props.selected as nat),
{
    let n = w.props.items.len();
    if n == 0 {
        0
    } else if w.props.selected < n as u64 {
        w.props.selected
    } else {
        n as u64 - 1
    }
}

/// Appends the default-initializer line of `w`, if its kind has one.
#[verifier::rlimit(60)]
pub fn push_init(out: &mut String, w: &Widget)
    ensures
        final(out)@ == old(out)@ + init_text(*w),
{
    let ghost orig = out@;
    match w.kind {
        WidgetKind::TextEdit => {
            push_str(out, "            text_");
            push_id(out, w);
            push_str(out, ": \"");
            push_escaped(out, w.props.text.as_str());
            push_str(out, "\".to_owned(),\n");
        },
        WidgetKind::Checkbox => {
            push_str(out, "            checked_");
            push_id(out, w);
            push_str(out, ": ");
            push_bool(out, w.props.checked);
            push_str(out, ",\n");
        },
        WidgetKind::Slider => {
            push_str(out, "            value_");
            push_id(out, w);
            push_str(out, ": ");
            push_milli(out, w.props.value);
            push_str(out, ",\n");
        },
        WidgetKind::ProgressBar => {
            push_str(out, "            progress_");
            push_id(out, w);
            push_str(out, ": ");
            let p: i64 = if w.props.value < 0 {
                0
            } else if w.props.value > 1000 {
                1000
            } else {
                w.props.value
            };
            push_milli(out, p);
            push_str(out, ",\n");
        },
        WidgetKind::SelectableLabel => {
            push_str(out, "            sel_");
            push_id(out, w);
            push_str(out, ": ");
            push_bool(out, w.props.checked);
            push_str(out, ",\n");
        },
        WidgetKind::RadioGroup | WidgetKind::ComboBox | WidgetKind::MenuButton => {
            push_str(out, "            sel_");
            push_id(out, w);
            push_str(out, ": ");
            let sel = selected_index(w);
            push_u64(out, sel);
            push_str(out, ",\n");
        },
        WidgetKind::CollapsingHeader => {
            push_str(out, "            open_");
            push_id(out, w);
            push_str(out, ": ");
            push_bool(out, w.props.checked);
            push_str(out, ",\n");
        },
        WidgetKind::DatePicker => {
            push_str(out, "            date_");
            push_id(out, w);
            push_str(out, ": NaiveDate::from_ymd_opt(");
            push_i64(out, w.props.year);
            push_str(out, ", ");
            let m: u32 = if w.props.month < 1 {
                1
            } else if w.props.month > 12 {
                12
            } else {
                w.props.month
            };
            push_u64(out, m as u64);
            push_str(out, ", ");
            let d: u32 = if w.props.day < 1 {
                1
            } else if w.props.day > 28 {
                28
            } else {
                w.props.day
            };
            push_u64(out, d as u64);
            push_str(out, ").unwrap(),\n");
        },
        WidgetKind::Password => {
            push_str(out, "            pass_");
            push_id(out, w);
            push_str(out, ": \"");
            push_escaped(out, w.props.text.as_str());
            push_str(out, "\".to_owned(),\n");
        },
        WidgetKind::AngleSelector => {
            push_str(out, "            angle_");
            push_id(out, w);
            push_str(out, ": ");
            push_milli(out, w.props.value);
            push_str(out, ",\n");
        },
        _ => {},
    }
    proof {
        assert(out@ =~= orig + init_text(*w));
    }
}

/// Appends the shared statement opening for `w` against `origin`.
fn push_scope_prefix(out: &mut String, w: &Widget, origin: &str)
    ensures
        final(out)@ == old(out)@ + scope_prefix(
            origin@,
            w.x as int,
            w.y as int,
            w.w as int,
            w.h as int,
        ),
{
    let ghost orig = out@;
    push_str(
        out,
        "    ui.scope_builder(egui::UiBuilder::new().max_rect(egui::Rect::from_min_size(",
    );
    push_str(out, origin);
    push_str(out, " + egui::vec2(");
    push_tenths(out, w.x);
    push_str(out, ",");
    push_tenths(out, w.y);
    push_str(out, "), egui::vec2(");
    push_tenths(out, w.w);
    push_str(out, ",");
    push_tenths(out, w.h);
    push_str(out, "))), |ui| {");
    proof {
        assert(out@ =~= orig + scope_prefix(
            origin@,
            w.x as int,
            w.y as int,
            w.w as int,
            w.h as int,
        ));
    }
}

/// Appends the inline item-list literal for `items`.
fn push_items_code(out: &mut String, items: &Vec<String>)
    ensures
        final(out)@ == old(out)@ + items_code(items.deep_view()),
{
    let ghost orig = out@;
    let ghost iv = items.deep_view();
    if items.len() == 0 {
        push_str(out, "\"Item\".to_string()");
        proof {
            assert(out@ =~= orig + items_code(iv));
        }
        return ;
    }
    let mut i: usize = 0;
    while i < items.len()
        invariant
            0 < items@.len(),
            i <= items@.len(),
            iv == items.deep_view(),
            iv.len() == items@.len(),
            out@ == orig + items_join(iv.take(i as int)),
        decreases items@.len() - i,
    {
        proof {
            assert(iv.take(i + 1).drop_last() =~= iv.take(i as int));
            assert(iv.take(i + 1).last() == iv[i as int]);
            assert(iv[i as int] == items@[i as int]@);
        }
        if i > 0 {
            push_str(out, ", ");
        }
        push_str(out, "\"");
        push_escaped(out, items[i].as_str());
        push_str(out, "\".to_string()");
        proof {
            assert(out@ =~= orig + items_join(iv.take(i + 1)));
        }
        i = i + 1;
    }
    proof {
        assert(iv.take(items@.len() as int) =~= iv);
    }
}

/// Appends the construction statement of `w` at `origin`: the statement
/// allocates the widget's sub-region and binds interactive kinds to their
/// state fields by mutable reference.
pub fn push_stmt(out: &mut String, w: &Widget, origin: &str)
    ensures
        final(out)@ == old(out)@ + stmt_text(*w, origin@),
{
    match w.kind {
        WidgetKind::MenuButton | WidgetKind::RadioGroup | WidgetKind::ComboBox => {
            push_stmt_lists(out, w, origin);
        },
        WidgetKind::Label | WidgetKind::Button | WidgetKind::ImageTextButton
            | WidgetKind::Checkbox | WidgetKind::TextEdit | WidgetKind::Slider
            | WidgetKind::ProgressBar => {
            push_stmt_basic(out, w, origin);
        },
        WidgetKind::Password | WidgetKind::AngleSelector | WidgetKind::Tree => {
            push_stmt_bound(out, w, origin);
        },
        _ => {
            push_stmt_other(out, w, origin);
        },
    }
}

/// The construction statements whose kinds embed an inline item list.
#[verifier::rlimit(100)]
fn push_stmt_lists(out: &mut String, w: &Widget, origin: &str)
    requires
        w.kind == WidgetKind::MenuButton || w.kind == WidgetKind::RadioGroup || w.kind == WidgetKind::ComboBox,
    ensures
        final(out)@ == old(out)@ + stmt_text(*w, origin@),
{
    let ghost orig = out@;
    push_scope_prefix(out, w, origin);
    match w.kind {
        WidgetKind::MenuButton => {
            push_str(out, "\n        let items = vec![");
            push_items_code(out, &w.props.items);
            push_str(out, "];\n        ui.menu_button(\"");
            push_escaped(out, w.props.text.as_str());
            push_str(
                out,
                "\", |ui| {\n            for (i, it) in items.iter().enumerate() { if ui.button(it).clicked() { state.sel_",
            );
            push_id(out, w);
            push_str(out, " = i; ui.close_kind(egui::UiKind::Menu); } }\n        });\n    });\n");
            proof {
                assert(out@ =~= orig + stmt_text(*w, origin@));
            }
        },
        WidgetKind::RadioGroup => {
            push_str(out, "\n        let items = vec![");
            push_items_code(out, &w.props.items);
            push_str(
                out,
                "];\n        for (i, it) in items.iter().enumerate() { if ui.add(egui::RadioButton::new(state.sel_",
            );
            push_id(out, w);
            push_str(out, " == i, it)).clicked() { state.sel_");
            push_id(out, w);
            push_str(out, " = i; } }\n    });\n");
            proof {
                assert(out@ =~= orig + stmt_text(*w, origin@));
            }
        },
        WidgetKind::ComboBox => {
            push_str(out, "\n        let items = vec![");
            push_items_code(out, &w.props.items);
            push_str(out, "];\n        egui::ComboBox::from_id_source(");
            push_id(out, w);
            push_str(out, ")\n            .width(");
            push_tenths(out, w.w);
            push_str(out, ")\n            .selected_text(items.get(state.sel_");
            push_id(out, w);
            push_str(
                out,
                ").cloned().unwrap_or_else(|| \"\".to_string()))\n            .show_ui(ui, |ui| {\n                for (i, it) in items.iter().enumerate() { ui.selectable_value(&mut state.sel_",
            );
            push_id(out, w);
            push_str(out, ", i, it.clone()); }\n            });\n    });\n");
            proof {
                assert(out@ =~= orig + stmt_text(*w, origin@));
            }
        },
        _ => {
            proof {
                assert(false);
            }
        },
    }
}

/// The construction statements of the simple labelled and sized kinds.
#[verifier::rlimit(100)]
fn push_stmt_basic(out: &mut String, w: &Widget, origin: &str)
    requires
        w.kind == WidgetKind::Label || w.kind == WidgetKind::Button || w.kind == WidgetKind::ImageTextButton || w.kind == WidgetKind::Checkbox || w.kind == WidgetKind::TextEdit || w.kind == WidgetKind::Slider || w.kind == WidgetKind::ProgressBar,
    ensures
        final(out)@ == old(out)@ + stmt_text(*w, origin@),
{
    let ghost orig = out@;
    push_scope_prefix(out, w, origin);
    match w.kind {
        WidgetKind::Label => {
            push_str(out, " ui.label(\"");
            push_escaped(out, w.props.text.as_str());
            push_str(out, "\"); });\n");
            proof {
                assert(out@ =~= orig + stmt_text(*w, origin@));
            }
        },
        WidgetKind::Button => {
            push_str(out, " ui.add_sized(egui::vec2(");
            push_tenths(out, w.w);
            push_str(out, ",");
            push_tenths(out, w.h);
            push_str(out, "), egui::Button::new(\"");
            push_escaped(out, w.props.text.as_str());
            push_str(out, "\")); });\n");
            proof {
                assert(out@ =~= orig + stmt_text(*w, origin@));
            }
        },
        WidgetKind::ImageTextButton => {
            push_str(out, " ui.add_sized(egui::vec2(");
            push_tenths(out, w.w);
            push_str(out, ",");
            push_tenths(out, w.h);
            push_str(out, "), egui::Button::new(format!(\"{}  {}\", \"");
            push_escaped(out, w.props.icon.as_str());
            push_str(out, "\", \"");
            push_escaped(out, w.props.text.as_str());
            push_str(out, "\")) ); });\n");
            proof {
                assert(out@ =~= orig + stmt_text(*w, origin@));
            }
        },
        WidgetKind::Checkbox => {
            push_str(out, " ui.checkbox(&mut state.checked_");
            push_id(out, w);
            push_str(out, ", \"");
            push_escaped(out, w.props.text.as_str());
            push_str(out, "\"); });\n");
            proof {
                assert(out@ =~= orig + stmt_text(*w, origin@));
            }
        },
        WidgetKind::TextEdit => {
            push_str(out, " ui.add_sized(egui::vec2(");
            push_tenths(out, w.w);
            push_str(out, ",");
            push_tenths(out, w.h);
            push_str(out, "), egui::TextEdit::singleline(&mut state.text_");
            push_id(out, w);
            push_str(out, ").hint_text(\"");
            push_escaped(out, w.props.text.as_str());
            push_str(out, "\")); });\n");
            proof {
                assert(out@ =~= orig + stmt_text(*w, origin@));
            }
        },
        WidgetKind::Slider => {
            push_str(out, " ui.add_sized(egui::vec2(");
            push_tenths(out, w.w);
            push_str(out, ",");
            push_tenths(out, w.h);
            push_str(out, "), egui::Slider::new(&mut state.value_");
            push_id(out, w);
            push_str(out, ", ");
            push_milli(out, w.props.min);
            push_str(out, "..=");
            push_milli(out, w.props.max);
            push_str(out, ").text(\"");
            push_escaped(out, w.props.text.as_str());
            push_str(out, "\")); });\n");
            proof {
                assert(out@ =~= orig + stmt_text(*w, origin@));
            }
        },
        WidgetKind::ProgressBar => {
            push_str(out, " ui.add_sized(egui::vec2(");
            push_tenths(out, w.w);
            push_str(out, ",");
            push_tenths(out, w.h);
            push_str(out, "), egui::ProgressBar::new(state.progress_");
            push_id(out, w);
            push_str(out, ").show_percentage()); });\n");
            proof {
                assert(out@ =~= orig + stmt_text(*w, origin@));
            }
        },
        _ => {
            proof {
                assert(false);
            }
        },
    }
}

/// The construction statements of the linking and sectioning kinds.
#[verifier::rlimit(100)]
fn push_stmt_other(out: &mut String, w: &Widget, origin: &str)
    requires
        w.kind == WidgetKind::Link || w.kind == WidgetKind::Hyperlink || w.kind == WidgetKind::SelectableLabel || w.kind == WidgetKind::Separator || w.kind == WidgetKind::CollapsingHeader || w.kind == WidgetKind::DatePicker,
    ensures
        final(out)@ == old(out)@ + stmt_text(*w, origin@),
{
    let ghost orig = out@;
    push_scope_prefix(out, w, origin);
    match w.kind {
        WidgetKind::Link => {
            push_str(out, " ui.link(\"");
            push_escaped(out, w.props.text.as_str());
            push_str(out, "\"); });\n");
            proof {
                assert(out@ =~= orig + stmt_text(*w, origin@));
            }
        },
        WidgetKind::Hyperlink => {
            push_str(out, " ui.hyperlink_to(\"");
            push_escaped(out, w.props.text.as_str());
            push_str(out, "\", \"");
            push_escaped(out, w.props.url.as_str());
            push_str(out, "\"); });\n");
            proof {
                assert(out@ =~= orig + stmt_text(*w, origin@));
            }
        },
        WidgetKind::SelectableLabel => {
            push_str(out, " if ui.add(egui::Button::selectable(state.sel_");
            push_id(out, w);
            push_str(out, ", \"");
            push_escaped(out, w.props.text.as_str());
            push_str(out, "\")).clicked() { state.sel_");
            push_id(out, w);
            push_str(out, " = !state.sel_");
            push_id(out, w);
            push_str(out, "; } });\n");
            proof {
                assert(out@ =~= orig + stmt_text(*w, origin@));
            }
        },
        WidgetKind::Separator => {
            push_str(out, " ui.separator(); });\n");
            proof {
                assert(out@ =~= orig + stmt_text(*w, origin@));
            }
        },
        WidgetKind::CollapsingHeader => {
            push_str(out, " egui::CollapsingHeader::new(\"");
            push_escaped(out, w.props.text.as_str());
            push_str(out, "\").default_open(state.open_");
            push_id(out, w);
            push_str(
                out,
                ").show(ui, |ui| { ui.label(\"… place your inner content here …\"); }); });\n",
            );
            proof {
                assert(out@ =~= orig + stmt_text(*w, origin@));
            }
        },
        WidgetKind::DatePicker => {
            push_str(out, " ui.horizontal(|ui| { ui.label(\"");
            push_escaped(out, w.props.text.as_str());
            push_str(out, "\"); ui.add(DatePickerButton::new(&mut state.date_");
            push_id(out, w);
            push_str(out, ")); }); });\n");
            proof {
                assert(out@ =~= orig + stmt_text(*w, origin@));
            }
        },
        _ => {
            proof {
                assert(false);
            }
        },
    }
}

/// The construction statements of the remaining kinds.
#[verifier::rlimit(100)]
fn push_stmt_bound(out: &mut String, w: &Widget, origin: &str)
    requires
        w.kind == WidgetKind::Password || w.kind == WidgetKind::AngleSelector || w.kind == WidgetKind::Tree,
    ensures
        final(out)@ == old(out)@ + stmt_text(*w, origin@),
{
    let ghost orig = out@;
    push_scope_prefix(out, w, origin);
    match w.kind {
        WidgetKind::Password => {
            push_str(out, " ui.add_sized(egui::vec2(");
            push_tenths(out, w.w);
            push_str(out, ",");
            push_tenths(out, w.h);
            push_str(out, "), egui::TextEdit::singleline(&mut state.pass_");
            push_id(out, w);
            push_str(out, ").password(true).hint_text(\"password\") ); });\n");
            proof {
                assert(out@ =~= orig + stmt_text(*w, origin@));
            }
        },
        WidgetKind::AngleSelector => {
            push_str(out, " ui.add_sized(egui::vec2(");
            push_tenths(out, w.w);
            push_str(out, ",");
            push_tenths(out, w.h);
            push_str(out, "), egui::Slider::new(&mut state.angle_");
            push_id(out, w);
            push_str(out, ", ");
            push_milli(out, w.props.min);
            push_str(out, "..=");
            push_milli(out, w.props.max);
            push_str(out, ").suffix(\"°\").text(\"");
            push_escaped(out, w.props.text.as_str());
            push_str(out, "\") ); });\n");
            proof {
                assert(out@ =~= orig + stmt_text(*w, origin@));
            }
        },
        WidgetKind::Tree => {
            push_str(out, " let nodes: Vec<GenTreeNode> = ");
            let forest = parse_tree_items(&w.props.items);
            push_forest_literal(out, &forest);
            push_str(
                out,
                "; egui::ScrollArea::vertical().auto_shrink([false,false]).show(ui, |ui| { gen_show_tree(ui, &nodes); }); });\n",
            );
            proof {
                assert(out@ =~= orig + stmt_text(*w, origin@));
            }
        },
        _ => {
            proof {
                assert(false);
            }
        },
    }
}



/// Selection-index safety: for a list-backed widget the emitted default
/// index is always in range — strictly below the item count when the list
/// is nonempty, and zero when it is empty — whatever index is stored.
pub proof fn lemma_selection_index_safety(w: Widget)
    requires
        w.kind == WidgetKind::RadioGroup || w.kind == WidgetKind::ComboBox || w.kind
            == WidgetKind::MenuButton,
    ensures
        w.props.items@.len() == 0 ==> sel_default(w.props.items@.len(), w.props.selected as nat)
            == 0,
        w.props.items@.len() > 0 ==> sel_default(w.props.items@.len(), w.props.selected as nat)
            < w.props.items@.len(),
        init_text(w) == "            sel_"@ + id_digits(w) + ": "@ + u64_digits(
            sel_default(w.props.items@.len(), w.props.selected as nat),
        ) + ",\n"@,
{
}

} // verus!
