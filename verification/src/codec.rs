//! The interchange codec: a lossless, structured textual serialization of a
//! scene, mirroring the data model field for field. Decoding accepts
//! exactly what encoding produces (plus nothing trailing); a document that
//! does not parse yields `None`, and importing then leaves the current
//! scene untouched.

use vstd::prelude::*;
use vstd::string::StrSliceExecFns;
use crate::scene::DockArea;
use crate::scene::Project;
use crate::scene::Widget;
use crate::scene::WidgetId;
use crate::scene::WidgetKind;
use crate::scene::WidgetProps;
use crate::text::digit_char;
use crate::text::int_digits;
use crate::text::push_char;
use crate::text::push_i64;
use crate::text::push_str;
use crate::text::push_u64;
use crate::text::u64_digits;

verus! {

// ---------------------------------------------------------------------
// Mathematical shapes: what a decoded scene is, at the spec level.
// ---------------------------------------------------------------------

/// The mathematical content of a property bag.
pub struct PropsShape {
    pub text: Seq<char>,
    pub checked: bool,
    pub value: int,
    pub min: int,
    pub max: int,
    pub items: Seq<Seq<char>>,
    pub selected: nat,
    pub url: Seq<char>,
    pub year: int,
    pub month: nat,
    pub day: nat,
    pub icon: Seq<char>,
}

/// The mathematical content of a widget.
pub struct WidgetShape {
    pub id: nat,
    pub kind: WidgetKind,
    pub x: int,
    pub y: int,
    pub w: int,
    pub h: int,
    pub z: int,
    pub area: DockArea,
    pub props: PropsShape,
}

/// The mathematical content of a scene.
pub struct SceneShape {
    pub widgets: Seq<WidgetShape>,
    pub canvas_w: int,
    pub canvas_h: int,
    pub top: bool,
    pub bottom: bool,
    pub left: bool,
    pub right: bool,
}

pub open spec fn props_view(p: WidgetProps) -> PropsShape {
    PropsShape {
        text: p.text@,
        checked: p.checked,
        value: p.value as int,
        min: p.min as int,
        max: p.max as int,
        items: p.items.deep_view(),
        selected: p.selected as nat,
        url: p.url@,
        year: p.year as int,
        month: p.month as nat,
        day: p.day as nat,
        icon: p.icon@,
    }
}

pub open spec fn widget_view(w: Widget) -> WidgetShape {
    WidgetShape {
        id: w.id.0 as nat,
        kind: w.kind,
        x: w.x as int,
        y: w.y as int,
        w: w.w as int,
        h: w.h as int,
        z: w.z as int,
        area: w.area,
        props: props_view(w.props),
    }
}

/// The shapes of a widget list.
pub open spec fn widgets_view(ws: Seq<Widget>) -> Seq<WidgetShape> {
    ws.map_values(|w: Widget| widget_view(w))
}

pub proof fn lemma_widgets_view_index(ws: Seq<Widget>, i: int)
    requires
        0 <= i < ws.len(),
    ensures
        widgets_view(ws).len() == ws.len(),
        widgets_view(ws)[i] == widget_view(ws[i]),
{
}

pub open spec fn project_view(p: Project) -> SceneShape {
    SceneShape {
        widgets: widgets_view(p.widgets@),
        canvas_w: p.canvas_w as int,
        canvas_h: p.canvas_h as int,
        top: p.panel_top_enabled,
        bottom: p.panel_bottom_enabled,
        left: p.panel_left_enabled,
        right: p.panel_right_enabled,
    }
}

// ---------------------------------------------------------------------
// Numeric tags for the two enumerations.
// ---------------------------------------------------------------------

pub open spec fn kind_code(k: WidgetKind) -> int {
    match k {
        WidgetKind::MenuButton => 0,
        WidgetKind::Label => 1,
        WidgetKind::Button => 2,
        WidgetKind::ImageTextButton => 3,
        WidgetKind::Checkbox => 4,
        WidgetKind::TextEdit => 5,
        WidgetKind::Slider => 6,
        WidgetKind::ProgressBar => 7,
        WidgetKind::RadioGroup => 8,
        WidgetKind::Link => 9,
        WidgetKind::Hyperlink => 10,
        WidgetKind::SelectableLabel => 11,
        WidgetKind::ComboBox => 12,
        WidgetKind::Separator => 13,
        WidgetKind::CollapsingHeader => 14,
        WidgetKind::DatePicker => 15,
        WidgetKind::AngleSelector => 16,
        WidgetKind::Password => 17,
        WidgetKind::Tree => 18,
    }
}

pub open spec fn kind_of_code(c: int) -> Option<WidgetKind> {
    if c == 0 {
        Some(WidgetKind::MenuButton)
    } else if c == 1 {
        Some(WidgetKind::Label)
    } else if c == 2 {
        Some(WidgetKind::Button)
    } else if c == 3 {
        Some(WidgetKind::ImageTextButton)
    } else if c == 4 {
        Some(WidgetKind::Checkbox)
    } else if c == 5 {
        Some(WidgetKind::TextEdit)
    } else if c == 6 {
        Some(WidgetKind::Slider)
    } else if c == 7 {
        Some(WidgetKind::ProgressBar)
    } else if c == 8 {
        Some(WidgetKind::RadioGroup)
    } else if c == 9 {
        Some(WidgetKind::Link)
    } else if c == 10 {
        Some(WidgetKind::Hyperlink)
    } else if c == 11 {
        Some(WidgetKind::SelectableLabel)
    } else if c == 12 {
        Some(WidgetKind::ComboBox)
    } else if c == 13 {
        Some(WidgetKind::Separator)
    } else if c == 14 {
        Some(WidgetKind::CollapsingHeader)
    } else if c == 15 {
        Some(WidgetKind::DatePicker)
    } else if c == 16 {
        Some(WidgetKind::AngleSelector)
    } else if c == 17 {
        Some(WidgetKind::Password)
    } else if c == 18 {
        Some(WidgetKind::Tree)
    } else {
        None
    }
}

pub open spec fn area_code(a: DockArea) -> int {
    match a {
        DockArea::Free => 0,
        DockArea::Top => 1,
        DockArea::Bottom => 2,
        DockArea::Left => 3,
        DockArea::Right => 4,
        DockArea::Center => 5,
    }
}

pub open spec fn area_of_code(c: int) -> Option<DockArea> {
    if c == 0 {
        Some(DockArea::Free)
    } else if c == 1 {
        Some(DockArea::Top)
    } else if c == 2 {
        Some(DockArea::Bottom)
    } else if c == 3 {
        Some(DockArea::Left)
    } else if c == 4 {
        Some(DockArea::Right)
    } else if c == 5 {
        Some(DockArea::Center)
    } else {
        None
    }
}

fn kind_to_code(k: WidgetKind) -> (r: u64)
    ensures
        r as int == kind_code(k),
{
    match k {
        WidgetKind::MenuButton => 0,
        WidgetKind::Label => 1,
        WidgetKind::Button => 2,
        WidgetKind::ImageTextButton => 3,
        WidgetKind::Checkbox => 4,
        WidgetKind::TextEdit => 5,
        WidgetKind::Slider => 6,
        WidgetKind::ProgressBar => 7,
        WidgetKind::RadioGroup => 8,
        WidgetKind::Link => 9,
        WidgetKind::Hyperlink => 10,
        WidgetKind::SelectableLabel => 11,
        WidgetKind::ComboBox => 12,
        WidgetKind::Separator => 13,
        WidgetKind::CollapsingHeader => 14,
        WidgetKind::DatePicker => 15,
        WidgetKind::AngleSelector => 16,
        WidgetKind::Password => 17,
        WidgetKind::Tree => 18,
    }
}

fn code_to_kind(c: u64) -> (r: Option<WidgetKind>)
    ensures
        r == kind_of_code(c as int),
{
    if c == 0 {
        Some(WidgetKind::MenuButton)
    } else if c == 1 {
        Some(WidgetKind::Label)
    } else if c == 2 {
        Some(WidgetKind::Button)
    } else if c == 3 {
        Some(WidgetKind::ImageTextButton)
    } else if c == 4 {
        Some(WidgetKind::Checkbox)
    } else if c == 5 {
        Some(WidgetKind::TextEdit)
    } else if c == 6 {
        Some(WidgetKind::Slider)
    } else if c == 7 {
        Some(WidgetKind::ProgressBar)
    } else if c == 8 {
        Some(WidgetKind::RadioGroup)
    } else if c == 9 {
        Some(WidgetKind::Link)
    } else if c == 10 {
        Some(WidgetKind::Hyperlink)
    } else if c == 11 {
        Some(WidgetKind::SelectableLabel)
    } else if c == 12 {
        Some(WidgetKind::ComboBox)
    } else if c == 13 {
        Some(WidgetKind::Separator)
    } else if c == 14 {
        Some(WidgetKind::CollapsingHeader)
    } else if c == 15 {
        Some(WidgetKind::DatePicker)
    } else if c == 16 {
        Some(WidgetKind::AngleSelector)
    } else if c == 17 {
        Some(WidgetKind::Password)
    } else if c == 18 {
        Some(WidgetKind::Tree)
    } else {
        None
    }
}

fn area_to_code(a: DockArea) -> (r: u64)
    ensures
        r as int == area_code(a),
{
    match a {
        DockArea::Free => 0,
        DockArea::Top => 1,
        DockArea::Bottom => 2,
        DockArea::Left => 3,
        DockArea::Right => 4,
        DockArea::Center => 5,
    }
}

fn code_to_area(c: u64) -> (r: Option<DockArea>)
    ensures
        r == area_of_code(c as int),
{
    if c == 0 {
        Some(DockArea::Free)
    } else if c == 1 {
        Some(DockArea::Top)
    } else if c == 2 {
        Some(DockArea::Bottom)
    } else if c == 3 {
        Some(DockArea::Left)
    } else if c == 4 {
        Some(DockArea::Right)
    } else if c == 5 {
        Some(DockArea::Center)
    } else {
        None
    }
}

// ---------------------------------------------------------------------
// Encoding.
// ---------------------------------------------------------------------

/// A boolean as a single `0`/`1` character.
pub open spec fn enc_bool(b: bool) -> Seq<char> {
    if b {
        "1"@
    } else {
        "0"@
    }
}

/// A string as a length-prefixed record: `s <len> <chars>` and a newline.
pub open spec fn enc_str(s: Seq<char>) -> Seq<char> {
    "s "@ + u64_digits(s.len()) + " "@ + s + "\n"@
}

/// The item list: a count line, then one string record per item.
pub open spec fn enc_items(items: Seq<Seq<char>>) -> Seq<char> {
    "items "@ + u64_digits(items.len()) + "\n"@ + enc_str_list(items)
}

pub open spec fn enc_str_list(items: Seq<Seq<char>>) -> Seq<char>
    decreases items.len(),
{
    if items.len() == 0 {
        Seq::<char>::empty()
    } else {
        enc_str(items[0]) + enc_str_list(items.skip(1))
    }
}

/// The geometry line of a widget: id, kind tag, position, size, z, area tag.
#[verifier::opaque]
pub open spec fn enc_geom_line(w: WidgetShape) -> Seq<char> {
    "widget "@ + u64_digits(w.id) + " "@ + u64_digits(kind_code(w.kind) as nat) + " "@
        + int_digits(w.x) + " "@ + int_digits(w.y) + " "@ + int_digits(w.w) + " "@ + int_digits(
        w.h,
    ) + " "@ + int_digits(w.z) + " "@ + u64_digits(area_code(w.area) as nat) + "\n"@
}

/// The trailing fields of the property line: selection, date components.
pub open spec fn enc_props_tail(p: PropsShape) -> Seq<char> {
    u64_digits(p.selected) + " "@ + int_digits(p.year) + " "@ + u64_digits(p.month) + " "@
        + u64_digits(p.day) + "\n"@
}

/// The numeric-and-flag line of a property bag.
#[verifier::opaque]
pub open spec fn enc_props_line(p: PropsShape) -> Seq<char> {
    "props "@ + enc_bool(p.checked) + " "@ + int_digits(p.value) + " "@ + int_digits(p.min) + " "@
        + int_digits(p.max) + " "@ + enc_props_tail(p)
}

/// One widget: geometry, properties, the three strings, the item list.
#[verifier::opaque]
pub open spec fn enc_widget(w: WidgetShape) -> Seq<char> {
    enc_geom_line(w) + enc_props_line(w.props) + enc_str(w.props.text) + enc_str(w.props.url)
        + enc_str(w.props.icon) + enc_items(w.props.items)
}

pub open spec fn enc_widget_list(ws: Seq<WidgetShape>) -> Seq<char>
    decreases ws.len(),
{
    if ws.len() == 0 {
        Seq::<char>::empty()
    } else {
        enc_widget(ws[0]) + enc_widget_list(ws.skip(1))
    }
}

/// The complete interchange document of a scene.
#[verifier::opaque]
pub open spec fn encode_spec(sh: SceneShape) -> Seq<char> {
    "radproject 1\ncanvas "@ + int_digits(sh.canvas_w) + " "@ + int_digits(sh.canvas_h)
        + "\npanels "@ + enc_panels(sh) + "\nwidgets "@ + u64_digits(sh.widgets.len()) + "\n"@
        + enc_widget_list(sh.widgets)
}

/// The four region enable flags.
pub open spec fn enc_panels(sh: SceneShape) -> Seq<char> {
    enc_bool(sh.top) + " "@ + enc_bool(sh.bottom) + " "@ + enc_bool(sh.left) + " "@ + enc_bool(
        sh.right,
    )
}

fn push_enc_bool(out: &mut String, b: bool)
    ensures
        final(out)@ == old(out)@ + enc_bool(b),
{
    if b {
        push_str(out, "1");
    } else {
        push_str(out, "0");
    }
}

fn push_enc_str(out: &mut String, s: &str)
    ensures
        final(out)@ == old(out)@ + enc_str(s@),
{
    let ghost orig = out@;
    push_str(out, "s ");
    let n = s.unicode_len();
    push_u64(out, n as u64);
    push_str(out, " ");
    push_str(out, s);
    push_str(out, "\n");
    proof {
        assert(out@ =~= orig + enc_str(s@));
    }
}

fn push_enc_items(out: &mut String, items: &Vec<String>)
    ensures
        final(out)@ == old(out)@ + enc_items(items.deep_view()),
{
    let ghost orig = out@;
    let ghost iv = items.deep_view();
    push_str(out, "items ");
    push_u64(out, items.len() as u64);
    push_str(out, "\n");
    let ghost mid = out@;
    let mut i: usize = 0;
    while i < items.len()
        invariant
            i <= items@.len(),
            iv == items.deep_view(),
            iv.len() == items@.len(),
            out@ == mid + enc_str_list(iv.take(i as int)),
        decreases items@.len() - i,
    {
        proof {
            assert(iv[i as int] == items@[i as int]@);
            lemma_enc_str_list_snoc(iv.take(i + 1));
            assert(iv.take(i + 1).drop_last() =~= iv.take(i as int));
            assert(iv.take(i + 1).last() == iv[i as int]);
        }
        push_enc_str(out, items[i].as_str());
        proof {
            assert(out@ =~= mid + enc_str_list(iv.take(i + 1)));
        }
        i = i + 1;
    }
    proof {
        assert(iv.take(iv.len() as int) =~= iv);
        assert(out@ =~= orig + enc_items(iv));
    }
}

/// The by-first definition of `enc_str_list` also satisfies the by-last
/// unfolding, which the encoding loops maintain.
proof fn lemma_enc_str_list_snoc(items: Seq<Seq<char>>)
    requires
        items.len() > 0,
    ensures
        enc_str_list(items) == enc_str_list(items.drop_last()) + enc_str(items.last()),
    decreases items.len(),
{
    if items.len() == 1 {
        assert(items.drop_last() =~= Seq::<Seq<char>>::empty());
        assert(items.skip(1) =~= Seq::<Seq<char>>::empty());
        lemma_concat_empty(enc_str(items[0]));
    } else {
        lemma_enc_str_list_snoc(items.skip(1));
        assert(items.skip(1).drop_last() =~= items.drop_last().skip(1));
        assert(items.skip(1).last() == items.last());
        assert(items.drop_last()[0] == items[0]);
        assert(items.drop_last().len() > 0);
        lemma_concat_assoc(
            enc_str(items[0]),
            enc_str_list(items.drop_last().skip(1)),
            enc_str(items.last()),
        );
    }
}

#[verifier::rlimit(100)]
fn push_enc_geom(out: &mut String, w: &Widget)
    ensures
        final(out)@ == old(out)@ + enc_geom_line(widget_view(*w)),
{
    proof {
        reveal(enc_geom_line);
    }
    let ghost orig = out@;
    push_str(out, "widget ");
    push_u64(out, w.id.0);
    push_str(out, " ");
    push_u64(out, kind_to_code(w.kind));
    push_str(out, " ");
    push_i64(out, w.x as i64);
    push_str(out, " ");
    push_i64(out, w.y as i64);
    push_str(out, " ");
    push_i64(out, w.w as i64);
    push_str(out, " ");
    push_i64(out, w.h as i64);
    push_str(out, " ");
    push_i64(out, w.z as i64);
    push_str(out, " ");
    push_u64(out, area_to_code(w.area));
    push_str(out, "\n");
    proof {
        assert(out@ =~= orig + enc_geom_line(widget_view(*w)));
    }
}

#[verifier::rlimit(100)]
fn push_enc_props_line(out: &mut String, w: &Widget)
    ensures
        final(out)@ == old(out)@ + enc_props_line(props_view(w.props)),
{
    proof {
        reveal(enc_props_line);
    }
    let ghost orig = out@;
    push_str(out, "props ");
    push_enc_bool(out, w.props.checked);
    push_str(out, " ");
    push_i64(out, w.props.value);
    push_str(out, " ");
    push_i64(out, w.props.min);
    push_str(out, " ");
    push_i64(out, w.props.max);
    push_str(out, " ");
    push_u64(out, w.props.selected);
    push_str(out, " ");
    push_i64(out, w.props.year);
    push_str(out, " ");
    push_u64(out, w.props.month as u64);
    push_str(out, " ");
    push_u64(out, w.props.day as u64);
    push_str(out, "\n");
    proof {
        assert(out@ =~= orig + enc_props_line(props_view(w.props)));
    }
}

fn push_enc_widget(out: &mut String, w: &Widget)
    ensures
        final(out)@ == old(out)@ + enc_widget(widget_view(*w)),
{
    proof {
        reveal(enc_widget);
    }
    let ghost orig = out@;
    push_enc_geom(out, w);
    push_enc_props_line(out, w);
    push_enc_str(out, w.props.text.as_str());
    push_enc_str(out, w.props.url.as_str());
    push_enc_str(out, w.props.icon.as_str());
    push_enc_items(out, &w.props.items);
    proof {
        assert(out@ =~= orig + enc_widget(widget_view(*w)));
    }
}

/// Encodes a scene into its interchange document. Encoding is total and
/// lossless: the document determines the scene exactly.
pub fn encode(p: &Project) -> (r: String)
    ensures
        r@ == encode_spec(project_view(*p)),
{
    proof {
        reveal(encode_spec);
    }
    let ghost sh = project_view(*p);
    let mut out = String::new();
    push_str(&mut out, "radproject 1\ncanvas ");
    push_i64(&mut out, p.canvas_w as i64);
    push_str(&mut out, " ");
    push_i64(&mut out, p.canvas_h as i64);
    push_str(&mut out, "\npanels ");
    let ghost before_panels = out@;
    push_enc_bool(&mut out, p.panel_top_enabled);
    push_str(&mut out, " ");
    push_enc_bool(&mut out, p.panel_bottom_enabled);
    push_str(&mut out, " ");
    push_enc_bool(&mut out, p.panel_left_enabled);
    push_str(&mut out, " ");
    push_enc_bool(&mut out, p.panel_right_enabled);
    proof {
        assert(out@ =~= before_panels + enc_panels(sh));
    }
    push_str(&mut out, "\nwidgets ");
    push_u64(&mut out, p.widgets.len() as u64);
    push_str(&mut out, "\n");
    let ghost mid = out@;
    let ws = &p.widgets;
    let mut i: usize = 0;
    while i < ws.len()
        invariant
            i <= ws@.len(),
            ws@ == p.widgets@,
            sh == project_view(*p),
            sh.widgets.len() == ws@.len(),
            out@ == mid + enc_widget_list(sh.widgets.take(i as int)),
        decreases ws@.len() - i,
    {
        proof {
            lemma_widgets_view_index(ws@, i as int);
            assert(sh.widgets[i as int] == widget_view(ws@[i as int]));
            lemma_enc_widget_list_snoc(sh.widgets.take(i + 1));
            assert(sh.widgets.take(i + 1).drop_last() =~= sh.widgets.take(i as int));
            assert(sh.widgets.take(i + 1).last() == sh.widgets[i as int]);
        }
        push_enc_widget(&mut out, &ws[i]);
        proof {
            assert(out@ =~= mid + enc_widget_list(sh.widgets.take(i + 1)));
        }
        i = i + 1;
    }
    proof {
        assert(sh.widgets.take(sh.widgets.len() as int) =~= sh.widgets);
        assert(out@ =~= encode_spec(sh));
    }
    out
}

proof fn lemma_enc_widget_list_snoc(ws: Seq<WidgetShape>)
    requires
        ws.len() > 0,
    ensures
        enc_widget_list(ws) == enc_widget_list(ws.drop_last()) + enc_widget(ws.last()),
    decreases ws.len(),
{
    if ws.len() == 1 {
        assert(ws.drop_last() =~= Seq::<WidgetShape>::empty());
        assert(ws.skip(1) =~= Seq::<WidgetShape>::empty());
        lemma_concat_empty(enc_widget(ws[0]));
    } else {
        lemma_enc_widget_list_snoc(ws.skip(1));
        assert(ws.skip(1).drop_last() =~= ws.drop_last().skip(1));
        assert(ws.skip(1).last() == ws.last());
        assert(ws.drop_last()[0] == ws[0]);
        assert(ws.drop_last().len() > 0);
        lemma_concat_assoc(
            enc_widget(ws[0]),
            enc_widget_list(ws.drop_last().skip(1)),
            enc_widget(ws.last()),
        );
    }
}

/// Concatenation with the empty text is the identity.
proof fn lemma_concat_empty(a: Seq<char>)
    ensures
        a + Seq::<char>::empty() == a,
        Seq::<char>::empty() + a == a,
{
    assert(a + Seq::<char>::empty() =~= a);
    assert(Seq::<char>::empty() + a =~= a);
}

/// Concatenation of texts is associative.
proof fn lemma_concat_assoc(a: Seq<char>, b: Seq<char>, c: Seq<char>)
    ensures
        (a + b) + c == a + (b + c),
{
    assert((a + b) + c =~= a + (b + c));
}


// ---------------------------------------------------------------------
// Decoding: a recursive-descent parser over the character sequence.
// ---------------------------------------------------------------------

pub open spec fn is_digit(c: char) -> bool {
    '0' as int <= c as int && c as int <= '9' as int
}

pub open spec fn digit_val(c: char) -> nat {
    (c as int - '0' as int) as nat
}

/// Consumes the exact literal `lit` at `i`, or fails.
pub open spec fn p_lit(s: Seq<char>, i: int, lit: Seq<char>) -> Option<int> {
    if 0 <= i && i + lit.len() <= s.len() && s.subrange(i, i + lit.len()) == lit {
        Some(i + lit.len())
    } else {
        None
    }
}

/// Consumes further digits, accumulating left to right; fails on overflow.
pub open spec fn p_u64_rec(s: Seq<char>, i: int, acc: nat) -> Option<(u64, int)>
    decreases s.len() - i,
{
    if i < 0 {
        None
    } else if i >= s.len() || !is_digit(s[i]) {
        Some(((acc as u64), i))
    } else {
        let acc2 = acc * 10 + digit_val(s[i]);
        if acc2 > u64::MAX {
            None
        } else {
            p_u64_rec(s, i + 1, acc2)
        }
    }
}

/// Consumes a nonempty digit run as an unsigned number.
pub open spec fn p_u64(s: Seq<char>, i: int) -> Option<(u64, int)> {
    if 0 <= i < s.len() && is_digit(s[i]) {
        p_u64_rec(s, i, 0)
    } else {
        None
    }
}

/// Consumes an optionally negated number in the range of an `i64`.
pub open spec fn p_i64(s: Seq<char>, i: int) -> Option<(int, int)> {
    if 0 <= i < s.len() && s[i] == '-' {
        match p_u64(s, i + 1) {
            Some((n, j)) => if n as nat <= 0x8000000000000000 {
                Some((-(n as int), j))
            } else {
                None
            },
            None => None,
        }
    } else {
        match p_u64(s, i) {
            Some((n, j)) => if n <= i64::MAX as u64 {
                Some((n as int, j))
            } else {
                None
            },
            None => None,
        }
    }
}

/// A signed number further restricted to the range of an `i32`.
pub open spec fn p_i32(s: Seq<char>, i: int) -> Option<(int, int)> {
    match p_i64(s, i) {
        Some((v, j)) => if i32::MIN as int <= v <= i32::MAX as int {
            Some((v, j))
        } else {
            None
        },
        None => None,
    }
}

/// A single `0`/`1` character.
pub open spec fn p_bool(s: Seq<char>, i: int) -> Option<(bool, int)> {
    if 0 <= i < s.len() && s[i] == '0' {
        Some((false, i + 1))
    } else if 0 <= i < s.len() && s[i] == '1' {
        Some((true, i + 1))
    } else {
        None
    }
}

/// A length-prefixed string record.
pub open spec fn p_str(s: Seq<char>, i: int) -> Option<(Seq<char>, int)> {
    match p_lit(s, i, "s "@) {
        Some(j) => match p_u64(s, j) {
            Some((n, j2)) => match p_lit(s, j2, " "@) {
                Some(j3) => if j3 + n <= s.len() {
                    match p_lit(s, j3 + n, "\n"@) {
                        Some(j4) => Some((s.subrange(j3, j3 + n), j4)),
                        None => None,
                    }
                } else {
                    None
                },
                None => None,
            },
            None => None,
        },
        None => None,
    }
}

/// Exactly `n` string records in a row.
pub open spec fn p_str_list(s: Seq<char>, i: int, n: nat) -> Option<(Seq<Seq<char>>, int)>
    decreases n,
{
    if n == 0 {
        Some((Seq::<Seq<char>>::empty(), i))
    } else {
        match p_str(s, i) {
            Some((x, j)) => match p_str_list(s, j, (n - 1) as nat) {
                Some((xs, e)) => Some((seq![x] + xs, e)),
                None => None,
            },
            None => None,
        }
    }
}

/// The item list: count line, then that many string records.
pub open spec fn p_items(s: Seq<char>, i: int) -> Option<(Seq<Seq<char>>, int)> {
    match p_lit(s, i, "items "@) {
        Some(j) => match p_u64(s, j) {
            Some((n, j2)) => match p_lit(s, j2, "\n"@) {
                Some(j3) => p_str_list(s, j3, n as nat),
                None => None,
            },
            None => None,
        },
        None => None,
    }
}

fn is_digit_e(c: char) -> (r: bool)
    ensures
        r == is_digit(c),
{
    c >= '0' && c <= '9'
}

/// Matches the literal `lit` at position `i`.
fn e_lit(v: &Vec<char>, i: usize, lit: &str) -> (r: Option<usize>)
    requires
        i <= v@.len(),
    ensures
        match r {
            Some(j) => p_lit(v@, i as int, lit@) == Some(j as int) && i <= j <= v@.len(),
            None => p_lit(v@, i as int, lit@) is None,
        },
{
    let n = lit.unicode_len();
    if n > v.len() - i {
        return None;
    }
    let bound = i + n;
    let mut j: usize = 0;
    while j < n
        invariant
            bound == i + n,
            i + n <= v@.len(),
            j <= n,
            n == lit@.len(),
            forall|k: int| 0 <= k < j ==> v@[i + k] == lit@[k],
        decreases n - j,
    {
        if v[i + j] != lit.get_char(j) {
            proof {
                assert(v@.subrange(i as int, i + lit@.len())[j as int] != lit@[j as int]);
            }
            return None;
        }
        j = j + 1;
    }
    proof {
        assert(v@.subrange(i as int, i + lit@.len()) =~= lit@);
    }
    Some(i + n)
}

/// Parses a digit run into an unsigned number.
fn e_u64(v: &Vec<char>, i: usize) -> (r: Option<(u64, usize)>)
    requires
        i <= v@.len(),
    ensures
        match r {
            Some((n, j)) => p_u64(v@, i as int) == Some((n, j as int)) && i <= j <= v@.len(),
            None => p_u64(v@, i as int) is None,
        },
{
    let len = v.len();
    if i >= len {
        return None;
    }
    if !is_digit_e(v[i]) {
        return None;
    }
    let mut j = i;
    let mut acc: u64 = 0;
    while j < len && is_digit_e(v[j])
        invariant
            i <= j <= len,
            len == v@.len(),
            p_u64_rec(v@, i as int, 0) == p_u64_rec(v@, j as int, acc as nat),
        decreases len - j,
    {
        let d: u64 = (v[j] as u32 - '0' as u32) as u64;
        let wide: u128 = acc as u128 * 10 + d as u128;
        if wide > u64::MAX as u128 {
            return None;
        }
        acc = wide as u64;
        j = j + 1;
    }
    Some((acc, j))
}

/// Parses an optionally negated number in `i64` range.
fn e_i64(v: &Vec<char>, i: usize) -> (r: Option<(i64, usize)>)
    requires
        i <= v@.len(),
    ensures
        match r {
            Some((n, j)) => p_i64(v@, i as int) == Some((n as int, j as int)) && i <= j
                <= v@.len(),
            None => p_i64(v@, i as int) is None,
        },
{
    let len = v.len();
    if i < len && v[i] == '-' {
        match e_u64(v, i + 1) {
            Some((n, j)) => {
                if n <= 0x8000000000000000u64 {
                    let m: i64 = if n == 0x8000000000000000u64 {
                        i64::MIN
                    } else {
                        -(n as i64)
                    };
                    Some((m, j))
                } else {
                    None
                }
            },
            None => None,
        }
    } else {
        match e_u64(v, i) {
            Some((n, j)) => {
                if n <= i64::MAX as u64 {
                    Some((n as i64, j))
                } else {
                    None
                }
            },
            None => None,
        }
    }
}

/// A signed number further restricted to `i32` range.
fn e_i32(v: &Vec<char>, i: usize) -> (r: Option<(i32, usize)>)
    requires
        i <= v@.len(),
    ensures
        match r {
            Some((n, j)) => p_i32(v@, i as int) == Some((n as int, j as int)) && i <= j
                <= v@.len(),
            None => p_i32(v@, i as int) is None,
        },
{
    match e_i64(v, i) {
        Some((n, j)) => {
            if i32::MIN as i64 <= n && n <= i32::MAX as i64 {
                Some((n as i32, j))
            } else {
                None
            }
        },
        None => None,
    }
}

/// A single `0`/`1` flag.
fn e_bool(v: &Vec<char>, i: usize) -> (r: Option<(bool, usize)>)
    requires
        i <= v@.len(),
    ensures
        match r {
            Some((b, j)) => p_bool(v@, i as int) == Some((b, j as int)) && i <= j <= v@.len(),
            None => p_bool(v@, i as int) is None,
        },
{
    if i < v.len() && v[i] == '0' {
        Some((false, i + 1))
    } else if i < v.len() && v[i] == '1' {
        Some((true, i + 1))
    } else {
        None
    }
}

/// A length-prefixed string record.
fn e_str(v: &Vec<char>, i: usize) -> (r: Option<(String, usize)>)
    requires
        i <= v@.len(),
    ensures
        match r {
            Some((x, j)) => p_str(v@, i as int) == Some((x@, j as int)) && i <= j <= v@.len(),
            None => p_str(v@, i as int) is None,
        },
{
    let j = match e_lit(v, i, "s ") {
        Some(j) => j,
        None => { return None },
    };
    let (n, j2) = match e_u64(v, j) {
        Some(p) => p,
        None => { return None },
    };
    let j3 = match e_lit(v, j2, " ") {
        Some(j3) => j3,
        None => { return None },
    };
    if n > (v.len() - j3) as u64 {
        return None;
    }
    let end = j3 + n as usize;
    let j4 = match e_lit(v, end, "\n") {
        Some(j4) => j4,
        None => { return None },
    };
    let mut x = String::new();
    let mut k = j3;
    while k < end
        invariant
            j3 <= k <= end <= v@.len(),
            x@ == v@.subrange(j3 as int, k as int),
        decreases end - k,
    {
        push_char(&mut x, v[k]);
        proof {
            assert(v@.subrange(j3 as int, k + 1) =~= v@.subrange(j3 as int, k as int).push(
                v@[k as int],
            ));
        }
        k = k + 1;
    }
    Some((x, j4))
}


/// The parsed geometry line of a widget.
pub struct GeomShape {
    pub id: nat,
    pub kind: WidgetKind,
    pub x: int,
    pub y: int,
    pub w: int,
    pub h: int,
    pub z: int,
    pub area: DockArea,
}

/// The parsed numeric-and-flag line of a property bag.
pub struct PropsLineShape {
    pub checked: bool,
    pub value: int,
    pub min: int,
    pub max: int,
    pub selected: nat,
    pub year: int,
    pub month: nat,
    pub day: nat,
}

/// The geometry line: `widget <id> <kind> <x> <y> <w> <h> <z> <area>`.
#[verifier::opaque]
pub open spec fn p_geom(s: Seq<char>, i: int) -> Option<(GeomShape, int)> {
    match p_lit(s, i, "widget "@) {
        Some(j0) => match p_u64(s, j0) {
            Some((id, j1)) => match p_lit(s, j1, " "@) {
                Some(j2) => match p_u64(s, j2) {
                    Some((kc, j3)) => match kind_of_code(kc as int) {
                        Some(kind) => match p_lit(s, j3, " "@) {
                            Some(j4) => match p_i32(s, j4) {
                                Some((x, j5)) => match p_lit(s, j5, " "@) {
                                    Some(j6) => match p_i32(s, j6) {
                                        Some((y, j7)) => match p_lit(s, j7, " "@) {
                                            Some(j8) => match p_i32(s, j8) {
                                                Some((w, j9)) => match p_lit(s, j9, " "@) {
                                                    Some(j10) => match p_i32(s, j10) {
                                                        Some((h, j11)) => match p_lit(
                                                            s,
                                                            j11,
                                                            " "@,
                                                        ) {
                                                            Some(j12) => match p_i32(s, j12) {
                                                                Some((z, j13)) => match p_lit(
                                                                    s,
                                                                    j13,
                                                                    " "@,
                                                                ) {
                                                                    Some(j14) => match p_u64(
                                                                        s,
                                                                        j14,
                                                                    ) {
                                                                        Some((ac, j15)) => match area_of_code(
                                                                            ac as int,
                                                                        ) {
                                                                            Some(area) => match p_lit(
                                                                                s,
                                                                                j15,
                                                                                "\n"@,
                                                                            ) {
                                                                                Some(j16) => Some(
                                                                                    (
                                                                                        GeomShape {
                                                                                            id: id as nat,
                                                                                            kind,
                                                                                            x,
                                                                                            y,
                                                                                            w,
                                                                                            h,
                                                                                            z,
                                                                                            area,
                                                                                        },
                                                                                        j16,
                                                                                    ),
                                                                                ),
                                                                                None => None,
                                                                            },
                                                                            None => None,
                                                                        },
                                                                        None => None,
                                                                    },
                                                                    None => None,
                                                                },
                                                                None => None,
                                                            },
                                                            None => None,
                                                        },
                                                        None => None,
                                                    },
                                                    None => None,
                                                },
                                                None => None,
                                            },
                                            None => None,
                                        },
                                        None => None,
                                    },
                                    None => None,
                                },
                                None => None,
                            },
                            None => None,
                        },
                        None => None,
                    },
                    None => None,
                },
                None => None,
            },
            None => None,
        },
        None => None,
    }
}

/// The trailing fields of a property line.
pub open spec fn p_props_tail(s: Seq<char>, i: int) -> Option<((nat, int, nat, nat), int)> {
    match p_u64(s, i) {
        Some((sel, j0)) => match p_lit(s, j0, " "@) {
            Some(j1) => match p_i64(s, j1) {
                Some((year, j2)) => match p_lit(s, j2, " "@) {
                    Some(j3) => match p_u64(s, j3) {
                        Some((month, j4)) => if month <= u32::MAX as u64 {
                            match p_lit(s, j4, " "@) {
                                Some(j5) => match p_u64(s, j5) {
                                    Some((day, j6)) => if day <= u32::MAX as u64 {
                                        match p_lit(s, j6, "\n"@) {
                                            Some(j7) => Some(
                                                (
                                                    (
                                                        sel as nat,
                                                        year,
                                                        month as nat,
                                                        day as nat,
                                                    ),
                                                    j7,
                                                ),
                                            ),
                                            None => None,
                                        }
                                    } else {
                                        None
                                    },
                                    None => None,
                                },
                                None => None,
                            }
                        } else {
                            None
                        },
                        None => None,
                    },
                    None => None,
                },
                None => None,
            },
            None => None,
        },
        None => None,
    }
}

/// The property line: `props <checked> <value> <min> <max> <selected> <year> <month> <day>`.
#[verifier::opaque]
pub open spec fn p_props_line(s: Seq<char>, i: int) -> Option<(PropsLineShape, int)> {
    match p_lit(s, i, "props "@) {
        Some(j0) => match p_bool(s, j0) {
            Some((checked, j1)) => match p_lit(s, j1, " "@) {
                Some(j2) => match p_i64(s, j2) {
                    Some((value, j3)) => match p_lit(s, j3, " "@) {
                        Some(j4) => match p_i64(s, j4) {
                            Some((mn, j5)) => match p_lit(s, j5, " "@) {
                                Some(j6) => match p_i64(s, j6) {
                                    Some((mx, j7)) => match p_lit(s, j7, " "@) {
                                        Some(j8) => match p_props_tail(s, j8) {
                                            Some((t, j9)) => Some(
                                                (
                                                    PropsLineShape {
                                                        checked,
                                                        value,
                                                        min: mn,
                                                        max: mx,
                                                        selected: t.0,
                                                        year: t.1,
                                                        month: t.2,
                                                        day: t.3,
                                                    },
                                                    j9,
                                                ),
                                            ),
                                            None => None,
                                        },
                                        None => None,
                                    },
                                    None => None,
                                },
                                None => None,
                            },
                            None => None,
                        },
                        None => None,
                    },
                    None => None,
                },
                None => None,
            },
            None => None,
        },
        None => None,
    }
}

/// One whole widget record.
#[verifier::opaque]
pub open spec fn p_widget(s: Seq<char>, i: int) -> Option<(WidgetShape, int)> {
    match p_geom(s, i) {
        Some((g, j0)) => match p_props_line(s, j0) {
            Some((pl, j1)) => match p_str(s, j1) {
                Some((text, j2)) => match p_str(s, j2) {
                    Some((url, j3)) => match p_str(s, j3) {
                        Some((icon, j4)) => match p_items(s, j4) {
                            Some((items, j5)) => Some(
                                (
                                    WidgetShape {
                                        id: g.id,
                                        kind: g.kind,
                                        x: g.x,
                                        y: g.y,
                                        w: g.w,
                                        h: g.h,
                                        z: g.z,
                                        area: g.area,
                                        props: PropsShape {
                                            text,
                                            checked: pl.checked,
                                            value: pl.value,
                                            min: pl.min,
                                            max: pl.max,
                                            items,
                                            selected: pl.selected,
                                            url,
                                            year: pl.year,
                                            month: pl.month,
                                            day: pl.day,
                                            icon,
                                        },
                                    },
                                    j5,
                                ),
                            ),
                            None => None,
                        },
                        None => None,
                    },
                    None => None,
                },
                None => None,
            },
            None => None,
        },
        None => None,
    }
}

/// Exactly `n` widget records in a row.
pub open spec fn p_widget_list(s: Seq<char>, i: int, n: nat) -> Option<(Seq<WidgetShape>, int)>
    decreases n,
{
    if n == 0 {
        Some((Seq::<WidgetShape>::empty(), i))
    } else {
        match p_widget(s, i) {
            Some((x, j)) => match p_widget_list(s, j, (n - 1) as nat) {
                Some((xs, e)) => Some((seq![x] + xs, e)),
                None => None,
            },
            None => None,
        }
    }
}

/// The parsed document header: canvas size, panel flags, widget count.
pub struct HeaderShape {
    pub canvas_w: int,
    pub canvas_h: int,
    pub top: bool,
    pub bottom: bool,
    pub left: bool,
    pub right: bool,
    pub n: nat,
}

/// The four panel flags separated by spaces.
pub open spec fn p_panels(s: Seq<char>, i: int) -> Option<((bool, bool, bool, bool), int)> {
    match p_bool(s, i) {
        Some((top, j0)) => match p_lit(s, j0, " "@) {
            Some(j1) => match p_bool(s, j1) {
                Some((bottom, j2)) => match p_lit(s, j2, " "@) {
                    Some(j3) => match p_bool(s, j3) {
                        Some((left, j4)) => match p_lit(s, j4, " "@) {
                            Some(j5) => match p_bool(s, j5) {
                                Some((right, j6)) => Some(((top, bottom, left, right), j6)),
                                None => None,
                            },
                            None => None,
                        },
                        None => None,
                    },
                    None => None,
                },
                None => None,
            },
            None => None,
        },
        None => None,
    }
}

/// Everything before the widget records.
#[verifier::opaque]
pub open spec fn p_header(s: Seq<char>) -> Option<(HeaderShape, int)> {
    match p_lit(s, 0, "radproject 1\ncanvas "@) {
        Some(j0) => match p_i32(s, j0) {
            Some((cw, j1)) => match p_lit(s, j1, " "@) {
                Some(j2) => match p_i32(s, j2) {
                    Some((ch, j3)) => match p_lit(s, j3, "\npanels "@) {
                        Some(j4) => match p_panels(s, j4) {
                            Some((pn, j5)) => match p_lit(s, j5, "\nwidgets "@) {
                                Some(j6) => match p_u64(s, j6) {
                                    Some((n, j7)) => match p_lit(s, j7, "\n"@) {
                                        Some(j8) => Some(
                                            (
                                                HeaderShape {
                                                    canvas_w: cw,
                                                    canvas_h: ch,
                                                    top: pn.0,
                                                    bottom: pn.1,
                                                    left: pn.2,
                                                    right: pn.3,
                                                    n: n as nat,
                                                },
                                                j8,
                                            ),
                                        ),
                                        None => None,
                                    },
                                    None => None,
                                },
                                None => None,
                            },
                            None => None,
                        },
                        None => None,
                    },
                    None => None,
                },
                None => None,
            },
            None => None,
        },
        None => None,
    }
}

/// The whole document. A document that does not follow the grammar, or has
/// trailing characters, decodes to nothing.
#[verifier::opaque]
pub open spec fn decode_spec(s: Seq<char>) -> Option<SceneShape> {
    match p_header(s) {
        Some((h, j)) => match p_widget_list(s, j, h.n) {
            Some((ws, e)) => if e == s.len() {
                Some(
                    SceneShape {
                        widgets: ws,
                        canvas_w: h.canvas_w,
                        canvas_h: h.canvas_h,
                        top: h.top,
                        bottom: h.bottom,
                        left: h.left,
                        right: h.right,
                    },
                )
            } else {
                None
            },
            None => None,
        },
        None => None,
    }
}

/// Parses the geometry line.
#[verifier::rlimit(100)]
fn e_geom(v: &Vec<char>, i: usize) -> (r: Option<((u64, WidgetKind, i32, i32, i32, i32, i32, DockArea), usize)>)
    requires
        i <= v@.len(),
    ensures
        match r {
            Some((g, j)) => p_geom(v@, i as int) == Some(
                (
                    GeomShape {
                        id: g.0 as nat,
                        kind: g.1,
                        x: g.2 as int,
                        y: g.3 as int,
                        w: g.4 as int,
                        h: g.5 as int,
                        z: g.6 as int,
                        area: g.7,
                    },
                    j as int,
                ),
            ) && i <= j <= v@.len(),
            None => p_geom(v@, i as int) is None,
        },
{
    proof {
        reveal(p_geom);
    }
    let j0 = match e_lit(v, i, "widget ") {
        Some(j) => j,
        None => { return None },
    };
    let (id, j1) = match e_u64(v, j0) {
        Some(p) => p,
        None => { return None },
    };
    let j2 = match e_lit(v, j1, " ") {
        Some(j) => j,
        None => { return None },
    };
    let (kc, j3) = match e_u64(v, j2) {
        Some(p) => p,
        None => { return None },
    };
    let kind = match code_to_kind(kc) {
        Some(k) => k,
        None => { return None },
    };
    let j4 = match e_lit(v, j3, " ") {
        Some(j) => j,
        None => { return None },
    };
    let (x, j5) = match e_i32(v, j4) {
        Some(p) => p,
        None => { return None },
    };
    let j6 = match e_lit(v, j5, " ") {
        Some(j) => j,
        None => { return None },
    };
    let (y, j7) = match e_i32(v, j6) {
        Some(p) => p,
        None => { return None },
    };
    let j8 = match e_lit(v, j7, " ") {
        Some(j) => j,
        None => { return None },
    };
    let (w, j9) = match e_i32(v, j8) {
        Some(p) => p,
        None => { return None },
    };
    let j10 = match e_lit(v, j9, " ") {
        Some(j) => j,
        None => { return None },
    };
    let (h, j11) = match e_i32(v, j10) {
        Some(p) => p,
        None => { return None },
    };
    let j12 = match e_lit(v, j11, " ") {
        Some(j) => j,
        None => { return None },
    };
    let (z, j13) = match e_i32(v, j12) {
        Some(p) => p,
        None => { return None },
    };
    let j14 = match e_lit(v, j13, " ") {
        Some(j) => j,
        None => { return None },
    };
    let (ac, j15) = match e_u64(v, j14) {
        Some(p) => p,
        None => { return None },
    };
    let area = match code_to_area(ac) {
        Some(a) => a,
        None => { return None },
    };
    let j16 = match e_lit(v, j15, "\n") {
        Some(j) => j,
        None => { return None },
    };
    Some(((id, kind, x, y, w, h, z, area), j16))
}

/// Parses the property line.
#[verifier::rlimit(100)]
fn e_props_line(v: &Vec<char>, i: usize) -> (r: Option<((bool, i64, i64, i64, u64, i64, u32, u32), usize)>)
    requires
        i <= v@.len(),
    ensures
        match r {
            Some((p, j)) => p_props_line(v@, i as int) == Some(
                (
                    PropsLineShape {
                        checked: p.0,
                        value: p.1 as int,
                        min: p.2 as int,
                        max: p.3 as int,
                        selected: p.4 as nat,
                        year: p.5 as int,
                        month: p.6 as nat,
                        day: p.7 as nat,
                    },
                    j as int,
                ),
            ) && i <= j <= v@.len(),
            None => p_props_line(v@, i as int) is None,
        },
{
    proof {
        reveal(p_props_line);
    }
    let j0 = match e_lit(v, i, "props ") {
        Some(j) => j,
        None => { return None },
    };
    let (checked, j1) = match e_bool(v, j0) {
        Some(p) => p,
        None => { return None },
    };
    let j2 = match e_lit(v, j1, " ") {
        Some(j) => j,
        None => { return None },
    };
    let (value, j3) = match e_i64(v, j2) {
        Some(p) => p,
        None => { return None },
    };
    let j4 = match e_lit(v, j3, " ") {
        Some(j) => j,
        None => { return None },
    };
    let (mn, j5) = match e_i64(v, j4) {
        Some(p) => p,
        None => { return None },
    };
    let j6 = match e_lit(v, j5, " ") {
        Some(j) => j,
        None => { return None },
    };
    let (mx, j7) = match e_i64(v, j6) {
        Some(p) => p,
        None => { return None },
    };
    let j8 = match e_lit(v, j7, " ") {
        Some(j) => j,
        None => { return None },
    };
    let (sel, j9) = match e_u64(v, j8) {
        Some(p) => p,
        None => { return None },
    };
    let j10 = match e_lit(v, j9, " ") {
        Some(j) => j,
        None => { return None },
    };
    let (year, j11) = match e_i64(v, j10) {
        Some(p) => p,
        None => { return None },
    };
    let j12 = match e_lit(v, j11, " ") {
        Some(j) => j,
        None => { return None },
    };
    let (month, j13) = match e_u64(v, j12) {
        Some(p) => p,
        None => { return None },
    };
    if month > u32::MAX as u64 {
        return None;
    }
    let j14 = match e_lit(v, j13, " ") {
        Some(j) => j,
        None => { return None },
    };
    let (day, j15) = match e_u64(v, j14) {
        Some(p) => p,
        None => { return None },
    };
    if day > u32::MAX as u64 {
        return None;
    }
    let j16 = match e_lit(v, j15, "\n") {
        Some(j) => j,
        None => { return None },
    };
    Some(((checked, value, mn, mx, sel, year, month as u32, day as u32), j16))
}

/// Parses the item list.
fn e_items(v: &Vec<char>, i: usize) -> (r: Option<(Vec<String>, usize)>)
    requires
        i <= v@.len(),
    ensures
        match r {
            Some((xs, j)) => p_items(v@, i as int) == Some((xs.deep_view(), j as int)) && i <= j
                <= v@.len(),
            None => p_items(v@, i as int) is None,
        },
{
    let j0 = match e_lit(v, i, "items ") {
        Some(j) => j,
        None => { return None },
    };
    let (n, j1) = match e_u64(v, j0) {
        Some(p) => p,
        None => { return None },
    };
    let j2 = match e_lit(v, j1, "\n") {
        Some(j) => j,
        None => { return None },
    };
    e_str_list(v, j2, n)
}

/// Parses exactly `n` string records.
fn e_str_list(v: &Vec<char>, i: usize, n: u64) -> (r: Option<(Vec<String>, usize)>)
    requires
        i <= v@.len(),
    ensures
        match r {
            Some((xs, j)) => p_str_list(v@, i as int, n as nat) == Some(
                (xs.deep_view(), j as int),
            ) && i <= j <= v@.len(),
            None => p_str_list(v@, i as int, n as nat) is None,
        },
{
    let mut acc: Vec<String> = Vec::new();
    let mut cur = i;
    let mut k: u64 = 0;
    while k < n
        invariant
            i <= cur <= v@.len(),
            k <= n,
            match p_str_list(v@, cur as int, (n - k) as nat) {
                Some(pr) => p_str_list(v@, i as int, n as nat) == Some(
                    (acc.deep_view() + pr.0, pr.1),
                ),
                None => p_str_list(v@, i as int, n as nat) is None,
            },
        decreases n - k,
    {
        let ghost acc0 = acc.deep_view();
        match e_str(v, cur) {
            Some((x, j)) => {
                proof {
                    assert(p_str(v@, cur as int) == Some((x@, j as int)));
                }
                acc.push(x);
                proof {
                    assert(acc.deep_view() =~~= acc0.push(x@));
                    if p_str_list(v@, j as int, (n - k - 1) as nat) is Some {
                        let pr2 = p_str_list(v@, j as int, (n - k - 1) as nat)->Some_0;
                        assert(acc.deep_view() + pr2.0 =~~= acc0 + (seq![x@] + pr2.0));
                    }
                }
                cur = j;
            },
            None => {
                return None;
            },
        }
        k = k + 1;
    }
    proof {
        assert(acc.deep_view() + Seq::<Seq<char>>::empty() =~~= acc.deep_view());
    }
    Some((acc, cur))
}

/// Parses one widget record.
fn e_widget(v: &Vec<char>, i: usize) -> (r: Option<(Widget, usize)>)
    requires
        i <= v@.len(),
    ensures
        match r {
            Some((w, j)) => p_widget(v@, i as int) == Some((widget_view(w), j as int)) && i <= j
                <= v@.len(),
            None => p_widget(v@, i as int) is None,
        },
{
    proof {
        reveal(p_widget);
    }
    let (g, j0) = match e_geom(v, i) {
        Some(p) => p,
        None => { return None },
    };
    let (pl, j1) = match e_props_line(v, j0) {
        Some(p) => p,
        None => { return None },
    };
    let (text, j2) = match e_str(v, j1) {
        Some(p) => p,
        None => { return None },
    };
    let (url, j3) = match e_str(v, j2) {
        Some(p) => p,
        None => { return None },
    };
    let (icon, j4) = match e_str(v, j3) {
        Some(p) => p,
        None => { return None },
    };
    let (items, j5) = match e_items(v, j4) {
        Some(p) => p,
        None => { return None },
    };
    let props = WidgetProps {
        text,
        checked: pl.0,
        value: pl.1,
        min: pl.2,
        max: pl.3,
        items,
        selected: pl.4,
        url,
        year: pl.5,
        month: pl.6,
        day: pl.7,
        icon,
    };
    let w = Widget {
        id: WidgetId(g.0),
        kind: g.1,
        x: g.2,
        y: g.3,
        w: g.4,
        h: g.5,
        z: g.6,
        area: g.7,
        props,
    };
    Some((w, j5))
}

/// Widget lists, as views.
proof fn lemma_widgets_view_push(ws: Seq<Widget>, w: Widget)
    ensures
        widgets_view(ws.push(w)) == widgets_view(ws).push(widget_view(w)),
{
    assert(widgets_view(ws.push(w)) =~= widgets_view(ws).push(widget_view(w)));
}

/// Parses exactly `n` widget records.
fn e_widget_list(v: &Vec<char>, i: usize, n: u64) -> (r: Option<(Vec<Widget>, usize)>)
    requires
        i <= v@.len(),
    ensures
        match r {
            Some((xs, j)) => p_widget_list(v@, i as int, n as nat) == Some(
                (widgets_view(xs@), j as int),
            ) && i <= j <= v@.len(),
            None => p_widget_list(v@, i as int, n as nat) is None,
        },
{
    let mut acc: Vec<Widget> = Vec::new();
    let mut cur = i;
    let mut k: u64 = 0;
    while k < n
        invariant
            i <= cur <= v@.len(),
            k <= n,
            match p_widget_list(v@, cur as int, (n - k) as nat) {
                Some(pr) => p_widget_list(v@, i as int, n as nat) == Some(
                    (widgets_view(acc@) + pr.0, pr.1),
                ),
                None => p_widget_list(v@, i as int, n as nat) is None,
            },
        decreases n - k,
    {
        let ghost acc0 = acc@;
        match e_widget(v, cur) {
            Some((x, j)) => {
                proof {
                    assert(p_widget(v@, cur as int) == Some((widget_view(x), j as int)));
                }
                acc.push(x);
                proof {
                    lemma_widgets_view_push(acc0, x);
                    if p_widget_list(v@, j as int, (n - k - 1) as nat) is Some {
                        let pr2 = p_widget_list(v@, j as int, (n - k - 1) as nat)->Some_0;
                        assert(widgets_view(acc@) + pr2.0 =~= widgets_view(acc0) + (seq![
                            widget_view(x),
                        ] + pr2.0));
                    }
                }
                cur = j;
            },
            None => {
                return None;
            },
        }
        k = k + 1;
    }
    proof {
        assert(widgets_view(acc@) + Seq::<WidgetShape>::empty() =~= widgets_view(acc@));
    }
    Some((acc, cur))
}

/// Copies a string's characters into an indexable buffer.
fn to_chars(s: &str) -> (v: Vec<char>)
    ensures
        v@ == s@,
{
    let n = s.unicode_len();
    let mut v: Vec<char> = Vec::new();
    let mut i: usize = 0;
    while i < n
        invariant
            n == s@.len(),
            i <= n,
            v@ == s@.take(i as int),
        decreases n - i,
    {
        v.push(s.get_char(i));
        proof {
            assert(s@.take(i + 1) =~= s@.take(i as int).push(s@[i as int]));
        }
        i = i + 1;
    }
    proof {
        assert(s@.take(n as int) =~= s@);
    }
    v
}

/// Decodes an interchange document into a scene. Returns `None`, and
/// nothing else happens, whenever the document does not follow the
/// interchange grammar exactly.
#[verifier::rlimit(100)]
pub fn decode(text: &str) -> (r: Option<Project>)
    ensures
        match r {
            Some(p) => decode_spec(text@) == Some(project_view(p)),
            None => decode_spec(text@) is None,
        },
{
    proof {
        reveal(p_header);
        reveal(decode_spec);
    }
    let v = to_chars(text);
    let j0 = match e_lit(&v, 0, "radproject 1\ncanvas ") {
        Some(j) => j,
        None => { return None },
    };
    let (cw, j1) = match e_i32(&v, j0) {
        Some(p) => p,
        None => { return None },
    };
    let j2 = match e_lit(&v, j1, " ") {
        Some(j) => j,
        None => { return None },
    };
    let (ch, j3) = match e_i32(&v, j2) {
        Some(p) => p,
        None => { return None },
    };
    let j4 = match e_lit(&v, j3, "\npanels ") {
        Some(j) => j,
        None => { return None },
    };
    let (top, j5) = match e_bool(&v, j4) {
        Some(p) => p,
        None => { return None },
    };
    let j6 = match e_lit(&v, j5, " ") {
        Some(j) => j,
        None => { return None },
    };
    let (bottom, j7) = match e_bool(&v, j6) {
        Some(p) => p,
        None => { return None },
    };
    let j8 = match e_lit(&v, j7, " ") {
        Some(j) => j,
        None => { return None },
    };
    let (left, j9) = match e_bool(&v, j8) {
        Some(p) => p,
        None => { return None },
    };
    let j10 = match e_lit(&v, j9, " ") {
        Some(j) => j,
        None => { return None },
    };
    let (right, j11) = match e_bool(&v, j10) {
        Some(p) => p,
        None => { return None },
    };
    let j12 = match e_lit(&v, j11, "\nwidgets ") {
        Some(j) => j,
        None => { return None },
    };
    let (n, j13) = match e_u64(&v, j12) {
        Some(p) => p,
        None => { return None },
    };
    let j14 = match e_lit(&v, j13, "\n") {
        Some(j) => j,
        None => { return None },
    };
    let (ws, j15) = match e_widget_list(&v, j14, n) {
        Some(p) => p,
        None => { return None },
    };
    if j15 != v.len() {
        return None;
    }
    let p = Project {
        widgets: ws,
        canvas_w: cw,
        canvas_h: ch,
        panel_top_enabled: top,
        panel_bottom_enabled: bottom,
        panel_left_enabled: left,
        panel_right_enabled: right,
    };
    Some(p)
}

/// Imports a document over the current scene: a document that decodes
/// replaces the scene wholesale; one that does not leaves the current
/// scene exactly as it was.
pub fn import_or_keep(current: Project, text: &str) -> (r: Project)
    ensures
        decode_spec(text@) is None ==> r == current,
        decode_spec(text@) is Some ==> decode_spec(text@) == Some(project_view(r)),
{
    match decode(text) {
        Some(p) => p,
        None => current,
    }
}

/// The id no widget of the scene has reached: one past the largest id, or
/// zero for an empty scene.
pub open spec fn next_id_spec(ws: Seq<WidgetShape>) -> nat
    decreases ws.len(),
{
    if ws.len() == 0 {
        0
    } else {
        let rest = next_id_spec(ws.drop_last());
        let cand = ws.last().id + 1;
        if cand > rest {
            cand as nat
        } else {
            rest
        }
    }
}

/// Recomputes the next fresh widget id after an import: one past the
/// largest id in the scene, zero when the scene is empty.
pub fn next_widget_id(p: &Project) -> (r: u64)
    requires
        forall|i: int|
            0 <= i < p.widgets@.len() ==> (#[trigger] p.widgets@[i]).id.0 < u64::MAX,
    ensures
        r as nat == next_id_spec(project_view(*p).widgets),
{
    let ghost sh = project_view(*p).widgets;
    let ws = &p.widgets;
    let mut r: u64 = 0;
    let mut i: usize = 0;
    while i < ws.len()
        invariant
            ws@ == p.widgets@,
            forall|k: int| 0 <= k < ws@.len() ==> (#[trigger] ws@[k]).id.0 < u64::MAX,
            sh == project_view(*p).widgets,
            sh.len() == ws@.len(),
            i <= ws@.len(),
            r as nat == next_id_spec(sh.take(i as int)),
        decreases ws@.len() - i,
    {
        proof {
            lemma_widgets_view_index(ws@, i as int);
            assert(sh.take(i + 1).drop_last() =~= sh.take(i as int));
            assert(sh.take(i + 1).last() == sh[i as int]);
        }
        let cand = ws[i].id.0 + 1;
        if cand > r {
            r = cand;
        }
        i = i + 1;
    }
    proof {
        assert(sh.take(sh.len() as int) =~= sh);
    }
    r
}


// ---------------------------------------------------------------------
// Round trip: decoding an encoded scene yields the scene back.
// ---------------------------------------------------------------------

pub open spec fn pow10(k: nat) -> nat
    decreases k,
{
    if k == 0 {
        1
    } else {
        10 * pow10((k - 1) as nat)
    }
}

/// The number a digit string denotes.
pub open spec fn digits_val(ds: Seq<char>) -> nat
    decreases ds.len(),
{
    if ds.len() == 0 {
        0
    } else {
        digits_val(ds.drop_last()) * 10 + digit_val(ds.last())
    }
}

proof fn lemma_pow10_pos(k: nat)
    ensures
        pow10(k) >= 1,
    decreases k,
{
    if k > 0 {
        lemma_pow10_pos((k - 1) as nat);
    }
}

/// The decimal rendering of a number denotes that number, and is made of
/// digits.
proof fn lemma_u64_digits_props(n: nat)
    ensures
        u64_digits(n).len() >= 1,
        forall|k: int| 0 <= k < u64_digits(n).len() ==> is_digit(#[trigger] u64_digits(n)[k]),
        digits_val(u64_digits(n)) == n,
    decreases n,
{
    if n < 10 {
        let ds = u64_digits(n);
        assert(ds == seq![digit_char(n as int)]);
        assert(is_digit(digit_char(n as int)));
        assert(digit_val(digit_char(n as int)) == n);
        assert(ds.drop_last() =~= Seq::<char>::empty());
        assert(digits_val(ds.drop_last()) == 0);
        assert(ds.last() == digit_char(n as int));
        assert(digits_val(ds) == digit_val(digit_char(n as int)));
    } else {
        lemma_u64_digits_props(n / 10);
        let pre = u64_digits(n / 10);
        let whole = u64_digits(n);
        assert(whole == pre.push(digit_char((n % 10) as int)));
        assert(whole.drop_last() =~= pre);
        assert(whole.last() == digit_char((n % 10) as int));
        assert(digit_val(digit_char((n % 10) as int)) == n % 10);
        assert(digits_val(whole) == (n / 10) * 10 + n % 10);
        assert((n / 10) * 10 + n % 10 == n) by (nonlinear_arith);
        assert(forall|k: int| 0 <= k < pre.len() ==> whole[k] == pre[k]);
    }
}

/// Reading a digit string from the front: the first digit carries a power
/// of ten for each digit after it.
proof fn lemma_digits_val_first(ds: Seq<char>)
    requires
        ds.len() > 0,
    ensures
        digits_val(ds) == digit_val(ds[0]) * pow10((ds.len() - 1) as nat) + digits_val(
            ds.skip(1),
        ),
    decreases ds.len(),
{
    if ds.len() == 1 {
        assert(ds.drop_last() =~= Seq::<char>::empty());
        assert(ds.skip(1) =~= Seq::<char>::empty());
        assert(digits_val(ds.drop_last()) == 0);
        assert(ds.last() == ds[0]);
        assert(digits_val(ds) == digit_val(ds[0]));
        assert(pow10(0) == 1);
    } else {
        let pre = ds.drop_last();
        lemma_digits_val_first(pre);
        assert(pre.skip(1) =~= ds.skip(1).drop_last());
        assert(ds.skip(1).last() == ds.last());
        assert(pre[0] == ds[0]);
        let k = (pre.len() - 1) as nat;
        assert(digits_val(ds) == digits_val(pre) * 10 + digit_val(ds.last()));
        assert(digits_val(pre) == digit_val(ds[0]) * pow10(k) + digits_val(pre.skip(1)));
        assert((digit_val(ds[0]) * pow10(k) + digits_val(pre.skip(1))) * 10 == digit_val(ds[0])
            * (pow10(k) * 10) + digits_val(pre.skip(1)) * 10) by (nonlinear_arith);
        assert(pow10((k + 1) as nat) == 10 * pow10(k));
        assert(pow10(k) * 10 == pow10((k + 1) as nat));
        assert(digits_val(ds.skip(1)) == digits_val(ds.skip(1).drop_last()) * 10 + digit_val(
            ds.skip(1).last(),
        ));
    }
}

/// The accumulator parse over a digit region ending at a non-digit yields
/// the region's value.
proof fn lemma_parse_digits(s: Seq<char>, i: int, j: int, acc: nat)
    requires
        0 <= i <= j <= s.len(),
        forall|k: int| i <= k < j ==> is_digit(#[trigger] s[k]),
        j == s.len() || !is_digit(s[j as int]),
        acc * pow10((j - i) as nat) + digits_val(s.subrange(i, j)) <= u64::MAX,
    ensures
        p_u64_rec(s, i, acc) == Some(
            ((acc * pow10((j - i) as nat) + digits_val(s.subrange(i, j))) as u64, j),
        ),
    decreases j - i,
{
    let region = s.subrange(i, j);
    if i == j {
        assert(region =~= Seq::<char>::empty());
        assert(digits_val(region) == 0);
        assert(pow10((j - i) as nat) == 1);
        assert(acc * pow10((j - i) as nat) + digits_val(region) == acc) by (nonlinear_arith)
            requires
                pow10((j - i) as nat) == 1,
                digits_val(region) == 0,
        ;
    } else {
        assert(is_digit(s[i]));
        assert(region[0] == s[i]);
        lemma_digits_val_first(region);
        assert(region.skip(1) =~= s.subrange(i + 1, j));
        let d0 = digit_val(s[i]);
        let k = (j - i - 1) as nat;
        let acc2 = acc * 10 + d0;
        let total = acc * pow10((j - i) as nat) + digits_val(region);
        assert(digits_val(region) == d0 * pow10(k) + digits_val(s.subrange(i + 1, j)));
        assert(acc * pow10((j - i) as nat) == (acc * 10) * pow10(k)) by (nonlinear_arith)
            requires
                pow10((j - i) as nat) == 10 * pow10(k),
        ;
        assert((acc * 10) * pow10(k) + d0 * pow10(k) == acc2 * pow10(k)) by (nonlinear_arith)
            requires
                acc2 == acc * 10 + d0,
        ;
        assert(total == acc2 * pow10(k) + digits_val(s.subrange(i + 1, j)));
        lemma_pow10_pos(k);
        assert(acc2 <= acc2 * pow10(k)) by (nonlinear_arith)
            requires
                pow10(k) >= 1,
        ;
        lemma_parse_digits(s, i + 1, j, acc2);
    }
}

/// Skipping past a known prefix of the remaining text.
proof fn lemma_skip_parts(s: Seq<char>, i: int, a: Seq<char>, r: Seq<char>)
    requires
        0 <= i <= s.len(),
        s.skip(i) == a + r,
    ensures
        i + a.len() <= s.len(),
        s.skip(i + a.len()) == r,
        forall|k: int| 0 <= k < a.len() ==> s[i + k] == a[k],
{
    assert(s.skip(i).len() == s.len() - i);
    assert(forall|k: int| 0 <= k < s.len() - i ==> s.skip(i)[k] == s[i + k]);
    assert(s.skip(i + a.len()).len() == r.len());
    assert forall|k: int| 0 <= k < r.len() implies s.skip(i + a.len())[k] == r[k] by {
        assert(s.skip(i + a.len())[k] == s[i + a.len() + k]);
        assert(s.skip(i)[a.len() + k] == s[i + a.len() + k]);
        assert((a + r)[a.len() + k] == r[k]);
    }
    assert(s.skip(i + a.len()) =~= r);
    assert forall|k: int| 0 <= k < a.len() implies s[i + k] == a[k] by {
        assert(s.skip(i)[k] == s[i + k]);
        assert((a + r)[k] == a[k]);
    }
}

/// A literal parses where its text stands.
proof fn lemma_rt_lit(s: Seq<char>, i: int, lit: Seq<char>, r: Seq<char>)
    requires
        0 <= i <= s.len(),
        s.skip(i) == lit + r,
    ensures
        i + lit.len() <= s.len(),
        p_lit(s, i, lit) == Some(i + lit.len()),
        s.skip(i + lit.len()) == r,
{
    lemma_skip_parts(s, i, lit, r);
    assert(s.subrange(i, i + lit.len()) =~= lit);
}

/// An encoded number parses back to itself when followed by a non-digit.
proof fn lemma_rt_u64(s: Seq<char>, i: int, n: u64, r: Seq<char>)
    requires
        0 <= i <= s.len(),
        s.skip(i) == u64_digits(n as nat) + r,
        r.len() == 0 || !is_digit(r[0]),
    ensures
        i + u64_digits(n as nat).len() <= s.len(),
        p_u64(s, i) == Some((n, i + u64_digits(n as nat).len())),
        s.skip(i + u64_digits(n as nat).len()) == r,
    decreases 0int,
{
    let ds = u64_digits(n as nat);
    lemma_u64_digits_props(n as nat);
    lemma_skip_parts(s, i, ds, r);
    let j = i + ds.len();
    assert(s.subrange(i, j) =~= ds);
    assert forall|k: int| i <= k < j implies is_digit(#[trigger] s[k]) by {
        assert(s[i + (k - i)] == ds[k - i]);
        assert(is_digit(ds[k - i]));
    }
    if j < s.len() {
        assert(s[j] == r[0]);
    }
    lemma_pow10_pos((j - i) as nat);
    assert(0 * pow10((j - i) as nat) + digits_val(s.subrange(i, j)) == n as nat)
        by (nonlinear_arith)
        requires
            digits_val(s.subrange(i, j)) == n as nat,
    ;
    lemma_parse_digits(s, i, j, 0);
    assert(is_digit(s[i]));
}

/// An encoded signed number parses back to itself.
proof fn lemma_rt_i64(s: Seq<char>, i: int, v: int, r: Seq<char>)
    requires
        0 <= i <= s.len(),
        i64::MIN as int <= v <= i64::MAX as int,
        s.skip(i) == int_digits(v as int) + r,
        r.len() == 0 || !is_digit(r[0]),
    ensures
        i + int_digits(v as int).len() <= s.len(),
        p_i64(s, i) == Some((v as int, i + int_digits(v as int).len())),
        s.skip(i + int_digits(v as int).len()) == r,
{
    if v < 0 {
        let mag = (-(v as int)) as nat;
        let ds = u64_digits(mag);
        assert(int_digits(v as int) == seq!['-'] + ds);
        assert(s.skip(i) =~= seq!['-'] + (ds + r));
        lemma_skip_parts(s, i, seq!['-'], ds + r);
        assert(s[i + 0] == seq!['-'][0]);
        assert(s[i] == '-');
        lemma_rt_u64(s, i + 1, (mag as u64), r);
        assert(mag <= 0x8000000000000000);
        assert(s.skip(i + int_digits(v as int).len()) =~= r);
    } else {
        let ds = u64_digits(v as nat);
        lemma_u64_digits_props(v as nat);
        lemma_rt_u64(s, i, (v as u64), r);
        assert(is_digit(s[i]));
        assert(s[i] != '-');
    }
}

/// An encoded number in `i32` range parses back to itself.
proof fn lemma_rt_i32(s: Seq<char>, i: int, v: int, r: Seq<char>)
    requires
        0 <= i <= s.len(),
        i32::MIN as int <= v as int <= i32::MAX as int,
        s.skip(i) == int_digits(v as int) + r,
        r.len() == 0 || !is_digit(r[0]),
    ensures
        i + int_digits(v as int).len() <= s.len(),
        p_i32(s, i) == Some((v as int, i + int_digits(v as int).len())),
        s.skip(i + int_digits(v as int).len()) == r,
{
    lemma_rt_i64(s, i, v, r);
}

/// An encoded flag parses back to itself.
proof fn lemma_rt_bool(s: Seq<char>, i: int, b: bool, r: Seq<char>)
    requires
        0 <= i <= s.len(),
        s.skip(i) == enc_bool(b) + r,
    ensures
        i + 1 <= s.len(),
        p_bool(s, i) == Some((b, i + 1)),
        s.skip(i + 1) == r,
{
    reveal_strlit("0");
    reveal_strlit("1");
    lemma_skip_parts(s, i, enc_bool(b), r);
    assert(enc_bool(b).len() == 1);
    assert(s[i] == enc_bool(b)[0]);
}


/// A string that the length-prefixed record can carry.
pub open spec fn str_wf(s: Seq<char>) -> bool {
    s.len() <= u64::MAX
}

/// A property bag whose values fit the interchange number formats.
pub open spec fn props_wf(p: PropsShape) -> bool {
    str_wf(p.text) && str_wf(p.url) && str_wf(p.icon) && p.items.len() <= u64::MAX && (forall|
        k: int,
    | 0 <= k < p.items.len() ==> str_wf(#[trigger] p.items[k])) && i64::MIN as int <= p.value
        <= i64::MAX as int && i64::MIN as int <= p.min <= i64::MAX as int && i64::MIN as int
        <= p.max <= i64::MAX as int && p.selected <= u64::MAX && i64::MIN as int <= p.year
        <= i64::MAX as int && p.month <= u32::MAX && p.day <= u32::MAX
}

/// A widget whose values fit the interchange number formats.
pub open spec fn widget_wf(w: WidgetShape) -> bool {
    w.id <= u64::MAX && i32::MIN as int <= w.x <= i32::MAX as int && i32::MIN as int <= w.y
        <= i32::MAX as int && i32::MIN as int <= w.w <= i32::MAX as int && i32::MIN as int <= w.h
        <= i32::MAX as int && i32::MIN as int <= w.z <= i32::MAX as int && props_wf(w.props)
}

/// A scene whose values fit the interchange formats: true of the view of
/// every in-memory scene.
pub open spec fn scene_wf(sh: SceneShape) -> bool {
    i32::MIN as int <= sh.canvas_w <= i32::MAX as int && i32::MIN as int <= sh.canvas_h
        <= i32::MAX as int && sh.widgets.len() <= u64::MAX && (forall|k: int|
        0 <= k < sh.widgets.len() ==> widget_wf(#[trigger] sh.widgets[k]))
}

/// An encoded string record parses back to itself.
proof fn lemma_rt_str(s: Seq<char>, i: int, x: Seq<char>, r: Seq<char>)
    requires
        0 <= i <= s.len(),
        str_wf(x),
        s.skip(i) == enc_str(x) + r,
    ensures
        i + enc_str(x).len() <= s.len(),
        p_str(s, i) == Some((x, i + enc_str(x).len())),
        s.skip(i + enc_str(x).len()) == r,
{
    reveal_strlit(" ");
    reveal_strlit("\n");
    let nd = u64_digits(x.len());
    let t1 = nd + (" "@ + (x + ("\n"@ + r)));
    assert(s.skip(i) =~= "s "@ + t1);
    lemma_rt_lit(s, i, "s "@, t1);
    let i1 = i + "s "@.len();
    let rest_u = " "@ + (x + ("\n"@ + r));
    assert(t1 =~= nd + rest_u);
    assert(rest_u[0] == ' ');
    assert(!is_digit(' '));
    lemma_rt_u64(s, i1, x.len() as u64, rest_u);
    let i2 = i1 + nd.len();
    lemma_rt_lit(s, i2, " "@, x + ("\n"@ + r));
    let i3 = i2 + " "@.len();
    lemma_skip_parts(s, i3, x, "\n"@ + r);
    assert(s.subrange(i3, i3 + x.len()) =~= x);
    lemma_rt_lit(s, i3 + x.len(), "\n"@, r);
}

/// A run of encoded string records parses back to the list.
proof fn lemma_rt_str_list(s: Seq<char>, i: int, items: Seq<Seq<char>>, r: Seq<char>)
    requires
        0 <= i <= s.len(),
        forall|k: int| 0 <= k < items.len() ==> str_wf(#[trigger] items[k]),
        s.skip(i) == enc_str_list(items) + r,
    ensures
        i + enc_str_list(items).len() <= s.len(),
        p_str_list(s, i, items.len()) == Some((items, i + enc_str_list(items).len())),
        s.skip(i + enc_str_list(items).len()) == r,
    decreases items.len(),
{
    if items.len() == 0 {
        assert(enc_str_list(items) =~= Seq::<char>::empty());
        assert(s.skip(i) =~= r);
        assert(p_str_list(s, i, 0) == Some((Seq::<Seq<char>>::empty(), i)));
        assert(items =~= Seq::<Seq<char>>::empty());
    } else {
        let tail = items.skip(1);
        assert(s.skip(i) =~= enc_str(items[0]) + (enc_str_list(tail) + r));
        lemma_rt_str(s, i, items[0], enc_str_list(tail) + r);
        let i1 = i + enc_str(items[0]).len();
        lemma_rt_str_list(s, i1, tail, r);
        assert(seq![items[0]] + tail =~= items);
    }
}

/// An encoded item list parses back to the list.
proof fn lemma_rt_items(s: Seq<char>, i: int, items: Seq<Seq<char>>, r: Seq<char>)
    requires
        0 <= i <= s.len(),
        items.len() <= u64::MAX,
        forall|k: int| 0 <= k < items.len() ==> str_wf(#[trigger] items[k]),
        s.skip(i) == enc_items(items) + r,
    ensures
        i + enc_items(items).len() <= s.len(),
        p_items(s, i) == Some((items, i + enc_items(items).len())),
        s.skip(i + enc_items(items).len()) == r,
{
    reveal_strlit("\n");
    let nd = u64_digits(items.len());
    let t1 = nd + ("\n"@ + (enc_str_list(items) + r));
    assert(s.skip(i) =~= "items "@ + t1);
    lemma_rt_lit(s, i, "items "@, t1);
    let i1 = i + "items "@.len();
    let rest_u = "\n"@ + (enc_str_list(items) + r);
    assert(t1 =~= nd + rest_u);
    assert(rest_u[0] == '\n');
    assert(!is_digit('\n'));
    lemma_rt_u64(s, i1, items.len() as u64, rest_u);
    let i2 = i1 + nd.len();
    lemma_rt_lit(s, i2, "\n"@, enc_str_list(items) + r);
    lemma_rt_str_list(s, i2 + 1, items, r);
}


/// An encoded geometry line parses back to its fields.
#[verifier::rlimit(100)]
#[verifier::spinoff_prover]
proof fn lemma_rt_geom(s: Seq<char>, i: int, g: WidgetShape, r: Seq<char>)
    requires
        0 <= i <= s.len(),
        widget_wf(g),
        s.skip(i) == enc_geom_line(g) + r,
    ensures
        i + enc_geom_line(g).len() <= s.len(),
        p_geom(s, i) == Some(
            (
                GeomShape {
                    id: g.id,
                    kind: g.kind,
                    x: g.x,
                    y: g.y,
                    w: g.w,
                    h: g.h,
                    z: g.z,
                    area: g.area,
                },
                i + enc_geom_line(g).len(),
            ),
        ),
        s.skip(i + enc_geom_line(g).len()) == r,
{
    reveal(p_geom);
    reveal(enc_geom_line);
    reveal_strlit(" ");
    reveal_strlit("\n");
    let t15 = "\n"@ + r;
    let t14 = u64_digits(area_code(g.area) as nat) + t15;
    let t13 = " "@ + t14;
    let t12 = int_digits(g.z) + t13;
    let t11 = " "@ + t12;
    let t10 = int_digits(g.h) + t11;
    let t9 = " "@ + t10;
    let t8 = int_digits(g.w) + t9;
    let t7 = " "@ + t8;
    let t6 = int_digits(g.y) + t7;
    let t5 = " "@ + t6;
    let t4 = int_digits(g.x) + t5;
    let t3 = " "@ + t4;
    let t2 = u64_digits(kind_code(g.kind) as nat) + t3;
    let t1 = " "@ + t2;
    let t0 = u64_digits(g.id) + t1;
    assert(s.skip(i) =~= "widget "@ + t0);
    lemma_rt_lit(s, i, "widget "@, t0);
    let i0 = i + "widget "@.len();
    assert(t1[0] == ' ' && !is_digit(' '));
    lemma_rt_u64(s, i0, g.id as u64, t1);
    let i1 = i0 + u64_digits(g.id).len();
    lemma_rt_lit(s, i1, " "@, t2);
    let i2 = i1 + 1;
    assert(0 <= kind_code(g.kind) <= 18);
    assert(t3[0] == ' ');
    lemma_rt_u64(s, i2, kind_code(g.kind) as u64, t3);
    assert(kind_of_code(kind_code(g.kind)) == Some(g.kind));
    let i3 = i2 + u64_digits(kind_code(g.kind) as nat).len();
    lemma_rt_lit(s, i3, " "@, t4);
    let i4 = i3 + 1;
    assert(t5[0] == ' ');
    lemma_rt_i32(s, i4, g.x, t5);
    let i5 = i4 + int_digits(g.x).len();
    lemma_rt_lit(s, i5, " "@, t6);
    let i6 = i5 + 1;
    assert(t7[0] == ' ');
    lemma_rt_i32(s, i6, g.y, t7);
    let i7 = i6 + int_digits(g.y).len();
    lemma_rt_lit(s, i7, " "@, t8);
    let i8 = i7 + 1;
    assert(t9[0] == ' ');
    lemma_rt_i32(s, i8, g.w, t9);
    let i9 = i8 + int_digits(g.w).len();
    lemma_rt_lit(s, i9, " "@, t10);
    let i10 = i9 + 1;
    assert(t11[0] == ' ');
    lemma_rt_i32(s, i10, g.h, t11);
    let i11 = i10 + int_digits(g.h).len();
    lemma_rt_lit(s, i11, " "@, t12);
    let i12 = i11 + 1;
    assert(t13[0] == ' ');
    lemma_rt_i32(s, i12, g.z, t13);
    let i13 = i12 + int_digits(g.z).len();
    lemma_rt_lit(s, i13, " "@, t14);
    let i14 = i13 + 1;
    assert(0 <= area_code(g.area) <= 5);
    assert(t15[0] == '\n' && !is_digit('\n'));
    lemma_rt_u64(s, i14, area_code(g.area) as u64, t15);
    assert(area_of_code(area_code(g.area)) == Some(g.area));
    let i15 = i14 + u64_digits(area_code(g.area) as nat).len();
    lemma_rt_lit(s, i15, "\n"@, r);
}

/// The encoded property-line tail parses back to its fields.
#[verifier::rlimit(100)]
#[verifier::spinoff_prover]
proof fn lemma_rt_props_tail(s: Seq<char>, i: int, p: PropsShape, r: Seq<char>)
    requires
        0 <= i <= s.len(),
        props_wf(p),
        s.skip(i) == enc_props_tail(p) + r,
    ensures
        i + enc_props_tail(p).len() <= s.len(),
        p_props_tail(s, i) == Some(
            ((p.selected, p.year, p.month, p.day), i + enc_props_tail(p).len()),
        ),
        s.skip(i + enc_props_tail(p).len()) == r,
{
    reveal_strlit(" ");
    reveal_strlit("\n");
    let t7 = "\n"@ + r;
    let t6 = u64_digits(p.day) + t7;
    let t5 = " "@ + t6;
    let t4 = u64_digits(p.month) + t5;
    let t3 = " "@ + t4;
    let t2 = int_digits(p.year) + t3;
    let t1 = " "@ + t2;
    let t0 = u64_digits(p.selected) + t1;
    assert(s.skip(i) =~= t0);
    assert(t1[0] == ' ' && !is_digit(' '));
    lemma_rt_u64(s, i, p.selected as u64, t1);
    let i1 = i + u64_digits(p.selected).len();
    lemma_rt_lit(s, i1, " "@, t2);
    let i2 = i1 + 1;
    assert(t3[0] == ' ');
    lemma_rt_i64(s, i2, p.year, t3);
    let i3 = i2 + int_digits(p.year).len();
    lemma_rt_lit(s, i3, " "@, t4);
    let i4 = i3 + 1;
    assert(t5[0] == ' ');
    lemma_rt_u64(s, i4, p.month as u64, t5);
    let i5 = i4 + u64_digits(p.month).len();
    lemma_rt_lit(s, i5, " "@, t6);
    let i6 = i5 + 1;
    assert(t7[0] == '\n' && !is_digit('\n'));
    lemma_rt_u64(s, i6, p.day as u64, t7);
    let i7 = i6 + u64_digits(p.day).len();
    lemma_rt_lit(s, i7, "\n"@, r);
}

/// An encoded property line parses back to its fields.
#[verifier::rlimit(100)]
#[verifier::spinoff_prover]
proof fn lemma_rt_props_line(s: Seq<char>, i: int, p: PropsShape, r: Seq<char>)
    requires
        0 <= i <= s.len(),
        props_wf(p),
        s.skip(i) == enc_props_line(p) + r,
    ensures
        i + enc_props_line(p).len() <= s.len(),
        p_props_line(s, i) == Some(
            (
                PropsLineShape {
                    checked: p.checked,
                    value: p.value,
                    min: p.min,
                    max: p.max,
                    selected: p.selected,
                    year: p.year,
                    month: p.month,
                    day: p.day,
                },
                i + enc_props_line(p).len(),
            ),
        ),
        s.skip(i + enc_props_line(p).len()) == r,
{
    reveal_strlit(" ");
    let t8 = enc_props_tail(p) + r;
    let t7 = " "@ + t8;
    let t6 = int_digits(p.max) + t7;
    let t5 = " "@ + t6;
    let t4 = int_digits(p.min) + t5;
    let t3 = " "@ + t4;
    let t2 = int_digits(p.value) + t3;
    let t1 = " "@ + t2;
    let t0 = enc_bool(p.checked) + t1;
    assert(s.skip(i) == "props "@ + t0) by {
        reveal(enc_props_line);
        assert(s.skip(i) =~= "props "@ + t0);
    }
    lemma_rt_lit(s, i, "props "@, t0);
    let i0 = i + "props "@.len();
    lemma_rt_bool(s, i0, p.checked, t1);
    let i1 = i0 + 1;
    lemma_rt_lit(s, i1, " "@, t2);
    let i2 = i1 + 1;
    assert(t3[0] == ' ' && !is_digit(' '));
    lemma_rt_i64(s, i2, p.value, t3);
    let i3 = i2 + int_digits(p.value).len();
    lemma_rt_lit(s, i3, " "@, t4);
    let i4 = i3 + 1;
    assert(t5[0] == ' ');
    lemma_rt_i64(s, i4, p.min, t5);
    let i5 = i4 + int_digits(p.min).len();
    lemma_rt_lit(s, i5, " "@, t6);
    let i6 = i5 + 1;
    assert(t7[0] == ' ');
    lemma_rt_i64(s, i6, p.max, t7);
    let i7 = i6 + int_digits(p.max).len();
    lemma_rt_lit(s, i7, " "@, t8);
    let i8 = i7 + 1;
    lemma_rt_props_tail(s, i8, p, r);
    let i9 = i8 + enc_props_tail(p).len();
    assert(i9 == i + enc_props_line(p).len()) by {
        reveal(enc_props_line);
    }
    assert(p_props_line(s, i) == Some(
        (
            PropsLineShape {
                checked: p.checked,
                value: p.value,
                min: p.min,
                max: p.max,
                selected: p.selected,
                year: p.year,
                month: p.month,
                day: p.day,
            },
            i9,
        ),
    )) by {
        reveal(p_props_line);
    }
}

/// An encoded widget record parses back to the widget.
#[verifier::rlimit(100)]
proof fn lemma_rt_widget(s: Seq<char>, i: int, w: WidgetShape, r: Seq<char>)
    requires
        0 <= i <= s.len(),
        widget_wf(w),
        s.skip(i) == enc_widget(w) + r,
    ensures
        i + enc_widget(w).len() <= s.len(),
        p_widget(s, i) == Some((w, i + enc_widget(w).len())),
        s.skip(i + enc_widget(w).len()) == r,
{
    reveal(p_widget);
    reveal(enc_widget);
    let t5 = enc_items(w.props.items) + r;
    let t4 = enc_str(w.props.icon) + t5;
    let t3 = enc_str(w.props.url) + t4;
    let t2 = enc_str(w.props.text) + t3;
    let t1 = enc_props_line(w.props) + t2;
    assert(s.skip(i) =~= enc_geom_line(w) + t1);
    lemma_rt_geom(s, i, w, t1);
    let i1 = i + enc_geom_line(w).len();
    lemma_rt_props_line(s, i1, w.props, t2);
    let i2 = i1 + enc_props_line(w.props).len();
    lemma_rt_str(s, i2, w.props.text, t3);
    let i3 = i2 + enc_str(w.props.text).len();
    lemma_rt_str(s, i3, w.props.url, t4);
    let i4 = i3 + enc_str(w.props.url).len();
    lemma_rt_str(s, i4, w.props.icon, t5);
    let i5 = i4 + enc_str(w.props.icon).len();
    lemma_rt_items(s, i5, w.props.items, r);
    assert(w.props == PropsShape {
        text: w.props.text,
        checked: w.props.checked,
        value: w.props.value,
        min: w.props.min,
        max: w.props.max,
        items: w.props.items,
        selected: w.props.selected,
        url: w.props.url,
        year: w.props.year,
        month: w.props.month,
        day: w.props.day,
        icon: w.props.icon,
    });
    assert(w == WidgetShape {
        id: w.id,
        kind: w.kind,
        x: w.x,
        y: w.y,
        w: w.w,
        h: w.h,
        z: w.z,
        area: w.area,
        props: w.props,
    });
}

/// A run of encoded widget records parses back to the list.
#[verifier::rlimit(100)]
#[verifier::spinoff_prover]
proof fn lemma_rt_widget_list(s: Seq<char>, i: int, ws: Seq<WidgetShape>, r: Seq<char>)
    requires
        0 <= i <= s.len(),
        forall|k: int| 0 <= k < ws.len() ==> widget_wf(#[trigger] ws[k]),
        s.skip(i) == enc_widget_list(ws) + r,
    ensures
        i + enc_widget_list(ws).len() <= s.len(),
        p_widget_list(s, i, ws.len()) == Some((ws, i + enc_widget_list(ws).len())),
        s.skip(i + enc_widget_list(ws).len()) == r,
    decreases ws.len(),
{
    if ws.len() == 0 {
        assert(enc_widget_list(ws) =~= Seq::<char>::empty());
        assert(s.skip(i) =~= r);
        assert(ws =~= Seq::<WidgetShape>::empty());
    } else {
        let tail = ws.skip(1);
        assert(s.skip(i) =~= enc_widget(ws[0]) + (enc_widget_list(tail) + r));
        lemma_rt_widget(s, i, ws[0], enc_widget_list(tail) + r);
        let i1 = i + enc_widget(ws[0]).len();
        lemma_rt_widget_list(s, i1, tail, r);
        assert(seq![ws[0]] + tail =~= ws);
    }
}

/// The encoded panel flags parse back to themselves.
proof fn lemma_rt_panels(s: Seq<char>, i: int, sh: SceneShape, r: Seq<char>)
    requires
        0 <= i <= s.len(),
        s.skip(i) == enc_panels(sh) + r,
    ensures
        i + enc_panels(sh).len() <= s.len(),
        enc_panels(sh).len() == 7,
        p_panels(s, i) == Some(((sh.top, sh.bottom, sh.left, sh.right), i + 7)),
        s.skip(i + 7) == r,
{
    reveal_strlit(" ");
    reveal_strlit("0");
    reveal_strlit("1");
    let t5 = enc_bool(sh.right) + r;
    let t4 = " "@ + t5;
    let t3 = enc_bool(sh.left) + t4;
    let t2 = " "@ + t3;
    let t1 = enc_bool(sh.bottom) + t2;
    let t0 = " "@ + t1;
    assert(s.skip(i) =~= enc_bool(sh.top) + t0);
    lemma_rt_bool(s, i, sh.top, t0);
    lemma_rt_lit(s, i + 1, " "@, t1);
    lemma_rt_bool(s, i + 2, sh.bottom, t2);
    lemma_rt_lit(s, i + 3, " "@, t3);
    lemma_rt_bool(s, i + 4, sh.left, t4);
    lemma_rt_lit(s, i + 5, " "@, t5);
    lemma_rt_bool(s, i + 6, sh.right, r);
}

/// The encoded document header parses back to the scene's header fields,
/// leaving exactly the widget records.
#[verifier::rlimit(100)]
#[verifier::spinoff_prover]
proof fn lemma_rt_header_enc(sh: SceneShape)
    requires
        scene_wf(sh),
    ensures
        ({
            let s = encode_spec(sh);
            let j = s.len() - enc_widget_list(sh.widgets).len();
            0 <= j <= s.len() && p_header(s) == Some(
                (
                    HeaderShape {
                        canvas_w: sh.canvas_w,
                        canvas_h: sh.canvas_h,
                        top: sh.top,
                        bottom: sh.bottom,
                        left: sh.left,
                        right: sh.right,
                        n: sh.widgets.len(),
                    },
                    j,
                ),
            ) && s.skip(j) == enc_widget_list(sh.widgets)
        }),
{
    reveal_strlit(" ");
    reveal_strlit("\n");
    reveal_strlit("\npanels ");
    reveal_strlit("\nwidgets ");
    let s = encode_spec(sh);
    let t9 = enc_widget_list(sh.widgets);
    let t8 = "\n"@ + t9;
    let t7 = u64_digits(sh.widgets.len()) + t8;
    let t6 = "\nwidgets "@ + t7;
    let t5 = enc_panels(sh) + t6;
    let t4 = "\npanels "@ + t5;
    let t3 = int_digits(sh.canvas_h) + t4;
    let t2 = " "@ + t3;
    let t1 = int_digits(sh.canvas_w) + t2;
    assert(s == "radproject 1\ncanvas "@ + t1) by {
        reveal(encode_spec);
        assert(s =~= "radproject 1\ncanvas "@ + t1);
    }
    assert(s.skip(0) =~= s);
    lemma_rt_lit(s, 0, "radproject 1\ncanvas "@, t1);
    let i0: int = 0 + "radproject 1\ncanvas "@.len() as int;
    assert(t2[0] == ' ' && !is_digit(' '));
    lemma_rt_i32(s, i0, sh.canvas_w, t2);
    let i1 = i0 + int_digits(sh.canvas_w).len();
    lemma_rt_lit(s, i1, " "@, t3);
    let i2 = i1 + 1;
    assert(t4[0] == '\n' && !is_digit('\n'));
    lemma_rt_i32(s, i2, sh.canvas_h, t4);
    let i3 = i2 + int_digits(sh.canvas_h).len();
    lemma_rt_lit(s, i3, "\npanels "@, t5);
    let i4 = i3 + "\npanels "@.len();
    lemma_rt_panels(s, i4, sh, t6);
    let i5 = i4 + 7;
    lemma_rt_lit(s, i5, "\nwidgets "@, t7);
    let i6 = i5 + "\nwidgets "@.len();
    assert(t8[0] == '\n');
    lemma_rt_u64(s, i6, sh.widgets.len() as u64, t8);
    let i7 = i6 + u64_digits(sh.widgets.len()).len();
    lemma_rt_lit(s, i7, "\n"@, t9);
    let i8 = i7 + 1;
    assert(i8 == s.len() - enc_widget_list(sh.widgets).len());
    assert(p_header(s) == Some(
        (
            HeaderShape {
                canvas_w: sh.canvas_w,
                canvas_h: sh.canvas_h,
                top: sh.top,
                bottom: sh.bottom,
                left: sh.left,
                right: sh.right,
                n: sh.widgets.len(),
            },
            i8,
        ),
    )) by {
        reveal(p_header);
    }
}

/// Round trip: decoding an encoded scene reproduces every widget's id,
/// kind, geometry, dock area and property bag exactly. `scene_wf` holds of
/// the view of every in-memory scene: it only asks that each stored value
/// fit the machine type that holds it.
#[verifier::rlimit(100)]
#[verifier::spinoff_prover]
pub proof fn lemma_codec_roundtrip(sh: SceneShape)
    requires
        scene_wf(sh),
    ensures
        decode_spec(encode_spec(sh)) == Some(sh),
{
    reveal(decode_spec);
    lemma_rt_header_enc(sh);
    let s = encode_spec(sh);
    let j = s.len() - enc_widget_list(sh.widgets).len();
    let empty_r = Seq::<char>::empty();
    lemma_concat_empty(enc_widget_list(sh.widgets));
    assert(s.skip(j) == enc_widget_list(sh.widgets) + empty_r);
    lemma_rt_widget_list(s, j, sh.widgets, empty_r);
    assert(j + enc_widget_list(sh.widgets).len() == s.len());
    assert(sh == SceneShape {
        widgets: sh.widgets,
        canvas_w: sh.canvas_w,
        canvas_h: sh.canvas_h,
        top: sh.top,
        bottom: sh.bottom,
        left: sh.left,
        right: sh.right,
    });
}

} // verus!
