//! The scene model: widget identities, dock areas, widget kinds, the typed
//! property bag, and the document that owns them.
//!
//! Geometry is held in tenths of a pixel and numeric widget values in
//! thousandths, so that the generator's fixed-precision decimal output
//! (one decimal for geometry, three for values) is exact.

use vstd::prelude::*;

verus! {

/// Opaque unique widget handle; also the draw-order key and the numeric
/// suffix of every generated identifier.
#[derive(Clone, Copy, Debug, PartialEq, Eq, Hash, Structural)]
pub struct WidgetId(pub u64);

impl WidgetId {
    pub fn new(id: u64) -> (r: Self)
        ensures
            r.0 == id,
    {
        WidgetId(id)
    }

    /// The id reinterpreted as a draw-order key.
    pub fn as_z(&self) -> (r: i32)
        ensures
            r == self.0 as i32,
    {
        #[verifier::truncate]
        let z = self.0 as i32;
        z
    }

    pub fn value(&self) -> (r: u64)
        ensures
            r == self.0,
    {
        self.0
    }
}

/// A selection index normalized at read time: clamped to the item count,
/// and zero when the list is empty.
pub open spec fn sel_default(n: nat, sel: nat) -> nat {
    if n == 0 {
        0
    } else if sel < n {
        sel
    } else {
        (n - 1) as nat
    }
}

/// The structural region of the generated program a widget is emitted into.
/// `Free` is a semantic alias for the central canvas.
#[derive(Clone, Copy, Debug, PartialEq, Eq, Structural)]
pub enum DockArea {
    Free,
    Top,
    Bottom,
    Left,
    Right,
    Center,
}

impl Default for DockArea {
    fn default() -> (r: Self)
        ensures
            r == DockArea::Free,
    {
        DockArea::Free
    }
}

/// The closed set of supported control types.
#[derive(Clone, Copy, Debug, PartialEq, Eq, Structural)]
pub enum WidgetKind {
    MenuButton,
    Label,
    Button,
    ImageTextButton,
    Checkbox,
    TextEdit,
    Slider,
    ProgressBar,
    RadioGroup,
    Link,
    Hyperlink,
    SelectableLabel,
    ComboBox,
    Separator,
    CollapsingHeader,
    DatePicker,
    AngleSelector,
    Password,
    Tree,
}

/// The superset property bag. Only the subset relevant to a widget's kind is
/// meaningful; the rest is ignored but still carried and serialized.
/// `value`, `min` and `max` are in thousandths; `year`/`month`/`day` are the
/// stored date components, normalized only at the point of use.
#[derive(Clone, Debug)]
pub struct WidgetProps {
    pub text: String,
    pub checked: bool,
    pub value: i64,
    pub min: i64,
    pub max: i64,
    pub items: Vec<String>,
    pub selected: u64,
    pub url: String,
    pub year: i64,
    pub month: u32,
    pub day: u32,
    pub icon: String,
}

impl Default for WidgetProps {
    fn default() -> (r: Self)
        ensures
            r.text@ == "Label"@,
            r.checked == false,
            r.value == 500,
            r.min == 0,
            r.max == 1000,
            r.items.deep_view() == Seq::<Seq<char>>::empty(),
            r.selected == 0,
            r.url@ == "https://example.com"@,
            r.year == 2024,
            r.month == 1,
            r.day == 1,
            r.icon@ == "🖼️"@,
    {
        WidgetProps {
            text: "Label".to_owned(),
            checked: false,
            value: 500,
            min: 0,
            max: 1000,
            items: Vec::new(),
            selected: 0,
            url: "https://example.com".to_owned(),
            year: 2024,
            month: 1,
            day: 1,
            icon: "🖼️".to_owned(),
        }
    }
}

/// One placed control. Position is the top-left corner relative to the
/// origin of the assigned dock region; position and size are in tenths of
/// a pixel.
#[derive(Clone, Debug)]
pub struct Widget {
    pub id: WidgetId,
    pub kind: WidgetKind,
    pub x: i32,
    pub y: i32,
    pub w: i32,
    pub h: i32,
    pub z: i32,
    pub area: DockArea,
    pub props: WidgetProps,
}

/// The design document: the ordered widget list, the canvas size in tenths
/// of a pixel, and the enable flag of each docked region.
#[derive(Clone, Debug)]
pub struct Project {
    pub widgets: Vec<Widget>,
    pub canvas_w: i32,
    pub canvas_h: i32,
    pub panel_top_enabled: bool,
    pub panel_bottom_enabled: bool,
    pub panel_left_enabled: bool,
    pub panel_right_enabled: bool,
}

impl Default for Project {
    fn default() -> (r: Self)
        ensures
            r.widgets@ == Seq::<Widget>::empty(),
            r.canvas_w == 12000,
            r.canvas_h == 8000,
            r.panel_top_enabled == false,
            r.panel_bottom_enabled == false,
            r.panel_left_enabled == false,
            r.panel_right_enabled == false,
    {
        Project {
            widgets: Vec::new(),
            canvas_w: 12000,
            canvas_h: 8000,
            panel_top_enabled: false,
            panel_bottom_enabled: false,
            panel_left_enabled: false,
            panel_right_enabled: false,
        }
    }
}

/// Default width, in tenths, of a freshly spawned widget of each kind.
pub open spec fn spawn_w(kind: WidgetKind) -> int {
    match kind {
        WidgetKind::MenuButton => 1800,
        WidgetKind::Label => 1400,
        WidgetKind::Button => 1600,
        WidgetKind::ImageTextButton => 2000,
        WidgetKind::Checkbox => 1600,
        WidgetKind::TextEdit => 2200,
        WidgetKind::Slider => 2200,
        WidgetKind::ProgressBar => 2200,
        WidgetKind::RadioGroup => 2000,
        WidgetKind::Link => 1600,
        WidgetKind::Hyperlink => 2000,
        WidgetKind::SelectableLabel => 1800,
        WidgetKind::ComboBox => 2200,
        WidgetKind::Separator => 2200,
        WidgetKind::CollapsingHeader => 2600,
        WidgetKind::DatePicker => 2000,
        WidgetKind::AngleSelector => 2200,
        WidgetKind::Password => 2200,
        WidgetKind::Tree => 2600,
    }
}

/// Default height, in tenths, of a freshly spawned widget of each kind.
pub open spec fn spawn_h(kind: WidgetKind) -> int {
    match kind {
        WidgetKind::MenuButton => 280,
        WidgetKind::Label => 240,
        WidgetKind::Button => 320,
        WidgetKind::ImageTextButton => 360,
        WidgetKind::Checkbox => 280,
        WidgetKind::TextEdit => 360,
        WidgetKind::Slider => 240,
        WidgetKind::ProgressBar => 200,
        WidgetKind::RadioGroup => 800,
        WidgetKind::Link => 200,
        WidgetKind::Hyperlink => 200,
        WidgetKind::SelectableLabel => 240,
        WidgetKind::ComboBox => 280,
        WidgetKind::Separator => 80,
        WidgetKind::CollapsingHeader => 800,
        WidgetKind::DatePicker => 280,
        WidgetKind::AngleSelector => 280,
        WidgetKind::Password => 360,
        WidgetKind::Tree => 2000,
    }
}

/// Default label text of a freshly spawned widget of each kind.
pub open spec fn spawn_text(kind: WidgetKind) -> Seq<char> {
    match kind {
        WidgetKind::MenuButton => "Menu"@,
        WidgetKind::Label => "Label"@,
        WidgetKind::Button => "Button"@,
        WidgetKind::ImageTextButton => "Button"@,
        WidgetKind::Checkbox => "Checkbox"@,
        WidgetKind::TextEdit => "Type here"@,
        WidgetKind::Slider => "Value"@,
        WidgetKind::ProgressBar => ""@,
        WidgetKind::RadioGroup => "Radio Group"@,
        WidgetKind::Link => "Link text"@,
        WidgetKind::Hyperlink => "Open website"@,
        WidgetKind::SelectableLabel => "Selectable"@,
        WidgetKind::ComboBox => "Choose one"@,
        WidgetKind::Separator => "Label"@,
        WidgetKind::CollapsingHeader => "Section"@,
        WidgetKind::DatePicker => "Pick a date"@,
        WidgetKind::AngleSelector => "Angle (deg)"@,
        WidgetKind::Password => "password"@,
        WidgetKind::Tree => "Tree"@,
    }
}

/// Default item list of a freshly spawned widget of each kind.
pub open spec fn spawn_items(kind: WidgetKind) -> Seq<Seq<char>> {
    match kind {
        WidgetKind::MenuButton => seq!["First"@, "Second"@, "Third"@],
        WidgetKind::RadioGroup => seq!["Option A"@, "Option B"@, "Option C"@],
        WidgetKind::ComboBox => seq!["Red"@, "Green"@, "Blue"@],
        WidgetKind::Tree => seq![
            "Animals"@,
            "  Mammals"@,
            "    Dogs"@,
            "    Cats"@,
            "  Birds"@,
            "Plants"@,
            "  Trees"@,
            "  Flowers"@,
        ],
        _ => Seq::<Seq<char>>::empty(),
    }
}

/// Default numeric value (in thousandths) of a freshly spawned widget.
pub open spec fn spawn_value(kind: WidgetKind) -> int {
    match kind {
        WidgetKind::Slider => 42000,
        WidgetKind::ProgressBar => 250,
        WidgetKind::AngleSelector => 45000,
        _ => 500,
    }
}

/// Default numeric range minimum (in thousandths).
pub open spec fn spawn_min(kind: WidgetKind) -> int {
    match kind {
        WidgetKind::Slider => 0,
        WidgetKind::ProgressBar => 0,
        WidgetKind::AngleSelector => 0,
        _ => 0,
    }
}

/// Default numeric range maximum (in thousandths).
pub open spec fn spawn_max(kind: WidgetKind) -> int {
    match kind {
        WidgetKind::Slider => 100000,
        WidgetKind::ProgressBar => 1000,
        WidgetKind::AngleSelector => 360000,
        _ => 1000,
    }
}

/// Default checked flag (`CollapsingHeader` starts open).
pub open spec fn spawn_checked(kind: WidgetKind) -> bool {
    match kind {
        WidgetKind::CollapsingHeader => true,
        _ => false,
    }
}

/// Default stored year.
pub open spec fn spawn_year(kind: WidgetKind) -> int {
    match kind {
        WidgetKind::DatePicker => 2025,
        _ => 2024,
    }
}

/// The default property bag a spawn action gives a widget of `kind`.
pub fn default_props(kind: WidgetKind) -> (r: WidgetProps)
    ensures
        r.text@ == spawn_text(kind),
        r.checked == spawn_checked(kind),
        r.value == spawn_value(kind),
        r.min == spawn_min(kind),
        r.max == spawn_max(kind),
        r.items.deep_view() == spawn_items(kind),
        r.selected == 0,
        r.url@ == "https://example.com"@,
        r.year == spawn_year(kind),
        r.month == 1,
        r.day == 1,
        r.icon@ == "🖼️"@,
{
    let mut p = WidgetProps::default();
    match kind {
        WidgetKind::MenuButton => {
            p.text = "Menu".to_owned();
            let mut items: Vec<String> = Vec::new();
            items.push("First".to_owned());
            items.push("Second".to_owned());
            items.push("Third".to_owned());
            p.items = items;
        },
        WidgetKind::Label => {
            p.text = "Label".to_owned();
        },
        WidgetKind::Button => {
            p.text = "Button".to_owned();
        },
        WidgetKind::ImageTextButton => {
            p.text = "Button".to_owned();
            p.icon = "🖼️".to_owned();
        },
        WidgetKind::Checkbox => {
            p.text = "Checkbox".to_owned();
        },
        WidgetKind::TextEdit => {
            p.text = "Type here".to_owned();
        },
        WidgetKind::Slider => {
            p.text = "Value".to_owned();
            p.min = 0;
            p.max = 100000;
            p.value = 42000;
            p.checked = false;
        },
        WidgetKind::ProgressBar => {
            p.text = "".to_owned();
            p.value = 250;
            p.min = 0;
            p.max = 1000;
            p.checked = false;
        },
        WidgetKind::RadioGroup => {
            p.text = "Radio Group".to_owned();
            let mut items: Vec<String> = Vec::new();
            items.push("Option A".to_owned());
            items.push("Option B".to_owned());
            items.push("Option C".to_owned());
            p.items = items;
        },
        WidgetKind::Link => {
            p.text = "Link text".to_owned();
        },
        WidgetKind::Hyperlink => {
            p.text = "Open website".to_owned();
            p.url = "https://example.com".to_owned();
        },
        WidgetKind::SelectableLabel => {
            p.text = "Selectable".to_owned();
            p.checked = false;
        },
        WidgetKind::ComboBox => {
            p.text = "Choose one".to_owned();
            let mut items: Vec<String> = Vec::new();
            items.push("Red".to_owned());
            items.push("Green".to_owned());
            items.push("Blue".to_owned());
            p.items = items;
        },
        WidgetKind::Separator => {},
        WidgetKind::CollapsingHeader => {
            p.text = "Section".to_owned();
            p.checked = true;
        },
        WidgetKind::DatePicker => {
            p.text = "Pick a date".to_owned();
            p.year = 2025;
            p.month = 1;
            p.day = 1;
        },
        WidgetKind::AngleSelector => {
            p.text = "Angle (deg)".to_owned();
            p.min = 0;
            p.max = 360000;
            p.value = 45000;
        },
        WidgetKind::Password => {
            p.text = "password".to_owned();
        },
        WidgetKind::Tree => {
            p.text = "Tree".to_owned();
            let mut items: Vec<String> = Vec::new();
            items.push("Animals".to_owned());
            items.push("  Mammals".to_owned());
            items.push("    Dogs".to_owned());
            items.push("    Cats".to_owned());
            items.push("  Birds".to_owned());
            items.push("Plants".to_owned());
            items.push("  Trees".to_owned());
            items.push("  Flowers".to_owned());
            p.items = items;
        },
    }
    p
}

/// Builds the widget a spawn action adds: fresh id, kind-specific default
/// geometry and properties, the id reused as the draw-order key.
pub fn spawn_widget(id: u64, kind: WidgetKind, x: i32, y: i32, area: DockArea) -> (r: Widget)
    ensures
        r.id.0 == id,
        r.kind == kind,
        r.x == x,
        r.y == y,
        r.w == spawn_w(kind),
        r.h == spawn_h(kind),
        r.z == id as i32,
        r.area == area,
        r.props.text@ == spawn_text(kind),
        r.props.checked == spawn_checked(kind),
        r.props.value == spawn_value(kind),
        r.props.min == spawn_min(kind),
        r.props.max == spawn_max(kind),
        r.props.items.deep_view() == spawn_items(kind),
        r.props.selected == 0,
        r.props.year == spawn_year(kind),
        r.props.month == 1,
        r.props.day == 1,
{
    let wid = WidgetId::new(id);
    let z = wid.as_z();
    let (w, h): (i32, i32) = match kind {
        WidgetKind::MenuButton => (1800, 280),
        WidgetKind::Label => (1400, 240),
        WidgetKind::Button => (1600, 320),
        WidgetKind::ImageTextButton => (2000, 360),
        WidgetKind::Checkbox => (1600, 280),
        WidgetKind::TextEdit => (2200, 360),
        WidgetKind::Slider => (2200, 240),
        WidgetKind::ProgressBar => (2200, 200),
        WidgetKind::RadioGroup => (2000, 800),
        WidgetKind::Link => (1600, 200),
        WidgetKind::Hyperlink => (2000, 200),
        WidgetKind::SelectableLabel => (1800, 240),
        WidgetKind::ComboBox => (2200, 280),
        WidgetKind::Separator => (2200, 80),
        WidgetKind::CollapsingHeader => (2600, 800),
        WidgetKind::DatePicker => (2000, 280),
        WidgetKind::AngleSelector => (2200, 280),
        WidgetKind::Password => (2200, 360),
        WidgetKind::Tree => (2600, 2000),
    };
    let props = default_props(kind);
    Widget { id: wid, kind, x, y, w, h, z, area, props }
}

} // verus!
