//! The graph viewer: the kinds of graph, their names, the layout of the graph
//! area and the straight line of the linear equation.
use vstd::prelude::*;
use crate::input::{KeyCode, Language};

verus! {

broadcast use vstd::string::group_string_axioms;

/// Strength of the axes.
pub const AXIS_SHARPNESS: u8 = 255;
/// Strength of the graphs.
pub const GRAPH_SHARPNESS: u8 = 130;
/// Height of a menu box.
pub const ITEM_HEIGHT: i16 = 5;
/// Width of a menu box.
pub const ITEM_WIDTH: i16 = 5;
/// Space between menu boxes.
pub const ITEM_SPACING: i16 = 2;
/// Width of the menu panel on the left.
pub const MENU_PANEL_WIDTH: i16 = 9;

/// The kinds of graph.
#[derive(Clone, Copy, Debug, PartialEq, Eq, Structural)]
pub enum GraphType {
    LinearEquation,
    QuadraticEquation,
    TrigonometricFunction,
    ExponentialFunction,
    BarChart,
    PieChart,
    LineGraph,
}

pub open spec fn graph_text_ko(g: GraphType) -> Seq<char> {
    match g {
        GraphType::LinearEquation => "선형 방정식"@,
        GraphType::QuadraticEquation => "이차 방정식"@,
        GraphType::TrigonometricFunction => "삼각 함수"@,
        GraphType::ExponentialFunction => "지수 함수"@,
        GraphType::BarChart => "막대 차트"@,
        GraphType::PieChart => "파이 차트"@,
        GraphType::LineGraph => "선 그래프"@,
    }
}

pub open spec fn graph_text_en(g: GraphType) -> Seq<char> {
    match g {
        GraphType::LinearEquation => "Linear Equation"@,
        GraphType::QuadraticEquation => "Quadratic Equation"@,
        GraphType::TrigonometricFunction => "Trigonometric Function"@,
        GraphType::ExponentialFunction => "Exponential Function"@,
        GraphType::BarChart => "Bar Chart"@,
        GraphType::PieChart => "Pie Chart"@,
        GraphType::LineGraph => "Line Graph"@,
    }
}

impl GraphType {
    /// The name in a language (Korean for languages without names of their own).
    pub fn text(&self, lang: Language) -> (r: &'static str)
        ensures
            r@ == if lang == Language::En { graph_text_en(*self) } else { graph_text_ko(*self) },
    {
        match lang {
            Language::En => self.text_en(),
            _ => self.text_ko(),
        }
    }

    /// The Korean name.
    pub fn text_ko(&self) -> (r: &'static str)
        ensures
            r@ == graph_text_ko(*self),
    {
        match self {
            GraphType::LinearEquation => "선형 방정식",
            GraphType::QuadraticEquation => "이차 방정식",
            GraphType::TrigonometricFunction => "삼각 함수",
            GraphType::ExponentialFunction => "지수 함수",
            GraphType::BarChart => "막대 차트",
            GraphType::PieChart => "파이 차트",
            GraphType::LineGraph => "선 그래프",
        }
    }

    /// The English name.
    pub fn text_en(&self) -> (r: &'static str)
        ensures
            r@ == graph_text_en(*self),
    {
        match self {
            GraphType::LinearEquation => "Linear Equation",
            GraphType::QuadraticEquation => "Quadratic Equation",
            GraphType::TrigonometricFunction => "Trigonometric Function",
            GraphType::ExponentialFunction => "Exponential Function",
            GraphType::BarChart => "Bar Chart",
            GraphType::PieChart => "Pie Chart",
            GraphType::LineGraph => "Line Graph",
        }
    }
}

/// The graphs in menu order.
pub open spec fn graph_list() -> Seq<GraphType> {
    seq![
        GraphType::LinearEquation,
        GraphType::QuadraticEquation,
        GraphType::TrigonometricFunction,
        GraphType::ExponentialFunction,
        GraphType::BarChart,
        GraphType::PieChart,
        GraphType::LineGraph,
    ]
}

/// The graphs in menu order.
pub fn all_graphs() -> (r: Vec<GraphType>)
    ensures
        r@ == graph_list(),
{
    let mut v: Vec<GraphType> = Vec::new();
    v.push(GraphType::LinearEquation);
    v.push(GraphType::QuadraticEquation);
    v.push(GraphType::TrigonometricFunction);
    v.push(GraphType::ExponentialFunction);
    v.push(GraphType::BarChart);
    v.push(GraphType::PieChart);
    v.push(GraphType::LineGraph);
    assert(v@ =~= graph_list());
    v
}

/// Where the graph is drawn on a display: right of the menu panel, with a margin
/// of one pin above and below and two on the right.
#[derive(Clone, Copy, Debug, PartialEq, Eq, Structural)]
pub struct GraphArea {
    pub offset_x: i16,
    pub offset_y: i16,
    pub width: i16,
    pub height: i16,
    pub cx: i16,
    pub cy: i16,
    pub screen_cx: i16,
    pub screen_cy: i16,
}

/// The graph area of a display of a reasonable size (the axes cross at the
/// area's centre).
pub fn graph_area(display_width: i16, display_height: i16) -> (r: GraphArea)
    requires
        0 <= display_width <= 10000,
        0 <= display_height <= 10000,
    ensures
        r.offset_x == MENU_PANEL_WIDTH,
        r.offset_y == 1,
        r.width == display_width - MENU_PANEL_WIDTH - 2,
        r.height == display_height - 2,
        r.cx == crate::find_dot::half(r.width),
        r.cy == crate::find_dot::half(r.height),
        r.screen_cx == r.offset_x + r.cx,
        r.screen_cy == r.offset_y + r.cy,
{
    let offset_x = MENU_PANEL_WIDTH;
    let offset_y: i16 = 1;
    let width = display_width - offset_x - 2;
    let height = display_height - 2;
    let cx = width / 2;
    let cy = height / 2;
    GraphArea { offset_x, offset_y, width, height, cx, cy, screen_cx: offset_x + cx, screen_cy: offset_y + cy }
}

/// The pin of the line y = x through the area's centre, moved `x_offset` pins
/// across, in column `x` of the area.
pub open spec fn linear_pin(a: GraphArea, x_offset: i16, x: int) -> (int, int) {
    (a.offset_x + x, a.screen_cy - (a.offset_x + x - (a.screen_cx + x_offset)))
}

/// The pins of that line in the first `n` columns that lie inside the area.
pub open spec fn linear_pins(a: GraphArea, x_offset: i16, n: int) -> Seq<(int, int)>
    decreases n,
{
    if n <= 0 {
        Seq::empty()
    } else {
        let prev = linear_pins(a, x_offset, n - 1);
        let p = linear_pin(a, x_offset, n - 1);
        if a.offset_y <= p.1 < a.offset_y + a.height {
            prev.push(p)
        } else {
            prev
        }
    }
}

pub open spec fn pin_views(v: Seq<(i16, i16)>) -> Seq<(int, int)> {
    v.map_values(|p: (i16, i16)| (p.0 as int, p.1 as int))
}

pub open spec fn fits_i16(v: int) -> bool {
    i16::MIN <= v <= i16::MAX
}

/// Whether drawing column `x` of the line computes only numbers that fit in
/// `i16`: the pin's column, the shifted centre, the distance between them, the
/// pin's row and the bottom of the area.
pub open spec fn column_fits(a: GraphArea, x_offset: i16, x: int) -> bool {
    let px = a.offset_x + x;
    let s = a.screen_cx + x_offset;
    &&& fits_i16(px)
    &&& fits_i16(s)
    &&& fits_i16(px - s)
    &&& fits_i16(a.screen_cy - (px - s))
    &&& fits_i16(a.offset_y + a.height)
}

/// Whether every column of the area can be drawn without overflow.
pub open spec fn line_fits(a: GraphArea, x_offset: i16) -> bool {
    forall|x: int| 0 <= x < a.width ==> #[trigger] column_fits(a, x_offset, x)
}

fn fits16(v: i32) -> (b: bool)
    ensures
        b == fits_i16(v as int),
{
    -32768 <= v && v <= 32767
}

/// Whether the line with this offset can be drawn (see `line_fits`): it is
/// enough to look at the first and the last column.
pub fn line_fits_exec(a: GraphArea, x_offset: i16) -> (r: bool)
    ensures
        r == line_fits(a, x_offset),
{
    if a.width <= 0 {
        return true;
    }
    let lo: i32 = a.offset_x as i32;
    let hi: i32 = a.offset_x as i32 + a.width as i32 - 1;
    let s: i32 = a.screen_cx as i32 + x_offset as i32;
    let bottom: i32 = a.offset_y as i32 + a.height as i32;
    let ok = fits16(lo) && fits16(hi) && fits16(s) && fits16(lo - s) && fits16(hi - s)
        && fits16(a.screen_cy as i32 - (lo - s)) && fits16(a.screen_cy as i32 - (hi - s)) && fits16(bottom);
    proof {
        let l = lo as int;
        let h = hi as int;
        let si = s as int;
        let cy = a.screen_cy as int;
        if ok {
            assert forall|x: int| 0 <= x < a.width implies #[trigger] column_fits(a, x_offset, x) by {}
        } else if !(fits_i16(l) && fits_i16(si) && fits_i16(l - si) && fits_i16(cy - (l - si)) && fits_i16(bottom as int)) {
            assert(!column_fits(a, x_offset, 0));
        } else {
            assert(!column_fits(a, x_offset, a.width - 1));
        }
    }
    ok
}

/// The pins of the linear equation's line (see `linear_pins`), for any offset
/// and area whose numbers fit (see `line_fits`); an area without columns has no
/// pins.
pub fn linear_line_pins(a: GraphArea, x_offset: i16) -> (r: Vec<(i16, i16)>)
    requires
        line_fits(a, x_offset),
    ensures
        pin_views(r@) == linear_pins(a, x_offset, a.width as int),
{
    let mut v: Vec<(i16, i16)> = Vec::new();
    let mut x: i16 = 0;
    if a.width <= 0 {
        assert(pin_views(v@) =~= linear_pins(a, x_offset, a.width as int));
        return v;
    }
    while x < a.width
        invariant
            0 <= x <= a.width,
            line_fits(a, x_offset),
            pin_views(v@) == linear_pins(a, x_offset, x as int),
        decreases a.width - x,
    {
        assert(column_fits(a, x_offset, x as int));
        let px = a.offset_x + x;
        let py = a.screen_cy - (px - (a.screen_cx + x_offset));
        if py >= a.offset_y && py < a.offset_y + a.height {
            let ghost before = pin_views(v@);
            v.push((px, py));
            assert(pin_views(v@) =~= before.push((px as int, py as int)));
        }
        x += 1;
    }
    v
}

/// Where the axes cross for each kind of graph: the row of the x axis and the
/// column of the y axis. The pie chart has none.
pub open spec fn axes_spec(g: GraphType, a: GraphArea) -> Option<(int, int)> {
    match g {
        GraphType::LinearEquation | GraphType::TrigonometricFunction => Some((a.screen_cy as int, a.screen_cx as int)),
        GraphType::QuadraticEquation | GraphType::ExponentialFunction => Some((a.offset_y + a.height - 5, a.screen_cx as int)),
        GraphType::BarChart | GraphType::LineGraph => Some((a.offset_y + a.height - 1, a.offset_x as int)),
        GraphType::PieChart => None,
    }
}

/// The row of the x axis and the column of the y axis of a graph, if it has
/// axes. The x axis runs from column `offset_x` to `offset_x + width`, the y
/// axis from row `offset_y` to `offset_y + height`.
pub fn graph_axes(g: GraphType, a: GraphArea) -> (r: Option<(i16, i16)>)
    requires
        0 <= a.offset_y <= 100,
        0 <= a.height <= 10000,
    ensures
        r matches Some(p) ==> axes_spec(g, a) == Some((p.0 as int, p.1 as int)),
        r is None <==> axes_spec(g, a) is None,
{
    match g {
        GraphType::LinearEquation | GraphType::TrigonometricFunction => Some((a.screen_cy, a.screen_cx)),
        GraphType::QuadraticEquation | GraphType::ExponentialFunction => Some((a.offset_y + a.height - 5, a.screen_cx)),
        GraphType::BarChart | GraphType::LineGraph => Some((a.offset_y + a.height - 1, a.offset_x)),
        GraphType::PieChart => None,
    }
}

/// The radius of the pie chart: two pins inside the smaller half of the area.
pub open spec fn pie_radius(a: GraphArea) -> int {
    (if a.cx <= a.cy { a.cx as int } else { a.cy as int }) - 2
}

/// Whether column `x` and row `y` of the area lie on the pie's disc.
pub open spec fn on_disc(a: GraphArea, x: int, y: int) -> bool {
    let dx = x - a.cx;
    let dy = y - a.cy;
    dx * dx + dy * dy <= pie_radius(a) * pie_radius(a)
}

/// The disc's pins in the first `nx` columns of row `y`, left to right.
pub open spec fn disc_row(a: GraphArea, y: int, nx: int) -> Seq<(int, int)>
    decreases nx,
{
    if nx <= 0 {
        Seq::empty()
    } else {
        let prev = disc_row(a, y, nx - 1);
        if on_disc(a, nx - 1, y) {
            prev.push((a.offset_x + nx - 1, a.offset_y + y))
        } else {
            prev
        }
    }
}

/// The disc's pins in the first `ny` rows, row by row.
pub open spec fn disc_pins(a: GraphArea, ny: int) -> Seq<(int, int)>
    decreases ny,
{
    if ny <= 0 {
        Seq::empty()
    } else {
        disc_pins(a, ny - 1) + disc_row(a, ny - 1, a.width as int)
    }
}

/// The pins of the pie chart's disc, row by row and left to right (see
/// `disc_pins`).
pub fn pie_disc_pins(a: GraphArea) -> (r: Vec<(i16, i16)>)
    requires
        0 <= a.offset_x <= 100,
        0 <= a.offset_y <= 100,
        0 <= a.width <= 10000,
        0 <= a.height <= 10000,
        -10000 <= a.cx <= 10000,
        -10000 <= a.cy <= 10000,
    ensures
        pin_views(r@) == disc_pins(a, a.height as int),
{
    let radius: i32 = (if a.cx <= a.cy { a.cx } else { a.cy }) as i32 - 2;
    assert(-10002 <= radius <= 10000);
    assert(0 <= radius * radius <= 10002 * 10002) by (nonlinear_arith)
        requires -10002 <= radius <= 10000;
    let r2: i32 = radius * radius;
    let mut v: Vec<(i16, i16)> = Vec::new();
    let mut y: i16 = 0;
    while y < a.height
        invariant
            0 <= y <= a.height,
            0 <= a.offset_x <= 100,
            0 <= a.offset_y <= 100,
            0 <= a.width <= 10000,
            0 <= a.height <= 10000,
            -10000 <= a.cx <= 10000,
            -10000 <= a.cy <= 10000,
            radius == pie_radius(a),
            r2 == radius * radius,
            pin_views(v@) == disc_pins(a, y as int),
        decreases a.height - y,
    {
        let ghost row_start = pin_views(v@);
        let mut x: i16 = 0;
        while x < a.width
            invariant
                0 <= x <= a.width,
                0 <= y < a.height,
                0 <= a.offset_x <= 100,
                0 <= a.offset_y <= 100,
                0 <= a.width <= 10000,
                0 <= a.height <= 10000,
                -10000 <= a.cx <= 10000,
                -10000 <= a.cy <= 10000,
                radius == pie_radius(a),
                r2 == radius * radius,
                pin_views(v@) == row_start + disc_row(a, y as int, x as int),
            decreases a.width - x,
        {
            let dx: i32 = x as i32 - a.cx as i32;
            let dy: i32 = y as i32 - a.cy as i32;
            assert(dx * dx <= 20000 * 20000) by (nonlinear_arith)
                requires -20000 <= dx <= 20000;
            assert(dy * dy <= 20000 * 20000) by (nonlinear_arith)
                requires -20000 <= dy <= 20000;
            assert(dx * dx >= 0) by (nonlinear_arith);
            assert(dy * dy >= 0) by (nonlinear_arith);
            if dx * dx + dy * dy <= r2 {
                let ghost before = pin_views(v@);
                v.push((a.offset_x + x, a.offset_y + y));
                assert(pin_views(v@) =~= before.push(((a.offset_x + x) as int, (a.offset_y + y) as int)));
            }
            x += 1;
        }
        y += 1;
    }
    v
}

/// Number of bars in the bar chart.
pub const BAR_COUNT: i16 = 5;
/// Number of points of the line graph.
pub const LINE_POINTS: i16 = 7;

/// The bars of the bar chart, left to right: the column where each bar starts
/// and its width. Each bar takes an equal share of the area, less one pin of
/// space on either side.
pub fn bar_slots(a: GraphArea) -> (r: Vec<(i16, i16)>)
    requires
        0 <= a.offset_x <= 100,
        0 <= a.width <= 10000,
    ensures
        r@.len() == BAR_COUNT,
        forall|i: int| 0 <= i < BAR_COUNT ==> {
            let share = a.width as int / BAR_COUNT as int;
            #[trigger] r@[i] == ((a.offset_x + i * share + 1) as i16,
                (if share - 2 > 0 { share - 2 } else { 0 }) as i16)
        },
{
    let bar_width: i16 = a.width / BAR_COUNT;
    let w: i16 = if bar_width - 2 > 0 { bar_width - 2 } else { 0 };
    let mut v: Vec<(i16, i16)> = Vec::new();
    let mut i: i16 = 0;
    while i < BAR_COUNT
        invariant
            0 <= i <= BAR_COUNT,
            0 <= a.offset_x <= 100,
            0 <= a.width <= 10000,
            bar_width == a.width as int / BAR_COUNT as int,
            w == (if bar_width - 2 > 0 { bar_width - 2 } else { 0 }),
            v@.len() == i,
            forall|j: int| 0 <= j < i ==> #[trigger] v@[j] == ((a.offset_x + j * bar_width + 1) as i16, w),
        decreases BAR_COUNT - i,
    {
        assert(i * bar_width <= 5 * 2000) by (nonlinear_arith)
            requires 0 <= i <= 5, 0 <= bar_width <= 2000;
        v.push((a.offset_x + i * bar_width + 1, w));
        i += 1;
    }
    v
}

/// The columns of the line graph's points, left to right: the area is cut into
/// equal steps between them.
pub fn line_graph_columns(a: GraphArea) -> (r: Vec<i16>)
    requires
        0 <= a.offset_x <= 100,
        0 <= a.width <= 10000,
    ensures
        r@.len() == LINE_POINTS,
        forall|i: int| 0 <= i < LINE_POINTS ==>
            #[trigger] r@[i] == a.offset_x + i * (a.width as int / (LINE_POINTS - 1) as int),
{
    let step: i16 = a.width / (LINE_POINTS - 1);
    let mut v: Vec<i16> = Vec::new();
    let mut i: i16 = 0;
    while i < LINE_POINTS
        invariant
            0 <= i <= LINE_POINTS,
            0 <= a.offset_x <= 100,
            0 <= a.width <= 10000,
            step == a.width as int / (LINE_POINTS - 1) as int,
            0 <= step <= 2000,
            v@.len() == i,
            forall|j: int| 0 <= j < i ==> #[trigger] v@[j] == a.offset_x + j * step,
        decreases LINE_POINTS - i,
    {
        assert(i * step <= 7 * 2000) by (nonlinear_arith)
            requires 0 <= i <= 7, 0 <= step <= 2000;
        assert(i * step >= 0) by (nonlinear_arith)
            requires 0 <= i, 0 <= step;
        v.push(a.offset_x + i * step);
        i += 1;
    }
    v
}

/// The graph shown for a menu selection, if the selection is in the menu.
pub fn selected_graph(index: usize) -> (r: Option<GraphType>)
    ensures
        index < 7 ==> r == Some(graph_list()[index as int]),
        index >= 7 ==> r is None,
{
    let v = all_graphs();
    if index < v.len() {
        Some(v[index])
    } else {
        None
    }
}

/// A key while a graph shows: Left and Right move the linear equation's line
/// (on the linear equation only). Returns the new offset and whether to redraw.
pub fn graph_key(graph: Option<GraphType>, x_offset: i16, code: KeyCode) -> (r: (i16, bool))
    requires
        i16::MIN < x_offset < i16::MAX,
    ensures
        graph == Some(GraphType::LinearEquation) && code == KeyCode::Left ==> r == ((x_offset - 1) as i16, true),
        graph == Some(GraphType::LinearEquation) && code == KeyCode::Right ==> r == ((x_offset + 1) as i16, true),
        !(graph == Some(GraphType::LinearEquation) && (code == KeyCode::Left || code == KeyCode::Right)) ==> r == (x_offset, false),
{
    if graph == Some(GraphType::LinearEquation) {
        match code {
            KeyCode::Left => (x_offset - 1, true),
            KeyCode::Right => (x_offset + 1, true),
            _ => (x_offset, false),
        }
    } else {
        (x_offset, false)
    }
}

} // verus!
