use vstd::prelude::*;

use vstd::arithmetic::div_mod::{
    lemma_div_is_ordered_by_denominator, lemma_div_pos_is_pos, lemma_fundamental_div_mod,
};

use crate::bounds::{
    bounds_resolvable, get_plot_bounds, rows_view, spec_bounds, Bounds, PlotError,
};
use crate::mapper::{map_pixel, point2plot};
use crate::request::{Color, PlotRequest, RequestView, SeriesView};

verus! {

/// The x coordinates of a point sequence, in order.
pub open spec fn xs_of_points(ps: Seq<(i64, i64)>) -> Seq<i64> {
    ps.map_values(|p: (i64, i64)| p.0)
}

/// The y coordinates of a point sequence, in order.
pub open spec fn ys_of_points(ps: Seq<(i64, i64)>) -> Seq<i64> {
    ps.map_values(|p: (i64, i64)| p.1)
}

/// The x coordinates of every series, one row per series.
pub open spec fn xs_rows(series: Seq<SeriesView>) -> Seq<Seq<i64>> {
    series.map_values(|s: SeriesView| xs_of_points(s.points))
}

/// The y coordinates of every series, one row per series.
pub open spec fn ys_rows(series: Seq<SeriesView>) -> Seq<Seq<i64>> {
    series.map_values(|s: SeriesView| ys_of_points(s.points))
}

/// The color of every series, in order.
pub open spec fn series_colors(series: Seq<SeriesView>) -> Seq<Color> {
    series.map_values(|s: SeriesView| s.color)
}

/// Every axis of the request can be resolved (an override is present, or
/// there is data and no series is empty).
pub open spec fn request_resolvable(rv: RequestView) -> bool {
    bounds_resolvable(
        rv.max_x,
        rv.max_y,
        rv.min_x,
        rv.min_y,
        xs_rows(rv.series),
        ys_rows(rv.series),
    )
}

/// What a resolvable request resolves to: split coordinate rows, the series
/// colors, and the resolved bounds.
pub open spec fn resolve_request(rv: RequestView) -> PlotDataView {
    PlotDataView {
        xs: xs_rows(rv.series),
        ys: ys_rows(rv.series),
        colors: series_colors(rv.series),
        plot_bounds: spec_bounds(
            rv.max_x,
            rv.max_y,
            rv.min_x,
            rv.min_y,
            xs_rows(rv.series),
            ys_rows(rv.series),
        ),
    }
}

/// Law: whatever a request resolves to is well formed: one x row, one y row
/// and one color per series, with matching point counts in each series; so
/// every window filled through this pipeline satisfies what drawing needs.
pub proof fn lemma_resolve_request_wf(rv: RequestView)
    ensures
        resolve_request(rv).wf(),
{
    let d = resolve_request(rv);
    assert forall|i: int| 0 <= i < d.xs.len() implies d.xs[i].len() == d.ys[i].len() by {
        assert(d.xs[i] == xs_of_points(rv.series[i].points));
        assert(d.ys[i] == ys_of_points(rv.series[i].points));
    }
}

/// Splits one series' points into a fresh x row and a fresh y row, appended
/// to the per-series row vectors.
pub fn set_xy(xy: &Vec<(i64, i64)>, x_vector: &mut Vec<Vec<i64>>, y_vector: &mut Vec<Vec<i64>>)
    ensures
        rows_view(*final(x_vector)) == rows_view(*old(x_vector)).push(xs_of_points(xy@)),
        rows_view(*final(y_vector)) == rows_view(*old(y_vector)).push(ys_of_points(xy@)),
{
    let mut xs_row: Vec<i64> = Vec::new();
    let mut ys_row: Vec<i64> = Vec::new();
    let mut i: usize = 0;
    while i < xy.len()
        invariant
            i <= xy@.len(),
            xs_row@ == xs_of_points(xy@.take(i as int)),
            ys_row@ == ys_of_points(xy@.take(i as int)),
        decreases xy@.len() - i,
    {
        let p = xy[i];
        xs_row.push(p.0);
        ys_row.push(p.1);
        proof {
            assert(xs_of_points(xy@.take(i + 1)) =~= xs_of_points(xy@.take(i as int)).push(
                xy@[i as int].0,
            ));
            assert(ys_of_points(xy@.take(i + 1)) =~= ys_of_points(xy@.take(i as int)).push(
                xy@[i as int].1,
            ));
        }
        i = i + 1;
    }
    proof {
        assert(xy@.take(xy@.len() as int) =~= xy@);
    }
    x_vector.push(xs_row);
    y_vector.push(ys_row);
    proof {
        assert(rows_view(*x_vector) =~= rows_view(*old(x_vector)).push(xs_of_points(xy@)));
        assert(rows_view(*y_vector) =~= rows_view(*old(y_vector)).push(ys_of_points(xy@)));
    }
}

/// The resolved content of one window: split coordinate rows, the series
/// colors, and the resolved bounds.
pub struct PlotData {
    pub xs: Vec<Vec<i64>>,
    pub ys: Vec<Vec<i64>>,
    pub colors: Vec<Color>,
    pub plot_bounds: Bounds,
}

/// The mathematical value of a window's resolved content.
pub struct PlotDataView {
    pub xs: Seq<Seq<i64>>,
    pub ys: Seq<Seq<i64>>,
    pub colors: Seq<Color>,
    pub plot_bounds: Bounds,
}

impl View for PlotData {
    type V = PlotDataView;

    open spec fn view(&self) -> PlotDataView {
        PlotDataView {
            xs: rows_view(self.xs),
            ys: rows_view(self.ys),
            colors: self.colors@,
            plot_bounds: self.plot_bounds,
        }
    }
}

impl PlotDataView {
    /// The rows describe the same series: one x row, one y row and one color
    /// per series, and matching point counts within each series.
    pub open spec fn wf(self) -> bool {
        &&& self.ys.len() == self.xs.len()
        &&& self.colors.len() == self.xs.len()
        &&& forall|i: int| 0 <= i < self.xs.len() ==> self.xs[i].len() == self.ys[i].len()
    }
}

/// One live plot window: its backend identity and, once a render task has
/// been consumed for it, the resolved data it draws.
pub struct Window {
    pub id: u32,
    pub data: Option<PlotData>,
}

/// The mathematical value of a window.
pub struct WindowView {
    pub id: u32,
    pub data: Option<PlotDataView>,
}

impl View for Window {
    type V = WindowView;

    open spec fn view(&self) -> WindowView {
        WindowView {
            id: self.id,
            data: match self.data {
                Some(d) => Some(d@),
                None => None,
            },
        }
    }
}

impl WindowView {
    /// The window either has no data yet or holds well-formed rows.
    pub open spec fn wf(self) -> bool {
        match self.data {
            None => true,
            Some(d) => d.wf(),
        }
    }
}

impl Window {
    /// A window that has not received plot data yet.
    pub fn new(id: u32) -> (w: Window)
        ensures
            w@.id == id,
            w@.data is None,
    {
        Window { id, data: None }
    }

    /// Replaces the window's series and bounds; the entry point invoked when
    /// a render task is consumed for this window.
    pub fn draw_plots(
        &mut self,
        xs: Vec<Vec<i64>>,
        ys: Vec<Vec<i64>>,
        colors: Vec<Color>,
        plot_bounds: Bounds,
    )
        ensures
            final(self)@.id == old(self)@.id,
            final(self)@.data matches Some(d) && d.xs == rows_view(xs) && d.ys == rows_view(ys)
                && d.colors == colors@ && d.plot_bounds == plot_bounds,
    {
        self.data = Some(PlotData { xs, ys, colors, plot_bounds });
    }
}

/// The plot constructor: resolves a request and hands the result to a window.
pub struct Plot {}

impl Plot {
    pub fn new() -> (p: Plot) {
        Plot {  }
    }

    /// Resolves a two-dimensional plot request and installs it on the given
    /// window: the request's series are split into coordinate rows, the
    /// bounds are resolved (overrides verbatim, everything else from the
    /// data), and the window's content is replaced. A request whose bounds
    /// would have to be resolved against an empty series fails and leaves
    /// the window untouched.
    pub fn new2d(&self, plot_builder: PlotRequest, surface: &mut Window) -> (r: Result<
        (),
        PlotError,
    >)
        ensures
            request_resolvable(plot_builder@) ==> r is Ok && final(surface)@.id == old(
                surface,
            )@.id && final(surface)@.data == Some(resolve_request(plot_builder@)),
            !request_resolvable(plot_builder@) ==> r == Err::<(), PlotError>(
                PlotError::EmptySeriesBounds,
            ) && final(surface)@ == old(surface)@,
    {
        let ghost rv = plot_builder@;
        let mut colors: Vec<Color> = Vec::new();
        let mut x_points: Vec<Vec<i64>> = Vec::new();
        let mut y_points: Vec<Vec<i64>> = Vec::new();
        let mut i: usize = 0;
        while i < plot_builder.series.len()
            invariant
                i <= plot_builder.series@.len(),
                rv == plot_builder@,
                rv.series.len() == plot_builder.series@.len(),
                rows_view(x_points) == xs_rows(rv.series).take(i as int),
                rows_view(y_points) == ys_rows(rv.series).take(i as int),
                colors@ == series_colors(rv.series).take(i as int),
            decreases plot_builder.series@.len() - i,
        {
            set_xy(&plot_builder.series[i].points, &mut x_points, &mut y_points);
            colors.push(plot_builder.series[i].color);
            proof {
                assert(rv.series[i as int] == plot_builder.series@[i as int]@);
                assert(plot_builder.series@[i as int].points@ == rv.series[i as int].points);
                assert(xs_rows(rv.series).take(i + 1) =~= xs_rows(rv.series).take(i as int).push(
                    xs_of_points(rv.series[i as int].points),
                ));
                assert(ys_rows(rv.series).take(i + 1) =~= ys_rows(rv.series).take(i as int).push(
                    ys_of_points(rv.series[i as int].points),
                ));
                assert(series_colors(rv.series).take(i + 1) =~= series_colors(rv.series).take(
                    i as int,
                ).push(rv.series[i as int].color));
            }
            i = i + 1;
        }
        proof {
            assert(xs_rows(rv.series).take(rv.series.len() as int) =~= xs_rows(rv.series));
            assert(ys_rows(rv.series).take(rv.series.len() as int) =~= ys_rows(rv.series));
            assert(series_colors(rv.series).take(rv.series.len() as int) =~= series_colors(
                rv.series,
            ));
        }
        let plot_bounds = match get_plot_bounds(&plot_builder, &x_points, &y_points) {
            Ok(b) => b,
            Err(e) => {
                return Err(e);
            },
        };
        surface.draw_plots(x_points, y_points, colors, plot_bounds);
        Ok(())
    }
}

/// The fill color behind the plotting area.
pub open spec fn spec_background_color() -> Color {
    Color { r: 255, g: 255, b: 255, a: 255 }
}

/// The color of the border rectangle inset by the margin.
pub open spec fn spec_border_color() -> Color {
    Color { r: 242, g: 242, b: 242, a: 255 }
}

/// The color of the zero-axis reference line.
pub open spec fn spec_axis_color() -> Color {
    Color { r: 0, g: 0, b: 0, a: 255 }
}

/// One primitive operation a rendering backend performs for a window.
#[derive(Clone, Copy, PartialEq, Eq, Structural, Debug)]
pub enum DrawCmd {
    /// Fill the whole surface with one color.
    Clear { color: Color },
    /// Outline the axis-aligned rectangle with the given corners.
    Rect { x1: i64, y1: i64, x2: i64, y2: i64, color: Color },
    /// Draw a line of the given width between two pixels.
    ThickLine { x1: i64, y1: i64, x2: i64, y2: i64, width: u8, color: Color },
}

/// The shorter of the window's two pixel dimensions.
pub open spec fn short_side(w: u32, h: u32) -> int {
    if w <= h {
        w as int
    } else {
        h as int
    }
}

/// The margin: five percent of the shorter window dimension.
pub open spec fn margin_of(w: u32, h: u32) -> int {
    short_side(w, h) / 20
}

/// The inner plotting length: the shorter dimension less the margin.
pub open spec fn inner_of(w: u32, h: u32) -> int {
    short_side(w, h) - margin_of(w, h)
}

/// A data-space y value on screen: the y axis is inverted because the screen
/// origin is the top-left corner while the data origin is the bottom-left.
pub open spec fn screen_y(y: int, b: Bounds, length: int, space: int) -> int {
    length + space - map_pixel(y, b.min_y as int, b.max_y as int, length, space)
}

/// The line segment connecting a series' points `j` and `j + 1` on screen.
pub open spec fn segment_cmd(
    xs: Seq<i64>,
    ys: Seq<i64>,
    color: Color,
    b: Bounds,
    length: int,
    space: int,
    j: int,
) -> DrawCmd {
    DrawCmd::ThickLine {
        x1: map_pixel(xs[j] as int, b.min_x as int, b.max_x as int, length, space) as i64,
        y1: screen_y(ys[j] as int, b, length, space) as i64,
        x2: map_pixel(xs[j + 1] as int, b.min_x as int, b.max_x as int, length, space) as i64,
        y2: screen_y(ys[j + 1] as int, b, length, space) as i64,
        width: 2,
        color,
    }
}

/// How many segments connect `n` points in a row.
pub open spec fn seg_count(n: nat) -> nat {
    if n == 0 {
        0
    } else {
        (n - 1) as nat
    }
}

/// The connected segments of one series, in point order.
pub open spec fn series_cmds(
    xs: Seq<i64>,
    ys: Seq<i64>,
    color: Color,
    b: Bounds,
    length: int,
    space: int,
) -> Seq<DrawCmd> {
    Seq::new(seg_count(xs.len()), |j: int| segment_cmd(xs, ys, color, b, length, space, j))
}

/// The segments of the first `n` series, concatenated in series order.
pub open spec fn series_cmds_upto(d: PlotDataView, length: int, space: int, n: int) -> Seq<
    DrawCmd,
>
    decreases n,
{
    if n <= 0 {
        Seq::empty()
    } else {
        series_cmds_upto(d, length, space, n - 1) + series_cmds(
            d.xs[n - 1],
            d.ys[n - 1],
            d.colors[n - 1],
            d.plot_bounds,
            length,
            space,
        )
    }
}

/// Everything a backend must draw for one window of the given size: clear,
/// border rectangle inset by the margin, the zero-axis reference line, then
/// each series' connected segments. A window with no data draws nothing.
pub open spec fn window_plan(wv: WindowView, w: u32, h: u32) -> Seq<DrawCmd> {
    match wv.data {
        None => Seq::empty(),
        Some(d) => {
            let space = margin_of(w, h);
            let m = inner_of(w, h);
            seq![
                DrawCmd::Clear { color: spec_background_color() },
                DrawCmd::Rect {
                    x1: space as i64,
                    y1: space as i64,
                    x2: m as i64,
                    y2: m as i64,
                    color: spec_border_color(),
                },
                DrawCmd::ThickLine {
                    x1: space as i64,
                    y1: screen_y(0, d.plot_bounds, m, space) as i64,
                    x2: m as i64,
                    y2: screen_y(0, d.plot_bounds, m, space) as i64,
                    width: 2,
                    color: spec_axis_color(),
                },
            ] + series_cmds_upto(d, m, space, d.xs.len() as int)
        },
    }
}

impl Window {
    /// Computes the draw plan for the window's current content at the
    /// surface's current pixel size, so a resize is honored on every redraw.
    /// A window that has not received data yet draws nothing.
    pub fn draw_plan(&self, w: u32, h: u32) -> (plan: Vec<DrawCmd>)
        requires
            self@.wf(),
        ensures
            plan@ == window_plan(self@, w, h),
    {
        let data = match &self.data {
            Some(d) => d,
            None => {
                return Vec::new();
            },
        };
        let short: u32 = if w <= h {
            w
        } else {
            h
        };
        proof {
            lemma_div_is_ordered_by_denominator(short as int, 2, 20);
            lemma_fundamental_div_mod(short as int, 2);
            lemma_div_pos_is_pos(short as int, 20);
        }
        let space32: u32 = short / 20;
        let m32: u32 = short - space32;
        let space: i64 = space32 as i64;
        let m: i64 = m32 as i64;
        let ghost dv = data@;
        proof {
            assert(space == margin_of(w, h));
            assert(m == inner_of(w, h));
            assert(0 <= space <= m <= u32::MAX as i64);
        }
        let y0 = point2plot(0, data.plot_bounds.min_y, data.plot_bounds.max_y, m, space);
        let y_inv: i64 = m + space;
        let zero_line: i64 = y_inv - y0;
        let mut plan: Vec<DrawCmd> = Vec::new();
        plan.push(DrawCmd::Clear { color: Color { r: 255, g: 255, b: 255, a: 255 } });
        plan.push(
            DrawCmd::Rect {
                x1: space,
                y1: space,
                x2: m,
                y2: m,
                color: Color { r: 242, g: 242, b: 242, a: 255 },
            },
        );
        plan.push(
            DrawCmd::ThickLine {
                x1: space,
                y1: zero_line,
                x2: m,
                y2: zero_line,
                width: 2,
                color: Color { r: 0, g: 0, b: 0, a: 255 },
            },
        );
        let ghost head = seq![
            DrawCmd::Clear { color: spec_background_color() },
            DrawCmd::Rect {
                x1: space as i64,
                y1: space as i64,
                x2: m as i64,
                y2: m as i64,
                color: spec_border_color(),
            },
            DrawCmd::ThickLine {
                x1: space as i64,
                y1: screen_y(0, dv.plot_bounds, m as int, space as int) as i64,
                x2: m as i64,
                y2: screen_y(0, dv.plot_bounds, m as int, space as int) as i64,
                width: 2,
                color: spec_axis_color(),
            },
        ];
        proof {
            assert(plan@ =~= head);
            assert(plan@ =~= head + series_cmds_upto(dv, m as int, space as int, 0));
        }
        let mut i: usize = 0;
        while i < data.colors.len()
            invariant
                i <= dv.colors.len(),
                dv == data@,
                dv.wf(),
                data@.wf(),
                0 <= space <= m <= u32::MAX as i64,
                y_inv == m + space,
                plan@ == head + series_cmds_upto(dv, m as int, space as int, i as int),
            decreases dv.colors.len() - i,
        {
            let xt = &data.xs[i];
            let yt = &data.ys[i];
            let color = data.colors[i];
            let b = data.plot_bounds;
            let ghost scmds = series_cmds(
                dv.xs[i as int],
                dv.ys[i as int],
                dv.colors[i as int],
                dv.plot_bounds,
                m as int,
                space as int,
            );
            if xt.len() > 0 {
                proof {
                    assert(plan@ =~= head + series_cmds_upto(dv, m as int, space as int, i as int)
                        + scmds.take(0));
                }
                let mut j: usize = 0;
                while j < xt.len() - 1
                    invariant
                        dv == data@,
                        dv.wf(),
                        i < dv.colors.len(),
                        0 <= space <= m <= u32::MAX as i64,
                        y_inv == m + space,
                        1 <= dv.xs[i as int].len(),
                        j < dv.xs[i as int].len(),
                        xt@ == dv.xs[i as int],
                        yt@ == dv.ys[i as int],
                        color == dv.colors[i as int],
                        b == dv.plot_bounds,
                        scmds == series_cmds(
                            dv.xs[i as int],
                            dv.ys[i as int],
                            dv.colors[i as int],
                            dv.plot_bounds,
                            m as int,
                            space as int,
                        ),
                        plan@ == head + series_cmds_upto(dv, m as int, space as int, i as int)
                            + scmds.take(j as int),
                    decreases dv.xs[i as int].len() - j,
                {
                    let xa = point2plot(xt[j], b.min_x, b.max_x, m, space);
                    let ya = y_inv - point2plot(yt[j], b.min_y, b.max_y, m, space);
                    let xb = point2plot(xt[j + 1], b.min_x, b.max_x, m, space);
                    let yb = y_inv - point2plot(yt[j + 1], b.min_y, b.max_y, m, space);
                    plan.push(DrawCmd::ThickLine { x1: xa, y1: ya, x2: xb, y2: yb, width: 2, color });
                    proof {
                        assert(scmds[j as int] == segment_cmd(
                            dv.xs[i as int],
                            dv.ys[i as int],
                            dv.colors[i as int],
                            dv.plot_bounds,
                            m as int,
                            space as int,
                            j as int,
                        ));
                        assert(scmds.take(j + 1) =~= scmds.take(j as int).push(scmds[j as int]));
                        assert(plan@ =~= head + series_cmds_upto(dv, m as int, space as int, i as int)
                            + scmds.take(j + 1));
                    }
                    j = j + 1;
                }
                proof {
                    assert(scmds.take(scmds.len() as int) =~= scmds);
                }
            }
            proof {
                if dv.xs[i as int].len() == 0 {
                    assert(scmds =~= Seq::<DrawCmd>::empty());
                    assert(scmds.take(0) =~= scmds);
                }
                assert(series_cmds_upto(dv, m as int, space as int, i + 1) == series_cmds_upto(
                    dv,
                    m as int,
                    space as int,
                    i as int,
                ) + scmds);
                assert(plan@ =~= head + series_cmds_upto(dv, m as int, space as int, i + 1));
            }
            i = i + 1;
        }
        proof {
            assert(dv.xs.len() == dv.colors.len());
            assert(plan@ =~= window_plan(self@, w, h));
        }
        plan
    }
}

} // verus!
