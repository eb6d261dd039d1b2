use vstd::prelude::*;

verus! {

/// A draw color: four RGBA channels, each already quantised to the
/// `0..=255` range that a rendering backend consumes.
#[derive(Clone, Copy, PartialEq, Eq, Structural, Debug)]
pub struct Color {
    pub r: u8,
    pub g: u8,
    pub b: u8,
    pub a: u8,
}

/// One connected line: its data points in draw/connect order and its color.
///
/// A coordinate is a value in the library's integer data space; the embedder
/// chooses the scale when it quantises its measurements, and the pixel mapping
/// is invariant under that choice.
#[derive(Clone, Debug)]
pub struct Series {
    pub points: Vec<(i64, i64)>,
    pub color: Color,
}

/// The mathematical value of a `Series`.
pub struct SeriesView {
    pub points: Seq<(i64, i64)>,
    pub color: Color,
}

impl View for Series {
    type V = SeriesView;

    open spec fn view(&self) -> SeriesView {
        SeriesView { points: self.points@, color: self.color }
    }
}

/// A plot request: the series to draw, plus optional per-axis bound
/// overrides. An override, when present, is used verbatim; an absent
/// bound is resolved from the data.
#[derive(Clone, Debug)]
pub struct PlotRequest {
    pub series: Vec<Series>,
    pub max_x: Option<i64>,
    pub max_y: Option<i64>,
    pub min_x: Option<i64>,
    pub min_y: Option<i64>,
}

/// The mathematical value of a `PlotRequest`.
pub struct RequestView {
    pub series: Seq<SeriesView>,
    pub max_x: Option<i64>,
    pub max_y: Option<i64>,
    pub min_x: Option<i64>,
    pub min_y: Option<i64>,
}

impl View for PlotRequest {
    type V = RequestView;

    open spec fn view(&self) -> RequestView {
        RequestView {
            series: self.series@.map_values(|s: Series| s@),
            max_x: self.max_x,
            max_y: self.max_y,
            min_x: self.min_x,
            min_y: self.min_y,
        }
    }
}

impl PlotRequest {
    /// An empty request with every axis left to be resolved from the data.
    pub fn new() -> (r: PlotRequest)
        ensures
            r@.series =~= Seq::<SeriesView>::empty(),
            r@.max_x is None && r@.max_y is None && r@.min_x is None && r@.min_y is None,
    {
        PlotRequest { series: Vec::new(), max_x: None, max_y: None, min_x: None, min_y: None }
    }

    /// Appends one series to the request.
    pub fn add_series(&mut self, series: Series)
        ensures
            final(self)@.series =~= old(self)@.series.push(series@),
            final(self)@.max_x == old(self)@.max_x,
            final(self)@.max_y == old(self)@.max_y,
            final(self)@.min_x == old(self)@.min_x,
            final(self)@.min_y == old(self)@.min_y,
    {
        self.series.push(series);
    }
}

} // verus!
