use vstd::prelude::*;

use crate::request::PlotRequest;

verus! {

/// The errors this library reports.
#[derive(Clone, Copy, PartialEq, Eq, Structural, Debug)]
pub enum PlotError {
    /// A second producer handle was created while one was already live.
    AlreadyInitialized,
    /// The rendering backend could not be initialised; fatal to the driver.
    BackendInitFailure,
    /// An axis bound had to be resolved from a series with no points.
    EmptySeriesBounds,
}

impl PlotError {
    /// The user-facing description of the error.
    pub fn message(&self) -> (s: &'static str)
        ensures
            self is AlreadyInitialized ==> s@ == "Only one gui Plotter may be initialised at a time."@,
            self is BackendInitFailure ==> s@ == "The rendering backend could not be initialised."@,
            self is EmptySeriesBounds ==> s@ == "Axis bounds cannot be resolved from an empty series."@,
    {
        match self {
            PlotError::AlreadyInitialized => "Only one gui Plotter may be initialised at a time.",
            PlotError::BackendInitFailure => "The rendering backend could not be initialised.",
            PlotError::EmptySeriesBounds => "Axis bounds cannot be resolved from an empty series.",
        }
    }
}

/// The four axis limits that map data space to pixel space, resolved to
/// concrete values: `max_x`, `max_y`, `min_x`, `min_y`.
#[derive(Clone, Copy, PartialEq, Eq, Structural, Debug)]
pub struct Bounds {
    pub max_x: i64,
    pub max_y: i64,
    pub min_x: i64,
    pub min_y: i64,
}

/// The largest element of a non-empty sequence.
pub open spec fn seq_max(s: Seq<i64>) -> i64
    recommends
        s.len() > 0,
    decreases s.len(),
{
    if s.len() <= 1 {
        s[0]
    } else if s.last() > seq_max(s.drop_last()) {
        s.last()
    } else {
        seq_max(s.drop_last())
    }
}

/// The smallest element of a non-empty sequence.
pub open spec fn seq_min(s: Seq<i64>) -> i64
    recommends
        s.len() > 0,
    decreases s.len(),
{
    if s.len() <= 1 {
        s[0]
    } else if s.last() < seq_min(s.drop_last()) {
        s.last()
    } else {
        seq_min(s.drop_last())
    }
}

/// `seq_max` is an element of the sequence and no element exceeds it.
pub proof fn lemma_seq_max_properties(s: Seq<i64>)
    requires
        s.len() > 0,
    ensures
        s.contains(seq_max(s)),
        forall|i: int| 0 <= i < s.len() ==> s[i] <= seq_max(s),
    decreases s.len(),
{
    if s.len() == 1 {
        assert(seq_max(s) == s[0]);
    } else {
        lemma_seq_max_properties(s.drop_last());
        let m = seq_max(s.drop_last());
        if s.last() > m {
            assert(s[s.len() - 1] == seq_max(s));
        } else {
            let i = choose|i: int| 0 <= i < s.drop_last().len() && s.drop_last()[i] == m;
            assert(s[i] == m);
        }
        assert forall|i: int| 0 <= i < s.len() implies s[i] <= seq_max(s) by {
            if i < s.len() - 1 {
                assert(s.drop_last()[i] == s[i]);
            }
        }
    }
}

/// `seq_min` is an element of the sequence and no element is below it.
pub proof fn lemma_seq_min_properties(s: Seq<i64>)
    requires
        s.len() > 0,
    ensures
        s.contains(seq_min(s)),
        forall|i: int| 0 <= i < s.len() ==> s[i] >= seq_min(s),
    decreases s.len(),
{
    if s.len() == 1 {
        assert(seq_min(s) == s[0]);
    } else {
        lemma_seq_min_properties(s.drop_last());
        let m = seq_min(s.drop_last());
        if s.last() < m {
            assert(s[s.len() - 1] == seq_min(s));
        } else {
            let i = choose|i: int| 0 <= i < s.drop_last().len() && s.drop_last()[i] == m;
            assert(s[i] == m);
        }
        assert forall|i: int| 0 <= i < s.len() implies s[i] >= seq_min(s) by {
            if i < s.len() - 1 {
                assert(s.drop_last()[i] == s[i]);
            }
        }
    }
}

/// The mathematical value of split coordinate rows: one sequence of
/// coordinates per series.
pub open spec fn rows_view(rows: Vec<Vec<i64>>) -> Seq<Seq<i64>> {
    rows@.map_values(|r: Vec<i64>| r@)
}

/// An axis without an override can be resolved exactly when there is at
/// least one series and no series is empty.
pub open spec fn axis_resolvable(user: Option<i64>, rows: Seq<Seq<i64>>) -> bool {
    user is Some || (rows.len() > 0 && forall|i: int| 0 <= i < rows.len() ==> rows[i].len() > 0)
}

/// The largest coordinate over all points of all series on one axis.
pub open spec fn rows_max(rows: Seq<Seq<i64>>) -> i64 {
    seq_max(rows.map_values(|r: Seq<i64>| seq_max(r)))
}

/// The smallest coordinate over all points of all series on one axis.
pub open spec fn rows_min(rows: Seq<Seq<i64>>) -> i64 {
    seq_min(rows.map_values(|r: Seq<i64>| seq_min(r)))
}

/// The resolved upper bound of an axis: the override verbatim when present,
/// otherwise the largest coordinate in the data.
pub open spec fn axis_max_value(user: Option<i64>, rows: Seq<Seq<i64>>) -> i64 {
    match user {
        Some(v) => v,
        None => rows_max(rows),
    }
}

/// The resolved lower bound of an axis.
pub open spec fn axis_min_value(user: Option<i64>, rows: Seq<Seq<i64>>) -> i64 {
    match user {
        Some(v) => v,
        None => rows_min(rows),
    }
}

/// Law: when no override is given, the resolved upper bound is the true
/// numeric maximum over all points across all series on that axis: it is
/// one of the coordinates, and no coordinate exceeds it.
pub proof fn lemma_rows_max_is_true_max(rows: Seq<Seq<i64>>)
    requires
        rows.len() > 0,
        forall|i: int| 0 <= i < rows.len() ==> rows[i].len() > 0,
    ensures
        exists|i: int, j: int|
            0 <= i < rows.len() && 0 <= j < rows[i].len() && rows[i][j] == rows_max(rows),
        forall|i: int, j: int|
            0 <= i < rows.len() && 0 <= j < rows[i].len() ==> rows[i][j] <= rows_max(rows),
{
    let ms = rows.map_values(|r: Seq<i64>| seq_max(r));
    lemma_seq_max_properties(ms);
    let i = choose|i: int| 0 <= i < ms.len() && ms[i] == seq_max(ms);
    lemma_seq_max_properties(rows[i]);
    let j = choose|j: int| 0 <= j < rows[i].len() && rows[i][j] == seq_max(rows[i]);
    assert(rows[i][j] == rows_max(rows));
    assert forall|i: int, j: int|
        0 <= i < rows.len() && 0 <= j < rows[i].len() implies rows[i][j] <= rows_max(rows) by {
        lemma_seq_max_properties(rows[i]);
        assert(ms[i] == seq_max(rows[i]));
    }
}

/// Law: when no override is given, the resolved lower bound is the true
/// numeric minimum over all points across all series on that axis.
pub proof fn lemma_rows_min_is_true_min(rows: Seq<Seq<i64>>)
    requires
        rows.len() > 0,
        forall|i: int| 0 <= i < rows.len() ==> rows[i].len() > 0,
    ensures
        exists|i: int, j: int|
            0 <= i < rows.len() && 0 <= j < rows[i].len() && rows[i][j] == rows_min(rows),
        forall|i: int, j: int|
            0 <= i < rows.len() && 0 <= j < rows[i].len() ==> rows[i][j] >= rows_min(rows),
{
    let ms = rows.map_values(|r: Seq<i64>| seq_min(r));
    lemma_seq_min_properties(ms);
    let i = choose|i: int| 0 <= i < ms.len() && ms[i] == seq_min(ms);
    lemma_seq_min_properties(rows[i]);
    let j = choose|j: int| 0 <= j < rows[i].len() && rows[i][j] == seq_min(rows[i]);
    assert(rows[i][j] == rows_min(rows));
    assert forall|i: int, j: int|
        0 <= i < rows.len() && 0 <= j < rows[i].len() implies rows[i][j] >= rows_min(rows) by {
        lemma_seq_min_properties(rows[i]);
        assert(ms[i] == seq_min(rows[i]));
    }
}

/// Law: once both bounds of an axis are resolved from the data (no override
/// on either side), they are ordered: the resolved maximum is at least the
/// resolved minimum.
pub proof fn lemma_resolved_bounds_ordered(rows: Seq<Seq<i64>>)
    requires
        rows.len() > 0,
        forall|i: int| 0 <= i < rows.len() ==> rows[i].len() > 0,
    ensures
        rows_min(rows) <= rows_max(rows),
{
    lemma_rows_max_is_true_max(rows);
    lemma_rows_min_is_true_min(rows);
    let (i, j) = choose|i: int, j: int|
        0 <= i < rows.len() && 0 <= j < rows[i].len() && rows[i][j] == rows_max(rows);
    assert(rows[i][j] >= rows_min(rows));
}

/// Resolves one axis upper bound: an override wins; otherwise the maximum
/// over the given values, which must not be empty.
pub fn get_max(user_max: Option<i64>, values: &Vec<i64>) -> (r: Result<i64, PlotError>)
    ensures
        user_max matches Some(m) ==> r == Ok::<i64, PlotError>(m),
        user_max is None && values@.len() > 0 ==> r == Ok::<i64, PlotError>(seq_max(values@)),
        user_max is None && values@.len() == 0 ==> r == Err::<i64, PlotError>(
            PlotError::EmptySeriesBounds,
        ),
{
    if let Some(m) = user_max {
        return Ok(m);
    }
    if values.len() == 0 {
        return Err(PlotError::EmptySeriesBounds);
    }
    let mut max: i64 = values[0];
    let mut i: usize = 1;
    while i < values.len()
        invariant
            1 <= i <= values@.len(),
            max == seq_max(values@.take(i as int)),
        decreases values@.len() - i,
    {
        if values[i] > max {
            max = values[i];
        }
        proof {
            let t = values@.take(i + 1);
            assert(t.drop_last() =~= values@.take(i as int));
            assert(t.last() == values@[i as int]);
        }
        i = i + 1;
    }
    proof {
        assert(values@.take(values@.len() as int) =~= values@);
    }
    Ok(max)
}

/// Resolves one axis lower bound: an override wins; otherwise the minimum
/// over the given values, which must not be empty.
pub fn get_min(user_min: Option<i64>, values: &Vec<i64>) -> (r: Result<i64, PlotError>)
    ensures
        user_min matches Some(m) ==> r == Ok::<i64, PlotError>(m),
        user_min is None && values@.len() > 0 ==> r == Ok::<i64, PlotError>(seq_min(values@)),
        user_min is None && values@.len() == 0 ==> r == Err::<i64, PlotError>(
            PlotError::EmptySeriesBounds,
        ),
{
    if let Some(m) = user_min {
        return Ok(m);
    }
    if values.len() == 0 {
        return Err(PlotError::EmptySeriesBounds);
    }
    let mut min: i64 = values[0];
    let mut i: usize = 1;
    while i < values.len()
        invariant
            1 <= i <= values@.len(),
            min == seq_min(values@.take(i as int)),
        decreases values@.len() - i,
    {
        if values[i] < min {
            min = values[i];
        }
        proof {
            let t = values@.take(i + 1);
            assert(t.drop_last() =~= values@.take(i as int));
            assert(t.last() == values@[i as int]);
        }
        i = i + 1;
    }
    proof {
        assert(values@.take(values@.len() as int) =~= values@);
    }
    Ok(min)
}

/// Resolves the upper bound of one axis across all series.
fn resolve_axis_max(user: Option<i64>, rows: &Vec<Vec<i64>>) -> (r: Result<i64, PlotError>)
    ensures
        axis_resolvable(user, rows_view(*rows)) ==> r == Ok::<i64, PlotError>(
            axis_max_value(user, rows_view(*rows)),
        ),
        !axis_resolvable(user, rows_view(*rows)) ==> r == Err::<i64, PlotError>(
            PlotError::EmptySeriesBounds,
        ),
{
    if let Some(v) = user {
        return Ok(v);
    }
    if rows.len() == 0 {
        return Err(PlotError::EmptySeriesBounds);
    }
    let ghost ms = rows_view(*rows).map_values(|r: Seq<i64>| seq_max(r));
    let first = match get_max(None, &rows[0]) {
        Ok(v) => v,
        Err(e) => {
            proof {
                assert(rows_view(*rows)[0] == rows@[0]@);
            }
            return Err(e);
        },
    };
    let mut acc: i64 = first;
    let mut i: usize = 1;
    proof {
        assert(ms.take(1) =~= seq![seq_max(rows_view(*rows)[0])]);
    }
    while i < rows.len()
        invariant
            user is None,
            1 <= i <= rows@.len(),
            rows_view(*rows).len() == rows@.len(),
            ms == rows_view(*rows).map_values(|r: Seq<i64>| seq_max(r)),
            forall|k: int| 0 <= k < i ==> rows_view(*rows)[k].len() > 0,
            acc == seq_max(ms.take(i as int)),
        decreases rows@.len() - i,
    {
        let cur = match get_max(None, &rows[i]) {
            Ok(v) => v,
            Err(e) => {
                proof {
                    assert(rows_view(*rows)[i as int] == rows@[i as int]@);
                    assert(rows@[i as int]@.len() == 0);
                    assert(!axis_resolvable(user, rows_view(*rows)));
                }
                return Err(e);
            },
        };
        if cur > acc {
            acc = cur;
        }
        proof {
            let t = ms.take(i + 1);
            assert(t.drop_last() =~= ms.take(i as int));
            assert(t.last() == ms[i as int]);
            assert(ms[i as int] == seq_max(rows_view(*rows)[i as int]));
        }
        i = i + 1;
    }
    proof {
        assert(ms.take(ms.len() as int) =~= ms);
    }
    Ok(acc)
}

/// Resolves the lower bound of one axis across all series.
fn resolve_axis_min(user: Option<i64>, rows: &Vec<Vec<i64>>) -> (r: Result<i64, PlotError>)
    ensures
        axis_resolvable(user, rows_view(*rows)) ==> r == Ok::<i64, PlotError>(
            axis_min_value(user, rows_view(*rows)),
        ),
        !axis_resolvable(user, rows_view(*rows)) ==> r == Err::<i64, PlotError>(
            PlotError::EmptySeriesBounds,
        ),
{
    if let Some(v) = user {
        return Ok(v);
    }
    if rows.len() == 0 {
        return Err(PlotError::EmptySeriesBounds);
    }
    let ghost ms = rows_view(*rows).map_values(|r: Seq<i64>| seq_min(r));
    let first = match get_min(None, &rows[0]) {
        Ok(v) => v,
        Err(e) => {
            proof {
                assert(rows_view(*rows)[0] == rows@[0]@);
            }
            return Err(e);
        },
    };
    let mut acc: i64 = first;
    let mut i: usize = 1;
    proof {
        assert(ms.take(1) =~= seq![seq_min(rows_view(*rows)[0])]);
    }
    while i < rows.len()
        invariant
            user is None,
            1 <= i <= rows@.len(),
            rows_view(*rows).len() == rows@.len(),
            ms == rows_view(*rows).map_values(|r: Seq<i64>| seq_min(r)),
            forall|k: int| 0 <= k < i ==> rows_view(*rows)[k].len() > 0,
            acc == seq_min(ms.take(i as int)),
        decreases rows@.len() - i,
    {
        let cur = match get_min(None, &rows[i]) {
            Ok(v) => v,
            Err(e) => {
                proof {
                    assert(rows_view(*rows)[i as int] == rows@[i as int]@);
                    assert(rows@[i as int]@.len() == 0);
                    assert(!axis_resolvable(user, rows_view(*rows)));
                }
                return Err(e);
            },
        };
        if cur < acc {
            acc = cur;
        }
        proof {
            let t = ms.take(i + 1);
            assert(t.drop_last() =~= ms.take(i as int));
            assert(t.last() == ms[i as int]);
            assert(ms[i as int] == seq_min(rows_view(*rows)[i as int]));
        }
        i = i + 1;
    }
    proof {
        assert(ms.take(ms.len() as int) =~= ms);
    }
    Ok(acc)
}

/// All four axes of a request can be resolved against the given rows.
pub open spec fn bounds_resolvable(
    max_x: Option<i64>,
    max_y: Option<i64>,
    min_x: Option<i64>,
    min_y: Option<i64>,
    xs: Seq<Seq<i64>>,
    ys: Seq<Seq<i64>>,
) -> bool {
    &&& axis_resolvable(max_x, xs)
    &&& axis_resolvable(max_y, ys)
    &&& axis_resolvable(min_x, xs)
    &&& axis_resolvable(min_y, ys)
}

/// The bounds a request resolves to against the given rows.
pub open spec fn spec_bounds(
    max_x: Option<i64>,
    max_y: Option<i64>,
    min_x: Option<i64>,
    min_y: Option<i64>,
    xs: Seq<Seq<i64>>,
    ys: Seq<Seq<i64>>,
) -> Bounds {
    Bounds {
        max_x: axis_max_value(max_x, xs),
        max_y: axis_max_value(max_y, ys),
        min_x: axis_min_value(min_x, xs),
        min_y: axis_min_value(min_y, ys),
    }
}

/// Resolves the plot bounds of a request against the split coordinate rows:
/// each override is used verbatim, independent of the data; every other axis
/// is the true extremum over all points of all series, and resolving it
/// against an empty series (or no series at all) is reported as an error
/// rather than producing an undefined value.
pub fn get_plot_bounds(plot_builder: &PlotRequest, xs: &Vec<Vec<i64>>, ys: &Vec<Vec<i64>>) -> (r:
    Result<Bounds, PlotError>)
    ensures
        bounds_resolvable(
            plot_builder.max_x,
            plot_builder.max_y,
            plot_builder.min_x,
            plot_builder.min_y,
            rows_view(*xs),
            rows_view(*ys),
        ) ==> r == Ok::<Bounds, PlotError>(
            spec_bounds(
                plot_builder.max_x,
                plot_builder.max_y,
                plot_builder.min_x,
                plot_builder.min_y,
                rows_view(*xs),
                rows_view(*ys),
            ),
        ),
        !bounds_resolvable(
            plot_builder.max_x,
            plot_builder.max_y,
            plot_builder.min_x,
            plot_builder.min_y,
            rows_view(*xs),
            rows_view(*ys),
        ) ==> r == Err::<Bounds, PlotError>(PlotError::EmptySeriesBounds),
{
    let max_x = match resolve_axis_max(plot_builder.max_x, xs) {
        Ok(v) => v,
        Err(e) => {
            return Err(e);
        },
    };
    let max_y = match resolve_axis_max(plot_builder.max_y, ys) {
        Ok(v) => v,
        Err(e) => {
            return Err(e);
        },
    };
    let min_x = match resolve_axis_min(plot_builder.min_x, xs) {
        Ok(v) => v,
        Err(e) => {
            return Err(e);
        },
    };
    let min_y = match resolve_axis_min(plot_builder.min_y, ys) {
        Ok(v) => v,
        Err(e) => {
            return Err(e);
        },
    };
    Ok(Bounds { max_x, max_y, min_x, min_y })
}

} // verus!
