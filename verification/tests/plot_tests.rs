use dataplotlib::bounds::{get_max, get_min, get_plot_bounds, Bounds, PlotError};
use dataplotlib::driver::{PlotGUI, UiEvent};
use dataplotlib::mapper::point2plot;
use dataplotlib::plot::{DrawCmd, Plot, Window};
use dataplotlib::plotter::Plotter;
use dataplotlib::queue::{GUITask, TaskQueue};
use dataplotlib::request::{Color, PlotRequest, Series};

fn red() -> Color {
    Color { r: 255, g: 0, b: 0, a: 255 }
}

fn green() -> Color {
    Color { r: 0, g: 255, b: 0, a: 255 }
}

fn simple_request(points: Vec<(i64, i64)>, color: Color) -> PlotRequest {
    PlotRequest { series: vec![Series { points, color }], max_x: None, max_y: None, min_x: None, min_y: None }
}

#[test]
fn plot2d_test() {
    let n: i64 = 100;
    let mut xy: Vec<(i64, i64)> = Vec::new();
    for i in 0..n {
        let x = 10.0 * (i as f64) / ((n - 1) as f64);
        let y = x.sin();
        xy.push(((x * 1000.0) as i64, (y * 1000.0) as i64));
    }
    let mut pb1 = PlotRequest::new();
    pb1.add_series(Series { points: xy, color: red() });
    let mut plt = Plotter::new(false).unwrap();
    plt.plot2d(pb1);
    let mut gui = PlotGUI::new();
    match plt.task_queue.pop_front() {
        Some(GUITask::PlotTask(req, plot)) => {
            gui.add_window(1, req, plot).unwrap();
        },
        _ => panic!("expected the render task"),
    }
    assert_eq!(gui.window_count(), 1);
    plt.teardown();
    match plt.task_queue.pop_front() {
        Some(GUITask::Terminate) => {},
        _ => panic!("expected the terminate sentinel"),
    }
}

#[test]
fn override_wins_over_data() {
    let values: Vec<i64> = vec![3, -7, 12];
    assert_eq!(get_max(Some(5), &values), Ok(5));
    assert_eq!(get_min(Some(-100), &values), Ok(-100));
    // even against no data at all
    let empty: Vec<i64> = Vec::new();
    assert_eq!(get_max(Some(9), &empty), Ok(9));
    let req = PlotRequest {
        series: Vec::new(),
        max_x: Some(4),
        max_y: Some(3),
        min_x: Some(-2),
        min_y: Some(-1),
    };
    let xs: Vec<Vec<i64>> = Vec::new();
    let ys: Vec<Vec<i64>> = Vec::new();
    let b = get_plot_bounds(&req, &xs, &ys).unwrap();
    assert_eq!(b, Bounds { max_x: 4, max_y: 3, min_x: -2, min_y: -1 });
}

#[test]
fn bounds_are_true_extrema() {
    let req = PlotRequest { series: Vec::new(), max_x: None, max_y: None, min_x: None, min_y: None };
    let xs: Vec<Vec<i64>> = vec![vec![1, 9, 4], vec![-3, 2]];
    let ys: Vec<Vec<i64>> = vec![vec![0, -5, 7], vec![6, 1]];
    let b = get_plot_bounds(&req, &xs, &ys).unwrap();
    assert_eq!(b, Bounds { max_x: 9, max_y: 7, min_x: -3, min_y: -5 });
}

#[test]
fn empty_series_is_an_error() {
    let empty: Vec<i64> = Vec::new();
    assert_eq!(get_max(None, &empty), Err(PlotError::EmptySeriesBounds));
    assert_eq!(get_min(None, &empty), Err(PlotError::EmptySeriesBounds));
    let req = PlotRequest { series: Vec::new(), max_x: None, max_y: None, min_x: None, min_y: None };
    let xs: Vec<Vec<i64>> = vec![vec![1, 2], Vec::new()];
    let ys: Vec<Vec<i64>> = vec![vec![1, 2], Vec::new()];
    assert_eq!(get_plot_bounds(&req, &xs, &ys), Err(PlotError::EmptySeriesBounds));
    // no series at all and nothing overridden: also an error
    let none: Vec<Vec<i64>> = Vec::new();
    assert_eq!(get_plot_bounds(&req, &none, &none), Err(PlotError::EmptySeriesBounds));
}

#[test]
fn mapper_boundary_values() {
    // map(axisMin) == margin and map(axisMax) == innerLength, exactly
    assert_eq!(point2plot(-5, -5, 13, 684, 36), 36);
    assert_eq!(point2plot(13, -5, 13, 684, 36), 684);
    assert_eq!(point2plot(0, 0, 2, 684, 36), 36);
    assert_eq!(point2plot(2, 0, 2, 684, 36), 684);
}

#[test]
fn mapper_rounds_to_nearest_pixel() {
    // 648 / 7 = 92.57...: the interior point rounds to the nearest pixel
    assert_eq!(point2plot(1, 0, 7, 684, 36), 129);
    // 648 * 2 / 7 = 185.14...: rounds down
    assert_eq!(point2plot(2, 0, 7, 684, 36), 221);
}

#[test]
fn mapper_accepts_inverted_overrides() {
    // an inconsistent override pair (max below min) still maps exactly
    assert_eq!(point2plot(2, 2, 0, 684, 36), 36);
    assert_eq!(point2plot(0, 2, 0, 684, 36), 684);
    assert_eq!(point2plot(1, 2, 0, 684, 36), 360);
}

#[test]
fn mapper_degenerate_axis_is_midpoint() {
    // max == min maps every point to the fixed midpoint pixel
    assert_eq!(point2plot(7, 7, 7, 684, 36), 360);
    assert_eq!(point2plot(-100, 7, 7, 684, 36), 360);
    assert_eq!(point2plot(0, 0, 0, 100, 0), 50);
}

#[test]
fn render_tasks_make_independent_windows() {
    let mut gui = PlotGUI::new();
    let plot = Plot::new();
    gui.add_window(10, simple_request(vec![(0, 0), (1, 1)], red()), plot).unwrap();
    let plot = Plot::new();
    gui.add_window(11, simple_request(vec![(5, -5), (9, 9)], green()), plot).unwrap();
    let plot = Plot::new();
    gui.add_window(12, simple_request(vec![(2, 2), (3, 3)], red()), plot).unwrap();
    assert_eq!(gui.window_count(), 3);
    let d0 = gui.windows[0].data.as_ref().unwrap();
    let d1 = gui.windows[1].data.as_ref().unwrap();
    let d2 = gui.windows[2].data.as_ref().unwrap();
    assert_eq!(gui.windows[0].id, 10);
    assert_eq!(gui.windows[1].id, 11);
    assert_eq!(gui.windows[2].id, 12);
    assert_eq!(d0.plot_bounds, Bounds { max_x: 1, max_y: 1, min_x: 0, min_y: 0 });
    assert_eq!(d1.plot_bounds, Bounds { max_x: 9, max_y: 9, min_x: 5, min_y: -5 });
    assert_eq!(d2.plot_bounds, Bounds { max_x: 3, max_y: 3, min_x: 2, min_y: 2 });
    assert_eq!(d0.colors, vec![red()]);
    assert_eq!(d1.colors, vec![green()]);
    assert_eq!(d0.xs, vec![vec![0, 1]]);
    assert_eq!(d1.xs, vec![vec![5, 9]]);
    assert_eq!(d1.ys, vec![vec![-5, 9]]);
}

#[test]
fn failed_render_task_adds_no_window() {
    let mut gui = PlotGUI::new();
    let plot = Plot::new();
    let bad = simple_request(Vec::new(), red());
    assert_eq!(gui.add_window(1, bad, plot), Err(PlotError::EmptySeriesBounds));
    assert_eq!(gui.window_count(), 0);
}

#[test]
fn closing_last_window_exits_driver() {
    let mut gui = PlotGUI::new();
    let plot = Plot::new();
    gui.add_window(1, simple_request(vec![(0, 0), (1, 1)], red()), plot).unwrap();
    let plot = Plot::new();
    gui.add_window(2, simple_request(vec![(0, 0), (1, 1)], red()), plot).unwrap();
    // closing one of two windows does not exit
    let exit = gui.handle_events(&vec![UiEvent::Other, UiEvent::CloseWindow(1)]);
    assert!(!exit);
    assert_eq!(gui.window_count(), 1);
    // closing the last window exits
    let exit = gui.handle_events(&vec![UiEvent::CloseWindow(2)]);
    assert!(exit);
    assert_eq!(gui.window_count(), 0);
    // after every window is closed a terminate task exits at once,
    // so a teardown requested then returns promptly
    assert!(gui.should_exit_on_terminate());
}

#[test]
fn quit_event_exits_immediately() {
    let mut gui = PlotGUI::new();
    let plot = Plot::new();
    gui.add_window(1, simple_request(vec![(0, 0), (1, 1)], red()), plot).unwrap();
    let exit = gui.handle_events(&vec![UiEvent::Quit, UiEvent::CloseWindow(1)]);
    assert!(exit);
    // the quit exited before the close event was consulted
    assert_eq!(gui.window_count(), 1);
}

#[test]
fn close_of_unknown_id_changes_nothing() {
    let mut gui = PlotGUI::new();
    let plot = Plot::new();
    gui.add_window(7, simple_request(vec![(0, 0), (1, 1)], red()), plot).unwrap();
    let exit = gui.handle_events(&vec![UiEvent::CloseWindow(99)]);
    assert!(!exit);
    assert_eq!(gui.window_count(), 1);
    assert!(gui.has_window(7));
    assert!(!gui.has_window(99));
}

#[test]
fn terminate_deferred_while_windows_open() {
    let mut gui = PlotGUI::new();
    let plot = Plot::new();
    gui.add_window(1, simple_request(vec![(0, 0), (1, 1)], red()), plot).unwrap();
    assert!(!gui.should_exit_on_terminate());
}

#[test]
fn end_to_end_single_series() {
    // one series [(0,0),(1,1),(2,0)], color [1,0,0,1], default bounds
    let mut gui = PlotGUI::new();
    let plot = Plot::new();
    let req = simple_request(vec![(0, 0), (1, 1), (2, 0)], red());
    gui.add_window(1, req, plot).unwrap();
    let d = gui.windows[0].data.as_ref().unwrap();
    assert_eq!(d.plot_bounds, Bounds { max_x: 2, max_y: 1, min_x: 0, min_y: 0 });
    // the three mapped points are monotonically increasing in pixel-x
    let plan = gui.windows[0].draw_plan(720, 720);
    // clear, border rectangle, zero axis, then two connected segments
    assert_eq!(plan.len(), 5);
    match (&plan[3], &plan[4]) {
        (
            DrawCmd::ThickLine { x1: a1, x2: a2, color: c1, .. },
            DrawCmd::ThickLine { x1: b1, x2: b2, color: c2, .. },
        ) => {
            assert_eq!(*a2, *b1);
            assert!(a1 < a2 && b1 < b2);
            assert_eq!(*c1, red());
            assert_eq!(*c2, red());
            // exact pixel positions for a 720x720 surface: margin 36, inner 684
            assert_eq!(*a1, 36);
            assert_eq!(*a2, 360);
            assert_eq!(*b2, 684);
        },
        _ => panic!("expected the two series segments"),
    }
    match &plan[0] {
        DrawCmd::Clear { color } => {
            assert_eq!(*color, Color { r: 255, g: 255, b: 255, a: 255 });
        },
        _ => panic!("expected the clear"),
    }
}

#[test]
fn draw_plan_without_data_is_empty() {
    let w = Window::new(3);
    assert!(w.draw_plan(720, 720).is_empty());
}

#[test]
fn queue_is_fifo() {
    let mut q = TaskQueue::new();
    assert!(q.is_empty());
    assert!(q.pop_front().is_none());
    q.push_back(GUITask::PlotTask(simple_request(vec![(1, 1)], red()), Plot::new()));
    q.push_back(GUITask::PlotTask(simple_request(vec![(2, 2)], green()), Plot::new()));
    q.push_back(GUITask::Terminate);
    assert_eq!(q.len(), 3);
    match q.pop_front() {
        Some(GUITask::PlotTask(req, _)) => assert_eq!(req.series[0].points, vec![(1, 1)]),
        _ => panic!("expected the first render task"),
    }
    match q.pop_front() {
        Some(GUITask::PlotTask(req, _)) => assert_eq!(req.series[0].points, vec![(2, 2)]),
        _ => panic!("expected the second render task"),
    }
    match q.pop_front() {
        Some(GUITask::Terminate) => {},
        _ => panic!("expected the terminate task"),
    }
    assert!(q.is_empty());
}

#[test]
fn submissions_keep_order() {
    let mut plt = Plotter::new(false).unwrap();
    plt.plot2d(simple_request(vec![(1, 0)], red()));
    plt.plot2d(simple_request(vec![(2, 0)], red()));
    plt.teardown();
    match plt.task_queue.pop_front() {
        Some(GUITask::PlotTask(req, _)) => assert_eq!(req.series[0].points[0].0, 1),
        _ => panic!("expected the first submission"),
    }
    match plt.task_queue.pop_front() {
        Some(GUITask::PlotTask(req, _)) => assert_eq!(req.series[0].points[0].0, 2),
        _ => panic!("expected the second submission"),
    }
    match plt.task_queue.pop_front() {
        Some(GUITask::Terminate) => {},
        _ => panic!("expected the terminate sentinel"),
    }
}

#[test]
fn second_plotter_is_refused() {
    match Plotter::new(true) {
        Err(e) => {
            assert_eq!(e, PlotError::AlreadyInitialized);
            assert_eq!(e.message(), "Only one gui Plotter may be initialised at a time.");
        },
        Ok(_) => panic!("a second live handle must be refused"),
    }
}

#[test]
fn error_messages() {
    assert_eq!(
        PlotError::EmptySeriesBounds.message(),
        "Axis bounds cannot be resolved from an empty series."
    );
    assert_eq!(
        PlotError::BackendInitFailure.message(),
        "The rendering backend could not be initialised."
    );
}
