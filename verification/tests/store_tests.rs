use plot_server::dao::Dao;
use plot_server::data_model::{NumberVal, Plot, TimeSeries, TimeSeriesEntry};
use plot_server::time_point::{time_point_from_str, TimePoint};

fn tp(s: &str) -> TimePoint {
    time_point_from_str(s).unwrap()
}

fn empty_plot(name: &str) -> Plot {
    Plot {
        id: 0,
        name: name.to_string(),
        description: "d".to_string(),
        time_series: vec![],
    }
}

#[test]
fn new_store_is_empty() {
    let dao = Dao::new_in_memory().unwrap();
    let plots = dao.get_all_plots().unwrap();
    assert_eq!(plots.len(), 0);
}

#[test]
fn ids_are_assigned_from_one() {
    let mut dao = Dao::new_in_memory().unwrap();
    let a = dao.add_plot(&empty_plot("a")).unwrap();
    let b = dao.add_plot(&empty_plot("b")).unwrap();
    assert_eq!(a.id, 1);
    assert_eq!(b.id, 2);
    let plots = dao.get_all_plots().unwrap();
    assert_eq!(plots.len(), 2);
    assert_eq!(plots[0].id, 1);
    assert_eq!(plots[0].name, "a");
    assert_eq!(plots[1].id, 2);
    assert_eq!(plots[1].name, "b");
}

#[test]
fn duplicate_plot_name_fails_without_partial_insert() {
    let mut dao = Dao::new_in_memory().unwrap();
    dao.add_plot(&empty_plot("cool")).unwrap();
    let mut dup = empty_plot("cool");
    dup.time_series.push(TimeSeries {
        id: 0,
        name: "s".to_string(),
        unit: "K".to_string(),
        time_points: vec![tp("2023-01-01T00:00:00+00:00")],
        values: vec![NumberVal::Lit("1.5".to_string())],
    });
    let err = dao.add_plot(&dup).unwrap_err();
    assert_eq!(err.code, 300);
    assert_eq!(err.message, "Database error");
    assert_eq!(dao.get_all_plots().unwrap().len(), 1);
    assert!(dao.get_time_series(1).is_err());
}

#[test]
fn length_mismatch_fails_with_validation_code_and_no_insert() {
    let mut dao = Dao::new_in_memory().unwrap();
    let plot = dao.add_plot(&empty_plot("p")).unwrap();
    let bad = TimeSeries {
        id: 0,
        name: "s".to_string(),
        unit: "K".to_string(),
        time_points: vec![tp("2023-01-01T00:00:00+00:00")],
        values: vec![],
    };
    let err = dao.add_time_series(plot.id, &bad).unwrap_err();
    assert_eq!(err.code, 420);
    assert_eq!(
        err.message,
        "Inconsistent number of time_points and values in TimeSeries."
    );
    assert!(dao.get_time_series(1).is_err());
}

#[test]
fn nested_length_mismatch_rolls_back_whole_plot() {
    let mut dao = Dao::new_in_memory().unwrap();
    let mut plot = empty_plot("p");
    plot.time_series.push(TimeSeries {
        id: 0,
        name: "ok".to_string(),
        unit: "K".to_string(),
        time_points: vec![tp("2023-01-01T00:00:00+00:00")],
        values: vec![NumberVal::Int(1)],
    });
    plot.time_series.push(TimeSeries {
        id: 0,
        name: "bad".to_string(),
        unit: "K".to_string(),
        time_points: vec![],
        values: vec![NumberVal::Int(2)],
    });
    let err = dao.add_plot(&plot).unwrap_err();
    assert_eq!(err.code, 420);
    assert_eq!(dao.get_all_plots().unwrap().len(), 0);
    assert!(dao.get_time_series(1).is_err());
}

#[test]
fn duplicate_entry_time_fails_and_keeps_store() {
    let mut dao = Dao::new_in_memory().unwrap();
    let plot = dao.add_plot(&empty_plot("p")).unwrap();
    let series = dao
        .add_time_series(
            plot.id,
            &TimeSeries {
                id: 0,
                name: "s".to_string(),
                unit: "K".to_string(),
                time_points: vec![tp("2023-01-01T00:00:00+00:00")],
                values: vec![NumberVal::Int(1)],
            },
        )
        .unwrap();
    let entry = TimeSeriesEntry {
        time_point: tp("2023-01-01T00:00:00+00:00"),
        value: NumberVal::Int(2),
    };
    let err = dao.add_entry(series.id, &entry).unwrap_err();
    assert_eq!(err.code, 300);
    assert_eq!(err.message, "Database error");
    let mut loaded = dao.get_time_series(series.id).unwrap();
    dao.get_entries_for_time_series(&mut loaded, None).unwrap();
    assert_eq!(loaded.time_points.len(), 1);
    assert_eq!(loaded.values, vec![NumberVal::Int(1)]);
}

#[test]
fn add_entry_to_unknown_series_fails() {
    let mut dao = Dao::new_in_memory().unwrap();
    let entry = TimeSeriesEntry {
        time_point: tp("2023-01-01T00:00:00+00:00"),
        value: NumberVal::Int(1),
    };
    let err = dao.add_entry(7, &entry).unwrap_err();
    assert_eq!(err.code, 300);
    assert_eq!(err.message, "Not found");
}

#[test]
fn entries_come_back_sorted_regardless_of_insertion_order() {
    let mut dao = Dao::new_in_memory().unwrap();
    let plot = dao.add_plot(&empty_plot("p")).unwrap();
    let series = dao
        .add_time_series(
            plot.id,
            &TimeSeries {
                id: 0,
                name: "s".to_string(),
                unit: "K".to_string(),
                time_points: vec![],
                values: vec![],
            },
        )
        .unwrap();
    for (when, what) in [
        ("2023-03-01T00:00:00+00:00", 3i64),
        ("2023-01-01T00:00:00+00:00", 1i64),
        ("2023-02-01T00:00:00+00:00", 2i64),
    ] {
        dao.add_entry(
            series.id,
            &TimeSeriesEntry {
                time_point: tp(when),
                value: NumberVal::Int(what),
            },
        )
        .unwrap();
    }
    let mut loaded = dao.get_time_series(series.id).unwrap();
    dao.get_entries_for_time_series(&mut loaded, None).unwrap();
    assert_eq!(
        loaded.time_points,
        vec![
            tp("2023-01-01T00:00:00+00:00"),
            tp("2023-02-01T00:00:00+00:00"),
            tp("2023-03-01T00:00:00+00:00"),
        ]
    );
    assert_eq!(
        loaded.values,
        vec![NumberVal::Int(1), NumberVal::Int(2), NumberVal::Int(3)]
    );
}

#[test]
fn date_filter_is_inclusive() {
    let mut dao = Dao::new_in_memory().unwrap();
    let plot = dao.add_plot(&empty_plot("p")).unwrap();
    let t1 = "2023-01-01T00:00:00+00:00";
    let t2 = "2023-02-01T00:00:00+00:00";
    let t3 = "2023-03-01T00:00:00+00:00";
    let series = dao
        .add_time_series(
            plot.id,
            &TimeSeries {
                id: 0,
                name: "s".to_string(),
                unit: "K".to_string(),
                time_points: vec![tp(t1), tp(t2), tp(t3)],
                values: vec![NumberVal::Int(1), NumberVal::Int(2), NumberVal::Int(3)],
            },
        )
        .unwrap();
    let mut loaded = dao.get_time_series(series.id).unwrap();
    dao.get_entries_for_time_series(&mut loaded, Some(tp(t2)))
        .unwrap();
    assert_eq!(loaded.time_points, vec![tp(t2), tp(t3)]);
    assert_eq!(loaded.values, vec![NumberVal::Int(2), NumberVal::Int(3)]);
}

#[test]
fn get_plot_not_found() {
    let dao = Dao::new_in_memory().unwrap();
    let err = dao.get_plot(1).unwrap_err();
    assert_eq!(err.code, 300);
    assert_eq!(err.message, "Not found");
}

#[test]
fn duplicate_series_name_under_same_plot_fails() {
    let mut dao = Dao::new_in_memory().unwrap();
    let plot = dao.add_plot(&empty_plot("p")).unwrap();
    let series = TimeSeries {
        id: 0,
        name: "s".to_string(),
        unit: "K".to_string(),
        time_points: vec![],
        values: vec![],
    };
    dao.add_time_series(plot.id, &series).unwrap();
    let err = dao.add_time_series(plot.id, &series).unwrap_err();
    assert_eq!(err.code, 300);
    let other = dao.add_plot(&empty_plot("q")).unwrap();
    assert!(dao.add_time_series(other.id, &series).is_ok());
}

#[test]
fn get_plot_with_data_hydrates_and_filters() {
    let mut dao = Dao::new_in_memory().unwrap();
    let mut plot = empty_plot("p");
    plot.time_series.push(TimeSeries {
        id: 0,
        name: "s".to_string(),
        unit: "K".to_string(),
        time_points: vec![
            tp("2023-01-01T00:00:00+00:00"),
            tp("2023-02-01T00:00:00+00:00"),
        ],
        values: vec![NumberVal::Int(1), NumberVal::Int(2)],
    });
    let created = dao.add_plot(&plot).unwrap();
    let full = dao.get_plot_with_data(created.id, None).unwrap();
    assert_eq!(full.time_series.len(), 1);
    assert_eq!(full.time_series[0].time_points.len(), 2);
    let filtered = dao
        .get_plot_with_data(created.id, Some(tp("2023-02-01T00:00:00+00:00")))
        .unwrap();
    assert_eq!(
        filtered.time_series[0].time_points,
        vec![tp("2023-02-01T00:00:00+00:00")]
    );
    assert_eq!(filtered.time_series[0].values, vec![NumberVal::Int(2)]);
}

#[test]
fn empty_plot_name_is_rejected() {
    let mut dao = Dao::new_in_memory().unwrap();
    let err = dao.add_plot(&empty_plot("")).unwrap_err();
    assert_eq!(err.code, 300);
    assert_eq!(err.message, "Database error");
    assert_eq!(dao.get_all_plots().unwrap().len(), 0);
}
