use plot_server::dao::Dao;
use plot_server::data_model::{NumberVal, Plot, TimeSeries};
use plot_server::json_handler::Dispatcher;
use plot_server::json_value::JsonValue;
use plot_server::time_point::{time_point_from_str, TimePoint};

fn tp(s: &str) -> TimePoint {
    time_point_from_str(s).unwrap()
}

fn series(name: &str, when: &str, value: &str) -> TimeSeries {
    TimeSeries {
        id: 0,
        name: name.to_string(),
        unit: "K".to_string(),
        time_points: vec![tp(when)],
        values: vec![NumberVal::Lit(value.to_string())],
    }
}

fn cool_dispatcher() -> Dispatcher {
    let mut dao = Dao::new_in_memory().unwrap();
    dao.add_plot(&Plot {
        id: 0,
        name: "cool".to_string(),
        description: "cool data".to_string(),
        time_series: vec![
            series("a", "2023-01-01T00:00:00+00:00", "3.1"),
            series("b", "2023-02-01T00:00:00+00:00", "63.9"),
        ],
    })
    .unwrap();
    Dispatcher::new(dao)
}

fn parse(text: &str) -> serde_json::Value {
    serde_json::from_str(text).unwrap()
}

#[test]
fn notification_produces_no_response() {
    let dispatcher = cool_dispatcher();
    let r = dispatcher.dispatch("{\"method\":\"GetAllPlots\",\"params\":{}}");
    assert!(r.is_none());
}

#[test]
fn null_id_is_a_notification_too() {
    let dispatcher = cool_dispatcher();
    let r = dispatcher.dispatch("{\"id\":null,\"method\":\"GetAllPlots\",\"params\":{}}");
    assert!(r.is_none());
}

#[test]
fn unknown_method_earns_an_error_response() {
    let dispatcher = cool_dispatcher();
    let r = dispatcher
        .dispatch("{\"id\":7,\"method\":\"DoesNotExist\",\"params\":{}}")
        .unwrap();
    let v = parse(&r);
    assert_eq!(v["jsonrpc"], serde_json::Value::String("2.0".to_string()));
    assert_eq!(v["id"].as_i64(), Some(7));
    assert!(v["error"].is_object());
    assert_eq!(v["error"]["message"].as_str(), Some("Method not found"));
    assert!(v.get("result").is_none());
}

#[test]
fn unparsable_frame_is_dropped() {
    let dispatcher = cool_dispatcher();
    assert!(dispatcher.dispatch("this is not json").is_none());
}

#[test]
fn non_object_frame_is_dropped() {
    let dispatcher = cool_dispatcher();
    assert!(dispatcher.dispatch("42").is_none());
}

#[test]
fn missing_method_is_dropped() {
    let dispatcher = cool_dispatcher();
    assert!(dispatcher.dispatch("{\"id\":1,\"params\":{}}").is_none());
}

#[test]
fn get_all_plots_lists_shallow_plots() {
    let dispatcher = cool_dispatcher();
    let r = dispatcher
        .dispatch("{\"id\":2,\"method\":\"GetAllPlots\",\"params\":{}}")
        .unwrap();
    let v = parse(&r);
    assert_eq!(v["id"].as_i64(), Some(2));
    let plots = v["result"].as_array().unwrap();
    assert_eq!(plots.len(), 1);
    assert_eq!(plots[0]["Id"].as_i64(), Some(1));
    assert_eq!(plots[0]["Name"].as_str(), Some("cool"));
    assert_eq!(plots[0]["Description"].as_str(), Some("cool data"));
    assert_eq!(plots[0]["TimeSeries"].as_array().unwrap().len(), 0);
}

#[test]
fn end_to_end_get_plot() {
    let dispatcher = cool_dispatcher();
    let r = dispatcher
        .dispatch("{\"id\":1,\"method\":\"GetPlot\",\"params\":{\"Id\":1}}")
        .unwrap();
    let v = parse(&r);
    assert_eq!(v["jsonrpc"].as_str(), Some("2.0"));
    assert_eq!(v["id"].as_i64(), Some(1));
    let result = &v["result"];
    assert_eq!(result["Name"].as_str(), Some("cool"));
    let ts = result["TimeSeries"].as_array().unwrap();
    assert_eq!(ts.len(), 2);
    assert_eq!(ts[0]["Name"].as_str(), Some("a"));
    assert_eq!(ts[0]["Values"].as_array().unwrap().len(), 1);
    assert_eq!(ts[0]["Values"][0].as_f64(), Some(3.1));
    assert_eq!(
        ts[0]["TimePoints"][0].as_str(),
        Some("2023-01-01T00:00:00+00:00")
    );
    assert_eq!(ts[1]["Name"].as_str(), Some("b"));
    assert_eq!(ts[1]["Values"].as_array().unwrap().len(), 1);
    assert_eq!(ts[1]["Values"][0].as_f64(), Some(63.9));
}

#[test]
fn get_plot_with_start_date_filters_entries() {
    let dispatcher = cool_dispatcher();
    let r = dispatcher
        .dispatch(
            "{\"id\":3,\"method\":\"GetPlot\",\"params\":{\"Id\":1,\"StartDate\":\"2023-01-15T00:00:00+00:00\"}}",
        )
        .unwrap();
    let v = parse(&r);
    let ts = v["result"]["TimeSeries"].as_array().unwrap();
    assert_eq!(ts[0]["TimePoints"].as_array().unwrap().len(), 0);
    assert_eq!(ts[1]["TimePoints"].as_array().unwrap().len(), 1);
}

#[test]
fn get_plot_with_bad_start_date_fails_with_date_code() {
    let dispatcher = cool_dispatcher();
    let r = dispatcher
        .dispatch(
            "{\"id\":4,\"method\":\"GetPlot\",\"params\":{\"Id\":1,\"StartDate\":\"soon\"}}",
        )
        .unwrap();
    let v = parse(&r);
    assert_eq!(v["error"]["code"].as_i64(), Some(430));
    assert_eq!(v["error"]["message"].as_str(), Some("Could not parse date."));
}

#[test]
fn get_plot_without_id_param_fails() {
    let dispatcher = cool_dispatcher();
    let r = dispatcher
        .dispatch("{\"id\":5,\"method\":\"GetPlot\",\"params\":{}}")
        .unwrap();
    let v = parse(&r);
    assert_eq!(v["error"]["code"].as_i64(), Some(420));
    assert_eq!(v["error"]["message"].as_str(), Some("Id missing"));
}

#[test]
fn get_plot_unknown_id_fails_not_found() {
    let dispatcher = cool_dispatcher();
    let r = dispatcher
        .dispatch("{\"id\":6,\"method\":\"GetPlot\",\"params\":{\"Id\":99}}")
        .unwrap();
    let v = parse(&r);
    assert_eq!(v["error"]["code"].as_i64(), Some(300));
    assert_eq!(v["error"]["message"].as_str(), Some("Not found"));
}

#[test]
fn dispatch_value_echoes_structured_ids() {
    let dispatcher = cool_dispatcher();
    let request = JsonValue::Obj(vec![
        ("id".to_string(), JsonValue::Str("req-a".to_string())),
        ("method".to_string(), JsonValue::Str("GetAllPlots".to_string())),
        ("params".to_string(), JsonValue::Obj(vec![])),
    ]);
    let response = dispatcher.dispatch_value(&request).unwrap();
    match response {
        JsonValue::Obj(fields) => {
            let id = fields
                .iter()
                .find(|(k, _)| k == "id")
                .map(|(_, v)| v)
                .unwrap();
            match id {
                JsonValue::Str(s) => assert_eq!(s, "req-a"),
                _ => panic!("id was not echoed as a string"),
            }
        }
        _ => panic!("response was not an object"),
    }
}
