use crate::dao::{
    entries_from, hydrated_series_matches, series_for, Dao, PlotRow, SeriesRow,
};
use crate::data_model::{encode_plot, plot_jv, PlotV, TimeSeriesV};
use crate::errors::HandlingError;
use crate::json_text::{json_text_of, json_text_parsed, parse_json_text, render_json_text};
use crate::json_value::{
    jv_of, jv_of_fields, jv_of_seq, lemma_jv_of_fields, lemma_jv_of_seq, obj_get, obj_lookup, Jv,
    JsonValue,
};
use crate::json_value::deep_copy;
use crate::time_point::{rfc3339_parse, TimePoint};
use vstd::prelude::*;

verus! {

/// The field under `key` of a document, when the document is an object that
/// carries the key; reading a field of anything else yields nothing.
pub open spec fn jv_field(v: Jv, key: Seq<char>) -> Option<Jv> {
    match v {
        Jv::Obj(f) => obj_get(f, key),
        _ => None,
    }
}

/// The shape of a plot loaded shallow.
pub open spec fn shallow_plot_v(row: PlotRow) -> PlotV {
    PlotV {
        id: row.id as int,
        name: row.name@,
        description: row.description@,
        time_series: Seq::empty(),
    }
}

/// The shape of a series hydrated from its stored row, entries filtered by
/// `start`.
pub open spec fn hydrated_series_v(
    row: SeriesRow,
    start: Option<TimePoint>,
) -> TimeSeriesV {
    TimeSeriesV {
        id: row.id as int,
        name: row.name@,
        unit: row.unit@,
        time_points: entries_from(row.entries@, start).map_values(
            |e: crate::data_model::TimeSeriesEntry| e.time_point,
        ),
        values: entries_from(row.entries@, start).map_values(
            |e: crate::data_model::TimeSeriesEntry| e.value@,
        ),
    }
}

/// The shape of a plot with all its data, entries filtered by `start`.
pub open spec fn hydrated_plot_v(dao: Dao, id: i64, start: Option<TimePoint>) -> PlotV {
    PlotV {
        id: id as int,
        name: dao.plots@[id - 1].name@,
        description: dao.plots@[id - 1].description@,
        time_series: Seq::new(
            series_for(dao.series@, id).len(),
            |k: int| hydrated_series_v(series_for(dao.series@, id)[k], start),
        ),
    }
}

/// What `GetAllPlots` returns: every plot, shallow, ordered by id ascending.
pub open spec fn spec_all_plots_result(dao: Dao) -> Jv {
    Jv::Arr(Seq::new(dao.plots@.len(), |i: int| plot_jv(shallow_plot_v(dao.plots@[i]))))
}

/// What `GetPlot` returns for given parameters: the full plot document, or
/// a failure — a missing or non-integer `Id`, an unparsable `StartDate`, or
/// an unknown plot id.
pub open spec fn spec_get_plot(dao: Dao, params: Jv) -> Result<Jv, (i32, Seq<char>)> {
    match jv_field(params, "Id"@) {
        Some(Jv::Int(id)) => match jv_field(params, "StartDate"@) {
            Some(Jv::Str(s)) => match rfc3339_parse(s) {
                Some(sn) => spec_get_plot_found(
                    dao,
                    id,
                    Some(TimePoint { secs: sn.0, nanos: sn.1 }),
                ),
                None => Err((430, "Could not parse date."@)),
            },
            _ => spec_get_plot_found(dao, id, None),
        },
        _ => Err((420, "Id missing"@)),
    }
}

/// The tail of `GetPlot` once the id and the filter are settled.
pub open spec fn spec_get_plot_found(dao: Dao, id: int, start: Option<TimePoint>) -> Result<
    Jv,
    (i32, Seq<char>),
> {
    if 1 <= id <= dao.plots@.len() {
        Ok(plot_jv(hydrated_plot_v(dao, id as i64, start)))
    } else {
        Err((300, "Not found"@))
    }
}

/// A success response frame: the echoed id and the result.
pub open spec fn success_envelope(id: Jv, result: Jv) -> Jv {
    Jv::Obj(seq![("jsonrpc"@, Jv::Str("2.0"@)), ("id"@, id), ("result"@, result)])
}

/// A failure response frame: the echoed id and the error's message and code.
pub open spec fn error_envelope(id: Jv, code: int, message: Seq<char>) -> Jv {
    Jv::Obj(
        seq![
            ("jsonrpc"@, Jv::Str("2.0"@)),
            ("id"@, id),
            (
                "error"@,
                Jv::Obj(seq![("message"@, Jv::Str(message)), ("code"@, Jv::Int(code))]),
            ),
        ],
    )
}

/// The whole dispatch, as a function of the store and the request document.
/// A request without an `id` (or with a `null` one) is a notification and
/// produces no response; one without a string `method` is malformed and is
/// dropped; an unregistered method name earns a "method not found" failure
/// response; otherwise the named handler decides.
pub open spec fn spec_dispatch(dao: Dao, req: Jv) -> Option<Jv> {
    let id = match jv_field(req, "id"@) {
        Some(v) => v,
        None => Jv::Null,
    };
    if id is Null {
        None
    } else {
        match jv_field(req, "method"@) {
            Some(Jv::Str(m)) => {
                let params = match jv_field(req, "params"@) {
                    Some(p) => p,
                    None => Jv::Null,
                };
                if m == "GetAllPlots"@ {
                    Some(success_envelope(id, spec_all_plots_result(dao)))
                } else if m == "GetPlot"@ {
                    match spec_get_plot(dao, params) {
                        Ok(res) => Some(success_envelope(id, res)),
                        Err(c) => Some(error_envelope(id, c.0 as int, c.1)),
                    }
                } else {
                    Some(error_envelope(id, -32601, "Method not found"@))
                }
            },
            _ => None,
        }
    }
}

/// Maps each inbound request frame to storage operations and builds the
/// response frame, if one is owed.  The method registry is the fixed mapping
/// from `GetAllPlots` and `GetPlot` to their handlers; it owns the store, so
/// concurrent connections are serialized by design in front of it.
pub struct Dispatcher {
    pub dao: Dao,
}

/// Builds a success response frame.
fn success_env(id: JsonValue, result: JsonValue) -> (r: JsonValue)
    ensures
        r@ == success_envelope(id@, result@),
{
    let ghost idv = id@;
    let ghost resv = result@;
    let mut fields: Vec<(String, JsonValue)> = Vec::new();
    fields.push(("jsonrpc".to_owned(), JsonValue::Str("2.0".to_owned())));
    fields.push(("id".to_owned(), id));
    fields.push(("result".to_owned(), result));
    let r = JsonValue::Obj(fields);
    proof {
        lemma_jv_of_fields(fields@);
        assert(fields@.len() == 3);
        assert(fields@[0].1 is Str && fields@[0].1->Str_0@ == "2.0"@);
        assert(jv_of(fields@[1].1) == idv);
        assert(jv_of(fields@[2].1) == resv);
        assert(jv_of_fields(fields@) =~= success_envelope(idv, resv)->Obj_0);
    }
    r
}

/// Builds a failure response frame from a handling failure.
fn error_env(id: JsonValue, e: HandlingError) -> (r: JsonValue)
    ensures
        r@ == error_envelope(id@, e.code as int, e.message@),
{
    let ghost idv = id@;
    let ghost msg = e.message@;
    let ghost code = e.code as int;
    let mut inner: Vec<(String, JsonValue)> = Vec::new();
    inner.push(("message".to_owned(), JsonValue::Str(e.message)));
    inner.push(("code".to_owned(), JsonValue::Int(e.code as i64)));
    let err_obj = JsonValue::Obj(inner);
    proof {
        lemma_jv_of_fields(inner@);
        assert(inner@.len() == 2);
        assert(inner@[0].1 is Str && inner@[0].1->Str_0@ == msg);
        assert(inner@[1].1 == JsonValue::Int(e.code as i64));
        assert(jv_of_fields(inner@) =~= error_envelope(idv, code, msg)->Obj_0[2].1->Obj_0);
    }
    let mut fields: Vec<(String, JsonValue)> = Vec::new();
    fields.push(("jsonrpc".to_owned(), JsonValue::Str("2.0".to_owned())));
    fields.push(("id".to_owned(), id));
    fields.push(("error".to_owned(), err_obj));
    let r = JsonValue::Obj(fields);
    proof {
        lemma_jv_of_fields(fields@);
        assert(fields@.len() == 3);
        assert(fields@[0].1 is Str && fields@[0].1->Str_0@ == "2.0"@);
        assert(jv_of(fields@[1].1) == idv);
        assert(jv_of_fields(fields@) =~= error_envelope(idv, code, msg)->Obj_0);
    }
    r
}

impl Dispatcher {
    pub fn new(dao: Dao) -> (r: Dispatcher)
        ensures
            r.dao == dao,
    {
        Dispatcher { dao }
    }

    /// Serves `GetAllPlots`: every plot, shallow, ordered by id ascending.
    fn handle_get_all_plots(&self) -> (r: Result<JsonValue, HandlingError>)
        requires
            self.dao.wf(),
        ensures
            r matches Ok(v) && v@ == spec_all_plots_result(self.dao),
    {
        let plots = match self.dao.get_all_plots() {
            Ok(ps) => ps,
            Err(e) => {
                return Err(e);
            },
        };
        let mut out: Vec<JsonValue> = Vec::new();
        let mut i: usize = 0;
        while i < plots.len()
            invariant
                self.dao.wf(),
                plots@.len() == self.dao.plots@.len(),
                forall|j: int|
                    0 <= j < plots@.len() ==> {
                        &&& (#[trigger] plots@[j]).id == j + 1
                        &&& plots@[j]@.name == self.dao.plots@[j].name@
                        &&& plots@[j]@.description == self.dao.plots@[j].description@
                        &&& plots@[j]@.time_series.len() == 0
                    },
                0 <= i <= plots@.len(),
                out@.len() == i,
                forall|j: int|
                    0 <= j < i ==> jv_of(out@[j]) == plot_jv(
                        shallow_plot_v(#[trigger] self.dao.plots@[j]),
                    ),
            decreases plots@.len() - i,
        {
            let v = encode_plot(&plots[i]);
            proof {
                assert(plots@[i as int]@.time_series =~= Seq::<TimeSeriesV>::empty());
                assert(plots@[i as int]@ =~= shallow_plot_v(self.dao.plots@[i as int]));
            }
            out.push(v);
            i = i + 1;
        }
        let r = JsonValue::Arr(out);
        proof {
            lemma_jv_of_seq(out@);
            assert(jv_of_seq(out@) =~= spec_all_plots_result(self.dao)->Arr_0);
        }
        Ok(r)
    }

    /// Serves `GetPlot`: the full plot named by `Id` in the parameters, its
    /// entries filtered by `StartDate` when one is given.
    fn handle_get_plot(&self, params: &JsonValue) -> (r: Result<JsonValue, HandlingError>)
        requires
            self.dao.wf(),
        ensures
            match spec_get_plot(self.dao, params@) {
                Ok(v) => r matches Ok(rv) && rv@ == v,
                Err(c) => r matches Err(e) && e.code == c.0 && e.message@ == c.1,
            },
    {
        let empty_fields: Vec<(String, JsonValue)> = Vec::new();
        let fields: &Vec<(String, JsonValue)> = match params {
            JsonValue::Obj(f) => f,
            _ => &empty_fields,
        };
        proof {
            if !(params@ is Obj) {
                assert(jv_of_fields(fields@) =~= Seq::<(Seq<char>, Jv)>::empty());
            }
        }
        let id: i64 = match obj_lookup(fields, &"Id".to_owned()) {
            Some(v) => match v {
                JsonValue::Int(i) => *i,
                _ => {
                    return Err(HandlingError { message: "Id missing".to_owned(), code: 420 });
                },
            },
            None => {
                return Err(HandlingError { message: "Id missing".to_owned(), code: 420 });
            },
        };
        let start: Option<TimePoint> = match obj_lookup(fields, &"StartDate".to_owned()) {
            Some(v) => match v {
                JsonValue::Str(s) => match crate::time_point::time_point_from_str(s.as_str()) {
                    Ok(t) => Some(t),
                    Err(e) => {
                        return Err(e);
                    },
                },
                _ => None,
            },
            None => None,
        };
        let plot = match self.dao.get_plot_with_data(id, start) {
            Ok(p) => p,
            Err(e) => {
                return Err(e);
            },
        };
        let v = encode_plot(&plot);
        proof {
            let rows = series_for(self.dao.series@, id);
            assert forall|k: int| 0 <= k < rows.len() implies #[trigger] plot@.time_series[k]
                =~= hydrated_series_v(rows[k], start) by {
                assert(hydrated_series_matches(plot@.time_series[k], rows[k], start));
            }
            assert(plot@.time_series =~= hydrated_plot_v(self.dao, id, start).time_series);
            assert(plot@ =~= hydrated_plot_v(self.dao, id, start));
        }
        Ok(v)
    }

    /// Handles one request document: a notification or a malformed envelope
    /// yields no response; anything else yields exactly one.
    pub fn dispatch_value(&self, request: &JsonValue) -> (r: Option<JsonValue>)
        requires
            self.dao.wf(),
        ensures
            match r {
                Some(v) => spec_dispatch(self.dao, request@) == Some(v@),
                None => spec_dispatch(self.dao, request@) is None,
            },
    {
        let fields: &Vec<(String, JsonValue)> = match request {
            JsonValue::Obj(f) => f,
            _ => {
                return None;
            },
        };
        let id_val: JsonValue = match obj_lookup(fields, &"id".to_owned()) {
            Some(v) => deep_copy(v),
            None => JsonValue::Null,
        };
        let id_is_null = match &id_val {
            JsonValue::Null => true,
            _ => false,
        };
        if id_is_null {
            return None;
        }
        let method: &String = match obj_lookup(fields, &"method".to_owned()) {
            Some(v) => match v {
                JsonValue::Str(m) => m,
                _ => {
                    return None;
                },
            },
            None => {
                return None;
            },
        };
        let params_null = JsonValue::Null;
        let params: &JsonValue = match obj_lookup(fields, &"params".to_owned()) {
            Some(p) => p,
            None => &params_null,
        };
        let outcome: Result<JsonValue, HandlingError> = if method.eq(&"GetAllPlots".to_owned()) {
            self.handle_get_all_plots()
        } else if method.eq(&"GetPlot".to_owned()) {
            self.handle_get_plot(params)
        } else {
            Err(HandlingError { message: "Method not found".to_owned(), code: -32601 })
        };
        match outcome {
            Ok(result) => Some(success_env(id_val, result)),
            Err(e) => Some(error_env(id_val, e)),
        }
    }

    /// Handles one inbound text frame: parses it, dispatches the document,
    /// and renders the response, if one is owed.  Text that is not JSON is
    /// dropped without an answer.
    pub fn dispatch(&self, message: &str) -> (r: Option<String>)
        requires
            self.dao.wf(),
        ensures
            match json_text_parsed(message@) {
                None => r is None,
                Some(req) => match spec_dispatch(self.dao, req) {
                    None => r is None,
                    Some(resp) => r matches Some(t) && t@ == json_text_of(resp),
                },
            },
    {
        match parse_json_text(message) {
            Some(req) => match self.dispatch_value(&req) {
                Some(resp) => Some(render_json_text(&resp)),
                None => None,
            },
            None => None,
        }
    }
}

} // verus!
