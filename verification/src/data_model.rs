use crate::errors::HandlingError;
use crate::json_value::{
    jv_of, jv_of_fields, jv_of_seq, lemma_jv_of_fields, lemma_jv_of_seq, lemma_obj_get_hit,
    obj_get, obj_lookup, Jv, JsonValue,
};
use crate::json_text::json_number_text;
use crate::time_point::{rfc3339_format, rfc3339_parse, time_point_to_string, TimePoint};
use vstd::prelude::*;

verus! {

/// A numeric sample as it crosses the wire: either a whole number that fits
/// a signed 64-bit integer, or any other numeric literal kept as its text.
/// A `Lit` stands for a number on the wire only when its text parses as a
/// JSON number; `lit_from_text` builds one under that check, and decoded
/// documents only ever carry such text.
#[derive(Debug, Clone, PartialEq)]
pub enum NumberVal {
    Int(i64),
    Lit(String),
}

/// The mathematical shape of a numeric sample.
pub enum Nv {
    Int(int),
    Lit(Seq<char>),
}

impl View for NumberVal {
    type V = Nv;

    open spec fn view(&self) -> Nv {
        match *self {
            NumberVal::Int(i) => Nv::Int(i as int),
            NumberVal::Lit(s) => Nv::Lit(s@),
        }
    }
}

impl NumberVal {
    /// Builds a literal sample, refusing text that is not a JSON number.
    pub fn lit_from_text(text: String) -> (r: Option<NumberVal>)
        ensures
            match r {
                Some(n) => n@ == Nv::Lit(text@) && nv_wf(n@),
                None => !json_number_text(text@),
            },
    {
        if crate::json_text::check_number_text(text.as_str()) {
            Some(NumberVal::Lit(text))
        } else {
            None
        }
    }

    /// An exact copy.
    pub fn dup(&self) -> (r: NumberVal)
        ensures
            r@ == self@,
    {
        match self {
            NumberVal::Int(i) => NumberVal::Int(*i),
            NumberVal::Lit(s) => NumberVal::Lit(s.clone()),
        }
    }
}

/// A named, unit-tagged sequence of timestamped samples under a plot.  The
/// two sequences are parallel: index `i` of each describes one sample.
#[derive(Debug, Clone, PartialEq)]
pub struct TimeSeries {
    pub id: i64,
    pub name: String,
    pub unit: String,
    pub time_points: Vec<TimePoint>,
    pub values: Vec<NumberVal>,
}

/// The mathematical shape of a time series.
#[verifier::ext_equal]
pub struct TimeSeriesV {
    pub id: int,
    pub name: Seq<char>,
    pub unit: Seq<char>,
    pub time_points: Seq<TimePoint>,
    pub values: Seq<Nv>,
}

impl View for TimeSeries {
    type V = TimeSeriesV;

    open spec fn view(&self) -> TimeSeriesV {
        TimeSeriesV {
            id: self.id as int,
            name: self.name@,
            unit: self.unit@,
            time_points: self.time_points@,
            values: self.values@.map_values(|n: NumberVal| n@),
        }
    }
}

impl TimeSeries {
    /// An exact copy.
    pub fn dup(&self) -> (r: TimeSeries)
        ensures
            r@ == self@,
    {
        let mut tps: Vec<TimePoint> = Vec::new();
        let mut i: usize = 0;
        while i < self.time_points.len()
            invariant
                0 <= i <= self.time_points@.len(),
                tps@ == self.time_points@.subrange(0, i as int),
            decreases self.time_points@.len() - i,
        {
            tps.push(self.time_points[i]);
            i = i + 1;
        }
        let mut vals: Vec<NumberVal> = Vec::new();
        let mut j: usize = 0;
        while j < self.values.len()
            invariant
                0 <= j <= self.values@.len(),
                vals@.len() == j,
                forall|k: int| 0 <= k < j ==> vals@[k]@ == (#[trigger] self.values@[k])@,
            decreases self.values@.len() - j,
        {
            let v = self.values[j].dup();
            vals.push(v);
            j = j + 1;
        }
        let r = TimeSeries {
            id: self.id,
            name: self.name.clone(),
            unit: self.unit.clone(),
            time_points: tps,
            values: vals,
        };
        proof {
            assert(r@.time_points =~= self@.time_points);
            assert(r@.values =~= self@.values);
            assert(r@ =~= self@);
        }
        r
    }
}

/// A named collection of related time series.
#[derive(Debug, Clone, PartialEq)]
pub struct Plot {
    pub id: i64,
    pub name: String,
    pub description: String,
    pub time_series: Vec<TimeSeries>,
}

/// The mathematical shape of a plot.
#[verifier::ext_equal]
pub struct PlotV {
    pub id: int,
    pub name: Seq<char>,
    pub description: Seq<char>,
    pub time_series: Seq<TimeSeriesV>,
}

impl View for Plot {
    type V = PlotV;

    open spec fn view(&self) -> PlotV {
        PlotV {
            id: self.id as int,
            name: self.name@,
            description: self.description@,
            time_series: self.time_series@.map_values(|t: TimeSeries| t@),
        }
    }
}

/// One (timestamp, value) sample belonging to exactly one time series.
#[derive(Debug, Clone, PartialEq)]
pub struct TimeSeriesEntry {
    pub time_point: TimePoint,
    pub value: NumberVal,
}

impl TimeSeriesEntry {
    /// Builds an entry from a date string, rejecting text that is not a
    /// valid RFC 3339 date-time.
    pub fn new_from_string(time_point: &str, value: NumberVal) -> (r: Result<
        TimeSeriesEntry,
        HandlingError,
    >)
        ensures
            match r {
                Ok(e) => rfc3339_parse(time_point@) == Some(
                    (e.time_point.secs, e.time_point.nanos),
                ) && e.time_point.wf() && e.value@ == value@,
                Err(e) => rfc3339_parse(time_point@) is None && e.code == 410 && e.message@
                    == "Date could not be parsed."@,
            },
    {
        match crate::time_point::time_point_from_str(time_point) {
            Ok(t) => Ok(TimeSeriesEntry { time_point: t, value }),
            Err(_) => Err(
                HandlingError { message: "Date could not be parsed.".to_owned(), code: 410 },
            ),
        }
    }
}

/// Every time point of the sequence lies in chrono's representable range.
pub open spec fn times_wf(tps: Seq<TimePoint>) -> bool {
    forall|i: int| 0 <= i < tps.len() ==> (#[trigger] tps[i]).wf()
}

/// The sample can stand for a number on the wire: a whole number always, a
/// literal only when its text parses as a JSON number.
pub open spec fn nv_wf(n: Nv) -> bool {
    match n {
        Nv::Int(_) => true,
        Nv::Lit(s) => json_number_text(s),
    }
}

/// Every sample of the sequence can stand for a number on the wire.
pub open spec fn values_wf(vs: Seq<Nv>) -> bool {
    forall|i: int| 0 <= i < vs.len() ==> nv_wf(#[trigger] vs[i])
}

/// The series' payload survives the wire: every time point lies in chrono's
/// representable range and every sample is a valid number.
pub open spec fn series_wire_wf(t: TimeSeriesV) -> bool {
    times_wf(t.time_points) && values_wf(t.values)
}

/// The document element for one numeric sample.
pub open spec fn nv_jv(n: Nv) -> Jv {
    match n {
        Nv::Int(i) => Jv::Int(i),
        Nv::Lit(s) => Jv::Num(s),
    }
}

/// The document elements for a sequence of time points: their RFC 3339 texts.
pub open spec fn time_points_jv(tps: Seq<TimePoint>) -> Seq<Jv> {
    tps.map_values(|p: TimePoint| Jv::Str(rfc3339_format(p.secs, p.nanos)))
}

/// The document elements for a sequence of numeric samples.
pub open spec fn values_jv(vs: Seq<Nv>) -> Seq<Jv> {
    vs.map_values(|n: Nv| nv_jv(n))
}

/// The canonical document for a time series, field names exact.
pub open spec fn time_series_jv(t: TimeSeriesV) -> Jv {
    Jv::Obj(
        seq![
            ("Id"@, Jv::Int(t.id)),
            ("Name"@, Jv::Str(t.name)),
            ("Unit"@, Jv::Str(t.unit)),
            ("TimePoints"@, Jv::Arr(time_points_jv(t.time_points))),
            ("Values"@, Jv::Arr(values_jv(t.values))),
        ],
    )
}

/// The canonical document for a plot, field names exact.
pub open spec fn plot_jv(p: PlotV) -> Jv {
    Jv::Obj(
        seq![
            ("Id"@, Jv::Int(p.id)),
            ("Name"@, Jv::Str(p.name)),
            ("Description"@, Jv::Str(p.description)),
            ("TimeSeries"@, Jv::Arr(p.time_series.map_values(|t: TimeSeriesV| time_series_jv(t)))),
        ],
    )
}

/// Decoding one element of a `TimePoints` array: it must be the text of a
/// valid RFC 3339 date-time.
pub open spec fn jv_time_point(e: Jv) -> Option<TimePoint> {
    match e {
        Jv::Str(s) => match rfc3339_parse(s) {
            Some(sn) => Some(TimePoint { secs: sn.0, nanos: sn.1 }),
            None => None,
        },
        _ => None,
    }
}

/// Decoding a whole `TimePoints` array; any bad element fails the array.
pub open spec fn jv_time_points(elems: Seq<Jv>) -> Option<Seq<TimePoint>>
    decreases elems.len(),
{
    if elems.len() == 0 {
        Some(Seq::empty())
    } else {
        match jv_time_points(elems.subrange(0, elems.len() - 1)) {
            Some(pre) => match jv_time_point(elems[elems.len() - 1]) {
                Some(t) => Some(pre.push(t)),
                None => None,
            },
            None => None,
        }
    }
}

/// Decoding one element of a `Values` array: any JSON number is accepted —
/// a numeric literal must be one serde_json itself would accept, as every
/// parsed document's literals are.
pub open spec fn jv_value(e: Jv) -> Option<Nv> {
    match e {
        Jv::Int(i) => Some(Nv::Int(i)),
        Jv::Num(s) => if json_number_text(s) {
            Some(Nv::Lit(s))
        } else {
            None
        },
        _ => None,
    }
}

/// Decoding a whole `Values` array; any bad element fails the array.
pub open spec fn jv_values(elems: Seq<Jv>) -> Option<Seq<Nv>>
    decreases elems.len(),
{
    if elems.len() == 0 {
        Some(Seq::empty())
    } else {
        match jv_values(elems.subrange(0, elems.len() - 1)) {
            Some(pre) => match jv_value(elems[elems.len() - 1]) {
                Some(n) => Some(pre.push(n)),
                None => None,
            },
            None => None,
        }
    }
}

/// Decoding a time series document: every required field present and of the
/// right shape, or nothing.
pub open spec fn jv_time_series(v: Jv) -> Option<TimeSeriesV> {
    match v {
        Jv::Obj(f) => match (obj_get(f, "Id"@), obj_get(f, "Name"@), obj_get(f, "Unit"@)) {
            (Some(Jv::Int(id)), Some(Jv::Str(name)), Some(Jv::Str(unit))) => match (
                obj_get(f, "TimePoints"@),
                obj_get(f, "Values"@),
            ) {
                (Some(Jv::Arr(tps)), Some(Jv::Arr(vals))) => match (
                    jv_time_points(tps),
                    jv_values(vals),
                ) {
                    (Some(t), Some(vs)) => Some(
                        TimeSeriesV { id, name, unit, time_points: t, values: vs },
                    ),
                    _ => None,
                },
                _ => None,
            },
            _ => None,
        },
        _ => None,
    }
}

/// Decoding a `TimeSeries` array element by element.
pub open spec fn jv_series_seq(elems: Seq<Jv>) -> Option<Seq<TimeSeriesV>>
    decreases elems.len(),
{
    if elems.len() == 0 {
        Some(Seq::empty())
    } else {
        match jv_series_seq(elems.subrange(0, elems.len() - 1)) {
            Some(pre) => match jv_time_series(elems[elems.len() - 1]) {
                Some(t) => Some(pre.push(t)),
                None => None,
            },
            None => None,
        }
    }
}

/// Decoding the `TimeSeries` field of a plot: an absent or `null` field
/// decodes to an empty list rather than failing.
pub open spec fn jv_series_list(v: Option<Jv>) -> Option<Seq<TimeSeriesV>> {
    match v {
        None => Some(Seq::empty()),
        Some(Jv::Null) => Some(Seq::empty()),
        Some(Jv::Arr(elems)) => jv_series_seq(elems),
        Some(_) => None,
    }
}

/// In a five-field object keyed `Id`, `Name`, `Unit`, `TimePoints`,
/// `Values`, each lookup lands on its own field.
proof fn lemma_ts_field_lookup(f: Seq<(Seq<char>, Jv)>)
    requires
        f.len() == 5,
        f[0].0 == "Id"@,
        f[1].0 == "Name"@,
        f[2].0 == "Unit"@,
        f[3].0 == "TimePoints"@,
        f[4].0 == "Values"@,
    ensures
        obj_get(f, "Id"@) == Some(f[0].1),
        obj_get(f, "Name"@) == Some(f[1].1),
        obj_get(f, "Unit"@) == Some(f[2].1),
        obj_get(f, "TimePoints"@) == Some(f[3].1),
        obj_get(f, "Values"@) == Some(f[4].1),
{
    reveal_strlit("Id");
    reveal_strlit("Name");
    reveal_strlit("Unit");
    reveal_strlit("TimePoints");
    reveal_strlit("Values");
    assert("Id"@.len() == 2 && "Name"@.len() == 4 && "Unit"@.len() == 4 && "TimePoints"@.len()
        == 10 && "Values"@.len() == 6);
    assert("Name"@[0] == 'N' && "Unit"@[0] == 'U');
    assert("Id"@ != "Name"@ && "Id"@ != "Unit"@ && "Id"@ != "TimePoints"@ && "Id"@ != "Values"@);
    assert("Name"@ != "Unit"@ && "Name"@ != "TimePoints"@ && "Name"@ != "Values"@);
    assert("Unit"@ != "TimePoints"@ && "Unit"@ != "Values"@);
    assert("TimePoints"@ != "Values"@);
    lemma_obj_get_hit(f, "Id"@, 0);
    lemma_obj_get_hit(f, "Name"@, 1);
    lemma_obj_get_hit(f, "Unit"@, 2);
    lemma_obj_get_hit(f, "TimePoints"@, 3);
    lemma_obj_get_hit(f, "Values"@, 4);
}

/// In a four-field object keyed `Id`, `Name`, `Description`, `TimeSeries`,
/// each lookup lands on its own field.
proof fn lemma_plot_field_lookup(f: Seq<(Seq<char>, Jv)>)
    requires
        f.len() == 4,
        f[0].0 == "Id"@,
        f[1].0 == "Name"@,
        f[2].0 == "Description"@,
        f[3].0 == "TimeSeries"@,
    ensures
        obj_get(f, "Id"@) == Some(f[0].1),
        obj_get(f, "Name"@) == Some(f[1].1),
        obj_get(f, "Description"@) == Some(f[2].1),
        obj_get(f, "TimeSeries"@) == Some(f[3].1),
{
    reveal_strlit("Id");
    reveal_strlit("Name");
    reveal_strlit("Description");
    reveal_strlit("TimeSeries");
    assert("Id"@.len() == 2 && "Name"@.len() == 4 && "Description"@.len() == 11
        && "TimeSeries"@.len() == 10);
    assert("Id"@ != "Name"@ && "Id"@ != "Description"@ && "Id"@ != "TimeSeries"@);
    assert("Name"@ != "Description"@ && "Name"@ != "TimeSeries"@);
    assert("Description"@ != "TimeSeries"@);
    lemma_obj_get_hit(f, "Id"@, 0);
    lemma_obj_get_hit(f, "Name"@, 1);
    lemma_obj_get_hit(f, "Description"@, 2);
    lemma_obj_get_hit(f, "TimeSeries"@, 3);
}

/// Encoded time points decode back to themselves, provided each lies in
/// chrono's range and its text parses back to it.
proof fn lemma_time_points_round_trip(tps: Seq<TimePoint>)
    requires
        forall|i: int|
            0 <= i < tps.len() ==> rfc3339_parse(
                rfc3339_format((#[trigger] tps[i]).secs, tps[i].nanos),
            ) == Some((tps[i].secs, tps[i].nanos)),
    ensures
        jv_time_points(time_points_jv(tps)) == Some(tps),
    decreases tps.len(),
{
    if tps.len() > 0 {
        let sub = tps.subrange(0, tps.len() - 1);
        lemma_time_points_round_trip(sub);
        assert(time_points_jv(tps).subrange(0, tps.len() - 1) =~= time_points_jv(sub));
        assert(jv_time_points(time_points_jv(tps)) == Some(sub.push(tps[tps.len() - 1])));
        assert(sub.push(tps[tps.len() - 1]) =~= tps);
    }
}

/// Encoded numeric samples decode back to themselves, provided each can
/// stand for a number on the wire.
proof fn lemma_values_round_trip(vs: Seq<Nv>)
    requires
        values_wf(vs),
    ensures
        jv_values(values_jv(vs)) == Some(vs),
    decreases vs.len(),
{
    if vs.len() > 0 {
        let sub = vs.subrange(0, vs.len() - 1);
        lemma_values_round_trip(sub);
        assert(values_jv(vs).subrange(0, vs.len() - 1) =~= values_jv(sub));
        assert(jv_values(values_jv(vs)) == Some(sub.push(vs[vs.len() - 1])));
        assert(sub.push(vs[vs.len() - 1]) =~= vs);
    }
}

/// Encoded time series decode back to themselves, element by element.
proof fn lemma_series_seq_round_trip(ss: Seq<TimeSeriesV>)
    requires
        forall|i: int|
            0 <= i < ss.len() ==> jv_time_series(time_series_jv(#[trigger] ss[i])) == Some(ss[i]),
    ensures
        jv_series_seq(ss.map_values(|t: TimeSeriesV| time_series_jv(t))) == Some(ss),
    decreases ss.len(),
{
    let enc = ss.map_values(|t: TimeSeriesV| time_series_jv(t));
    if ss.len() > 0 {
        let sub = ss.subrange(0, ss.len() - 1);
        lemma_series_seq_round_trip(sub);
        assert(enc.subrange(0, ss.len() - 1) =~= sub.map_values(|t: TimeSeriesV| time_series_jv(t)));
        assert(jv_series_seq(enc) == Some(sub.push(ss[ss.len() - 1])));
        assert(sub.push(ss[ss.len() - 1]) =~= ss);
    }
}

/// Decoding a plot document.
pub open spec fn jv_plot(v: Jv) -> Option<PlotV> {
    match v {
        Jv::Obj(f) => match (obj_get(f, "Id"@), obj_get(f, "Name"@), obj_get(f, "Description"@)) {
            (Some(Jv::Int(id)), Some(Jv::Str(name)), Some(Jv::Str(description))) => match
            jv_series_list(obj_get(f, "TimeSeries"@)) {
                Some(ss) => Some(PlotV { id, name, description, time_series: ss }),
                None => None,
            },
            _ => None,
        },
        _ => None,
    }
}

/// One bad element fails the whole `TimePoints` array.
proof fn lemma_jv_time_points_bad(s: Seq<Jv>, i: int)
    requires
        0 <= i < s.len(),
        jv_time_point(s[i]) is None,
    ensures
        jv_time_points(s) is None,
    decreases s.len(),
{
    if i < s.len() - 1 {
        lemma_jv_time_points_bad(s.subrange(0, s.len() - 1), i);
    }
}

/// One bad element fails the whole `Values` array.
proof fn lemma_jv_values_bad(s: Seq<Jv>, i: int)
    requires
        0 <= i < s.len(),
        jv_value(s[i]) is None,
    ensures
        jv_values(s) is None,
    decreases s.len(),
{
    if i < s.len() - 1 {
        lemma_jv_values_bad(s.subrange(0, s.len() - 1), i);
    }
}

/// One bad element fails the whole `TimeSeries` array.
proof fn lemma_jv_series_seq_bad(s: Seq<Jv>, i: int)
    requires
        0 <= i < s.len(),
        jv_time_series(s[i]) is None,
    ensures
        jv_series_seq(s) is None,
    decreases s.len(),
{
    if i < s.len() - 1 {
        lemma_jv_series_seq_bad(s.subrange(0, s.len() - 1), i);
    }
}

/// Decodes a `TimePoints` array.
fn decode_time_points(a: &Vec<JsonValue>) -> (r: Result<Vec<TimePoint>, ()>)
    ensures
        match r {
            Ok(tps) => jv_time_points(jv_of_seq(a@)) == Some(tps@) && times_wf(tps@),
            Err(_) => jv_time_points(jv_of_seq(a@)) is None,
        },
{
    let ghost s = jv_of_seq(a@);
    proof {
        lemma_jv_of_seq(a@);
    }
    let mut tps: Vec<TimePoint> = Vec::new();
    let mut i: usize = 0;
    while i < a.len()
        invariant
            s == jv_of_seq(a@),
            s.len() == a@.len(),
            forall|j: int| 0 <= j < a@.len() ==> s[j] == jv_of(#[trigger] a@[j]),
            0 <= i <= a@.len(),
            tps@.len() == i,
            jv_time_points(s.subrange(0, i as int)) == Some(tps@),
            times_wf(tps@),
        decreases a@.len() - i,
    {
        let ghost prefix = s.subrange(0, i as int);
        let ghost next = s.subrange(0, i + 1 as int);
        proof {
            assert(next.subrange(0, i as int) =~= prefix);
            assert(next[i as int] == s[i as int]);
        }
        match &a[i] {
            JsonValue::Str(text) => match crate::time_point::time_point_from_str(text.as_str()) {
                Ok(t) => {
                    tps.push(t);
                    proof {
                        assert(jv_time_point(s[i as int]) == Some(t));
                        assert(jv_time_points(next) == Some(tps@));
                    }
                },
                Err(_) => {
                    proof {
                        lemma_jv_time_points_bad(s, i as int);
                    }
                    return Err(());
                },
            },
            _ => {
                proof {
                    lemma_jv_time_points_bad(s, i as int);
                }
                return Err(());
            },
        }
        i = i + 1;
    }
    proof {
        assert(s.subrange(0, s.len() as int) =~= s);
    }
    Ok(tps)
}

/// Decodes a `Values` array.
fn decode_values(a: &Vec<JsonValue>) -> (r: Result<Vec<NumberVal>, ()>)
    ensures
        match r {
            Ok(vs) => jv_values(jv_of_seq(a@)) == Some(vs@.map_values(|n: NumberVal| n@))
                && values_wf(vs@.map_values(|n: NumberVal| n@)),
            Err(_) => jv_values(jv_of_seq(a@)) is None,
        },
{
    let ghost s = jv_of_seq(a@);
    proof {
        lemma_jv_of_seq(a@);
    }
    let mut vs: Vec<NumberVal> = Vec::new();
    let mut i: usize = 0;
    while i < a.len()
        invariant
            s == jv_of_seq(a@),
            s.len() == a@.len(),
            forall|j: int| 0 <= j < a@.len() ==> s[j] == jv_of(#[trigger] a@[j]),
            0 <= i <= a@.len(),
            vs@.len() == i,
            jv_values(s.subrange(0, i as int)) == Some(vs@.map_values(|n: NumberVal| n@)),
            values_wf(vs@.map_values(|n: NumberVal| n@)),
        decreases a@.len() - i,
    {
        let ghost prefix = s.subrange(0, i as int);
        let ghost next = s.subrange(0, i + 1 as int);
        let ghost before = vs@.map_values(|n: NumberVal| n@);
        proof {
            assert(next.subrange(0, i as int) =~= prefix);
            assert(next[i as int] == s[i as int]);
        }
        let n = match &a[i] {
            JsonValue::Int(x) => NumberVal::Int(*x),
            JsonValue::Num(text) => {
                if crate::json_text::check_number_text(text.as_str()) {
                    NumberVal::Lit(text.clone())
                } else {
                    proof {
                        lemma_jv_values_bad(s, i as int);
                    }
                    return Err(());
                }
            },
            _ => {
                proof {
                    lemma_jv_values_bad(s, i as int);
                }
                return Err(());
            },
        };
        proof {
            assert(jv_value(s[i as int]) == Some(n@));
        }
        vs.push(n);
        proof {
            assert(vs@.map_values(|n2: NumberVal| n2@) =~= before.push(vs@.last()@));
            assert(jv_values(next) == Some(vs@.map_values(|n2: NumberVal| n2@)));
        }
        i = i + 1;
    }
    proof {
        assert(s.subrange(0, s.len() as int) =~= s);
    }
    Ok(vs)
}

/// Decodes a time series document: fails, returning no partial value, when
/// a required field is absent or of the wrong shape.
pub fn decode_time_series(v: &JsonValue) -> (r: Result<TimeSeries, ()>)
    ensures
        match r {
            Ok(t) => jv_time_series(v@) == Some(t@) && series_wire_wf(t@),
            Err(_) => jv_time_series(v@) is None,
        },
{
    let fields: &Vec<(String, JsonValue)> = match v {
        JsonValue::Obj(f) => f,
        _ => {
            return Err(());
        },
    };
    let id: i64 = match obj_lookup(fields, &"Id".to_owned()) {
        Some(JsonValue::Int(i)) => *i,
        _ => {
            return Err(());
        },
    };
    let name: String = match obj_lookup(fields, &"Name".to_owned()) {
        Some(JsonValue::Str(s)) => s.clone(),
        _ => {
            return Err(());
        },
    };
    let unit: String = match obj_lookup(fields, &"Unit".to_owned()) {
        Some(JsonValue::Str(s)) => s.clone(),
        _ => {
            return Err(());
        },
    };
    let tp_arr: &Vec<JsonValue> = match obj_lookup(fields, &"TimePoints".to_owned()) {
        Some(JsonValue::Arr(a)) => a,
        _ => {
            return Err(());
        },
    };
    let val_arr: &Vec<JsonValue> = match obj_lookup(fields, &"Values".to_owned()) {
        Some(JsonValue::Arr(a)) => a,
        _ => {
            return Err(());
        },
    };
    let time_points = match decode_time_points(tp_arr) {
        Ok(tps) => tps,
        Err(_) => {
            return Err(());
        },
    };
    let values = match decode_values(val_arr) {
        Ok(vs) => vs,
        Err(_) => {
            return Err(());
        },
    };
    let t = TimeSeries { id, name, unit, time_points, values };
    proof {
        assert(jv_time_series(v@) matches Some(tv) && tv =~= t@);
    }
    Ok(t)
}

/// Decodes a plot document: fails, returning no partial value, when a
/// required field is absent or of the wrong shape.  An absent or `null`
/// `TimeSeries` field decodes to an empty list.
pub fn decode_plot(v: &JsonValue) -> (r: Result<Plot, ()>)
    ensures
        match r {
            Ok(p) => jv_plot(v@) == Some(p@) && plot_wire_wf(p@),
            Err(_) => jv_plot(v@) is None,
        },
{
    let fields: &Vec<(String, JsonValue)> = match v {
        JsonValue::Obj(f) => f,
        _ => {
            return Err(());
        },
    };
    let id: i64 = match obj_lookup(fields, &"Id".to_owned()) {
        Some(JsonValue::Int(i)) => *i,
        _ => {
            return Err(());
        },
    };
    let name: String = match obj_lookup(fields, &"Name".to_owned()) {
        Some(JsonValue::Str(s)) => s.clone(),
        _ => {
            return Err(());
        },
    };
    let description: String = match obj_lookup(fields, &"Description".to_owned()) {
        Some(JsonValue::Str(s)) => s.clone(),
        _ => {
            return Err(());
        },
    };
    let mut time_series: Vec<TimeSeries> = Vec::new();
    match obj_lookup(fields, &"TimeSeries".to_owned()) {
        None => {},
        Some(JsonValue::Null) => {},
        Some(JsonValue::Arr(a)) => {
            let ghost s = jv_of_seq(a@);
            proof {
                lemma_jv_of_seq(a@);
            }
            let mut k: usize = 0;
            while k < a.len()
                invariant
                    v@ is Obj,
                    obj_get(v@->Obj_0, "Id"@) == Some(Jv::Int(id as int)),
                    obj_get(v@->Obj_0, "Name"@) == Some(Jv::Str(name@)),
                    obj_get(v@->Obj_0, "Description"@) == Some(Jv::Str(description@)),
                    obj_get(v@->Obj_0, "TimeSeries"@) == Some(Jv::Arr(s)),
                    s == jv_of_seq(a@),
                    s.len() == a@.len(),
                    forall|j: int| 0 <= j < a@.len() ==> s[j] == jv_of(#[trigger] a@[j]),
                    0 <= k <= a@.len(),
                    time_series@.len() == k,
                    jv_series_seq(s.subrange(0, k as int)) == Some(
                        time_series@.map_values(|t: TimeSeries| t@),
                    ),
                    forall|j: int|
                        0 <= j < k ==> series_wire_wf((#[trigger] time_series@[j])@),
                decreases a@.len() - k,
            {
                let ghost prefix = s.subrange(0, k as int);
                let ghost next = s.subrange(0, k + 1 as int);
                let ghost before = time_series@.map_values(|t: TimeSeries| t@);
                proof {
                    assert(next.subrange(0, k as int) =~= prefix);
                    assert(next[k as int] == s[k as int]);
                }
                match decode_time_series(&a[k]) {
                    Ok(t) => {
                        time_series.push(t);
                        proof {
                            assert(time_series@.map_values(|t2: TimeSeries| t2@) =~= before.push(
                                time_series@.last()@,
                            ));
                            assert(jv_series_seq(next) == Some(
                                time_series@.map_values(|t2: TimeSeries| t2@),
                            ));
                        }
                    },
                    Err(_) => {
                        proof {
                            lemma_jv_series_seq_bad(s, k as int);
                        }
                        return Err(());
                    },
                }
                k = k + 1;
            }
            proof {
                assert(s.subrange(0, s.len() as int) =~= s);
            }
        },
        Some(_) => {
            return Err(());
        },
    }
    let p = Plot { id, name, description, time_series };
    proof {
        if p.time_series@.len() == 0 {
            assert(p@.time_series =~= Seq::<TimeSeriesV>::empty());
        }
        assert(jv_plot(v@) matches Some(pv) && pv =~= p@);
    }
    Ok(p)
}

/// Encodes a sequence of time points as their RFC 3339 texts.
fn encode_time_points(tps: &Vec<TimePoint>) -> (r: Vec<JsonValue>)
    ensures
        jv_of_seq(r@) == time_points_jv(tps@),
        times_wf(tps@) ==> jv_time_points(jv_of_seq(r@)) == Some(tps@),
{
    let mut r: Vec<JsonValue> = Vec::new();
    let mut i: usize = 0;
    while i < tps.len()
        invariant
            0 <= i <= tps@.len(),
            r@.len() == i,
            forall|j: int|
                0 <= j < i ==> jv_of(r@[j]) == Jv::Str(
                    rfc3339_format((#[trigger] tps@[j]).secs, tps@[j].nanos),
                ),
            forall|j: int|
                0 <= j < i ==> ((#[trigger] tps@[j]).wf() ==> rfc3339_parse(
                    rfc3339_format(tps@[j].secs, tps@[j].nanos),
                ) == Some((tps@[j].secs, tps@[j].nanos))),
        decreases tps@.len() - i,
    {
        let text = time_point_to_string(&tps[i]);
        r.push(JsonValue::Str(text));
        i = i + 1;
    }
    proof {
        lemma_jv_of_seq(r@);
        assert(jv_of_seq(r@) =~= time_points_jv(tps@));
        if times_wf(tps@) {
            lemma_time_points_round_trip(tps@);
        }
    }
    r
}

/// Encodes a sequence of numeric samples.
fn encode_values(vs: &Vec<NumberVal>) -> (r: Vec<JsonValue>)
    ensures
        jv_of_seq(r@) == values_jv(vs@.map_values(|n: NumberVal| n@)),
        values_wf(vs@.map_values(|n: NumberVal| n@)) ==> jv_values(jv_of_seq(r@)) == Some(
            vs@.map_values(|n: NumberVal| n@),
        ),
{
    let mut r: Vec<JsonValue> = Vec::new();
    let mut i: usize = 0;
    while i < vs.len()
        invariant
            0 <= i <= vs@.len(),
            r@.len() == i,
            forall|j: int| 0 <= j < i ==> jv_of(r@[j]) == nv_jv((#[trigger] vs@[j])@),
        decreases vs@.len() - i,
    {
        let e = match &vs[i] {
            NumberVal::Int(n) => JsonValue::Int(*n),
            NumberVal::Lit(s) => JsonValue::Num(s.clone()),
        };
        r.push(e);
        i = i + 1;
    }
    proof {
        lemma_jv_of_seq(r@);
        assert(jv_of_seq(r@) =~= values_jv(vs@.map_values(|n: NumberVal| n@)));
        if values_wf(vs@.map_values(|n: NumberVal| n@)) {
            lemma_values_round_trip(vs@.map_values(|n: NumberVal| n@));
        }
    }
    r
}

/// Encodes a time series as its canonical document.  When every time point
/// lies in chrono's range and every sample is a valid number — as they are
/// for any series built through this crate's API — decoding the document
/// yields the series back.
pub fn encode_time_series(t: &TimeSeries) -> (r: JsonValue)
    ensures
        r@ == time_series_jv(t@),
        series_wire_wf(t@) ==> jv_time_series(r@) == Some(t@),
{
    let tps = encode_time_points(&t.time_points);
    let ghost tpsv = tps@;
    let vals = encode_values(&t.values);
    let ghost valsv = vals@;
    let mut fields: Vec<(String, JsonValue)> = Vec::new();
    fields.push(("Id".to_owned(), JsonValue::Int(t.id)));
    fields.push(("Name".to_owned(), JsonValue::Str(t.name.clone())));
    fields.push(("Unit".to_owned(), JsonValue::Str(t.unit.clone())));
    fields.push(("TimePoints".to_owned(), JsonValue::Arr(tps)));
    fields.push(("Values".to_owned(), JsonValue::Arr(vals)));
    let r = JsonValue::Obj(fields);
    proof {
        let f = jv_of_fields(fields@);
        lemma_jv_of_fields(fields@);
        assert(fields@.len() == 5);
        assert(fields@[0].1 == JsonValue::Int(t.id));
        assert(f[0] == ("Id"@, Jv::Int(t@.id)));
        assert(fields@[1].1 is Str && fields@[1].1->Str_0@ == t@.name);
        assert(f[1] == ("Name"@, Jv::Str(t@.name)));
        assert(fields@[2].1 is Str && fields@[2].1->Str_0@ == t@.unit);
        assert(f[2] == ("Unit"@, Jv::Str(t@.unit)));
        assert(fields@[3].1 is Arr && fields@[3].1->Arr_0@ == tpsv);
        assert(f[3] == ("TimePoints"@, Jv::Arr(time_points_jv(t@.time_points))));
        assert(fields@[4].1 is Arr && fields@[4].1->Arr_0@ == valsv);
        assert(f[4] == ("Values"@, Jv::Arr(values_jv(t@.values))));
        assert(f =~= time_series_jv(t@)->Obj_0);
        assert(r@ == time_series_jv(t@));
        if series_wire_wf(t@) {
            lemma_ts_field_lookup(f);
            assert(jv_time_series(r@) == Some(t@)) by {
                assert(jv_time_series(r@) matches Some(tv) && tv =~= t@);
            }
        }
    }
    r
}

/// The whole plot's payload survives the wire, series by series.
pub open spec fn plot_wire_wf(p: PlotV) -> bool {
    forall|k: int| 0 <= k < p.time_series.len() ==> series_wire_wf(#[trigger] p.time_series[k])
}

/// Encodes a plot as its canonical document.  When every time point of
/// every series lies in chrono's range and every sample is a valid number —
/// as they are for any plot built through this crate's API — decoding the
/// document yields the plot back: the round-trip law.
pub fn encode_plot(p: &Plot) -> (r: JsonValue)
    ensures
        r@ == plot_jv(p@),
        plot_wire_wf(p@) ==> jv_plot(r@) == Some(p@),
{
    let mut series: Vec<JsonValue> = Vec::new();
    let mut i: usize = 0;
    while i < p.time_series.len()
        invariant
            0 <= i <= p.time_series@.len(),
            series@.len() == i,
            forall|j: int|
                0 <= j < i ==> jv_of(series@[j]) == time_series_jv((#[trigger] p.time_series@[j])@),
            forall|j: int|
                0 <= j < i ==> (series_wire_wf((#[trigger] p.time_series@[j])@)
                    ==> jv_time_series(time_series_jv(p.time_series@[j]@)) == Some(
                    p.time_series@[j]@,
                )),
        decreases p.time_series@.len() - i,
    {
        let e = encode_time_series(&p.time_series[i]);
        series.push(e);
        i = i + 1;
    }
    let ghost seriesv = series@;
    let mut fields: Vec<(String, JsonValue)> = Vec::new();
    fields.push(("Id".to_owned(), JsonValue::Int(p.id)));
    fields.push(("Name".to_owned(), JsonValue::Str(p.name.clone())));
    fields.push(("Description".to_owned(), JsonValue::Str(p.description.clone())));
    fields.push(("TimeSeries".to_owned(), JsonValue::Arr(series)));
    let r = JsonValue::Obj(fields);
    proof {
        let ssv = p@.time_series;
        lemma_jv_of_seq(series@);
        assert(jv_of_seq(series@) =~= ssv.map_values(|t: TimeSeriesV| time_series_jv(t)));
        let f = jv_of_fields(fields@);
        lemma_jv_of_fields(fields@);
        assert(fields@.len() == 4);
        assert(fields@[0].1 == JsonValue::Int(p.id));
        assert(f[0] == ("Id"@, Jv::Int(p@.id)));
        assert(fields@[1].1 is Str && fields@[1].1->Str_0@ == p@.name);
        assert(f[1] == ("Name"@, Jv::Str(p@.name)));
        assert(fields@[2].1 is Str && fields@[2].1->Str_0@ == p@.description);
        assert(f[2] == ("Description"@, Jv::Str(p@.description)));
        assert(fields@[3].1 is Arr && fields@[3].1->Arr_0@ == seriesv);
        assert(f[3] == ("TimeSeries"@, Jv::Arr(
            p@.time_series.map_values(|t: TimeSeriesV| time_series_jv(t)),
        )));
        assert(f =~= plot_jv(p@)->Obj_0);
        assert(r@ == plot_jv(p@));
        if plot_wire_wf(p@) {
            lemma_plot_field_lookup(f);
            lemma_series_seq_round_trip(ssv);
            assert(jv_plot(r@) == Some(p@)) by {
                assert(jv_plot(r@) matches Some(pv) && pv =~= p@);
            }
        }
    }
    r
}

} // verus!
