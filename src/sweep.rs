use vstd::prelude::*;

use crate::output::{choose_format, outcome_matches, path_extension, FormatError, GraphFormat};

verus! {

/// Settings for a graph sweep: one benchmark run per value of `x_values`,
/// each overriding the parameter `x_axis`, with results written to
/// `graph_results_path`.
///
/// Either the sweep is enabled and the axis, the values and the path are all
/// given, or it is disabled and none of them is.
pub struct GraphParams {
    graph: bool,
    x_axis: Option<String>,
    x_values: Option<Vec<String>>,
    x_axis_is_datagen_var: bool,
    graph_results_path: Option<String>,
}

/// One sweep point: the axis, the value it takes in this run, and whether the
/// axis is a data-generation variable rather than an executor parameter.
pub struct GraphRun {
    x_axis: String,
    x_value: String,
    x_axis_is_datagen_var: bool,
}

/// The instruction handed to the benchmark executor for one sweep point.
#[derive(Debug)]
pub enum ArgOverride {
    /// Command-line tokens: a program name, `--<axis>`, and the value.
    CliArgs(Vec<String>),
    /// A one-field object mapping the axis to the value, merged into the
    /// data-generation settings.
    Json(serde_json::Value),
}

/// A configuration that is neither complete nor empty.
#[derive(Debug, Clone, Copy, PartialEq, Eq, Structural)]
pub struct IncompleteGraphParams;

#[verifier::external_type_specification]
#[verifier::external_body]
pub struct ExJsonValue(serde_json::Value);

/// The fields of a JSON value: `None` where it is not an object, else each
/// field's name mapped to its text where its value is a string, or to `None`
/// where it is any other value.
pub uninterp spec fn json_object_fields(v: serde_json::Value) -> Option<Map<Seq<char>, Option<Seq<char>>>>;

/// Relies on `serde_json::Map::new`, `Map::insert` and `Value::Object`: the
/// object built holds exactly the one field `key`, whose value is the string
/// `value`.
#[verifier::external_body]
fn json_single_field(key: String, value: String) -> (r: serde_json::Value)
    ensures
        json_object_fields(r) == Some(map![key@ => Some(value@)]),
{
    let mut fields = serde_json::Map::new();
    fields.insert(key, serde_json::Value::String(value));
    serde_json::Value::Object(fields)
}

/// The mathematical content of an override.
pub enum OverrideView {
    Cli(Seq<Seq<char>>),
    Patch(Option<Map<Seq<char>, Option<Seq<char>>>>),
}

/// The program name placed before the overridden flag.
pub open spec fn program_name() -> Seq<char> {
    seq!['b', 'e', 'n', 'c', 'h', 'm', 'a', 'r', 'k', 's']
}

/// The long flag for an axis: `--` followed by its name.
pub open spec fn long_flag(axis: Seq<char>) -> Seq<char> {
    seq!['-', '-'] + axis
}

/// What a sweep point is encoded as.
pub open spec fn encode(axis: Seq<char>, value: Seq<char>, datagen: bool) -> OverrideView {
    if datagen {
        OverrideView::Patch(Some(map![axis => Some(value)]))
    } else {
        OverrideView::Cli(seq![program_name(), long_flag(axis), value])
    }
}

impl ArgOverride {
    pub open spec fn view(&self) -> OverrideView {
        match self {
            ArgOverride::CliArgs(v) => OverrideView::Cli(v@.map_values(|s: String| s@)),
            ArgOverride::Json(j) => OverrideView::Patch(json_object_fields(*j)),
        }
    }
}

impl GraphParams {
    /// The sweep is enabled exactly when its axis, values and output path are
    /// all given.
    pub closed spec fn wf(&self) -> bool {
        &&& self.graph == self.x_axis.is_some()
        &&& self.graph == self.x_values.is_some()
        &&& self.graph == self.graph_results_path.is_some()
    }

    pub closed spec fn enabled(&self) -> bool {
        self.graph
    }

    /// The axis, the values and the output path are all given.
    pub closed spec fn complete(&self) -> bool {
        self.x_axis is Some && self.x_values is Some && self.graph_results_path is Some
    }

    /// None of the axis, the values and the output path is given.
    pub closed spec fn absent(&self) -> bool {
        self.x_axis is None && self.x_values is None && self.graph_results_path is None
    }

    pub closed spec fn axis(&self) -> Seq<char> {
        self.x_axis.unwrap()@
    }

    pub closed spec fn values(&self) -> Seq<Seq<char>> {
        self.x_values.unwrap()@.map_values(|s: String| s@)
    }

    pub closed spec fn is_datagen(&self) -> bool {
        self.x_axis_is_datagen_var
    }

    pub closed spec fn results_path(&self) -> Seq<char> {
        self.graph_results_path.unwrap()@
    }

    /// Checks that the settings are either complete or absent together, and
    /// refuses a partial configuration.
    pub fn new(
        graph: bool,
        x_axis: Option<String>,
        x_values: Option<Vec<String>>,
        x_axis_is_datagen_var: bool,
        graph_results_path: Option<String>,
    ) -> (r: Result<GraphParams, IncompleteGraphParams>)
        ensures
            r is Ok <==> (graph == x_axis is Some && graph == x_values is Some && graph
                == graph_results_path is Some),
            r matches Ok(p) ==> {
                &&& p.wf()
                &&& p.enabled() == graph
                &&& p.is_datagen() == x_axis_is_datagen_var
                &&& graph ==> p.axis() == x_axis.unwrap()@
                &&& graph ==> p.values() == x_values.unwrap()@.map_values(|s: String| s@)
                &&& graph ==> p.results_path() == graph_results_path.unwrap()@
            },
    {
        if graph == x_axis.is_some() && graph == x_values.is_some() && graph
            == graph_results_path.is_some() {
            Ok(GraphParams { graph, x_axis, x_values, x_axis_is_datagen_var, graph_results_path })
        } else {
            Err(IncompleteGraphParams)
        }
    }

    /// Whether the sweep is enabled.
    pub fn graph(&self) -> (r: bool)
        ensures
            r == self.enabled(),
    {
        self.graph
    }

    /// Whether the axis is a data-generation variable.
    pub fn x_axis_is_datagen_var(&self) -> (r: bool)
        ensures
            r == self.is_datagen(),
    {
        self.x_axis_is_datagen_var
    }

    /// The output path of an enabled sweep.
    pub fn graph_results_path(&self) -> (r: &str)
        requires
            self.wf(),
            self.enabled(),
        ensures
            r@ == self.results_path(),
    {
        self.graph_results_path.as_ref().unwrap().as_str()
    }

    /// The format the results of an enabled sweep are written in, chosen by
    /// the extension of its output path.
    pub fn results_format(&self) -> (r: Result<GraphFormat, FormatError>)
        requires
            self.wf(),
            self.enabled(),
        ensures
            outcome_matches(r, choose_format(path_extension(self.results_path()))),
    {
        GraphFormat::from_path(self.graph_results_path())
    }

    /// The sweep points, one per value, in the order the values were given.
    pub fn runs(&self) -> (r: Vec<GraphRun>)
        requires
            self.wf(),
            self.enabled(),
        ensures
            r.len() == self.values().len(),
            forall|i: int|
                0 <= i < r.len() ==> {
                    &&& (#[trigger] r[i]).axis() == self.axis()
                    &&& r[i].value() == self.values()[i]
                    &&& r[i].is_datagen() == self.is_datagen()
                },
    {
        let x_axis = self.x_axis.as_ref().unwrap();
        let values = self.x_values.as_ref().unwrap();
        let mut out: Vec<GraphRun> = Vec::new();
        let mut i: usize = 0;
        while i < values.len()
            invariant
                i <= values.len(),
                out.len() == i,
                x_axis@ == self.axis(),
                values@.map_values(|s: String| s@) == self.values(),
                forall|j: int|
                    0 <= j < i ==> {
                        &&& (#[trigger] out[j]).axis() == self.axis()
                        &&& out[j].value() == self.values()[j]
                        &&& out[j].is_datagen() == self.is_datagen()
                    },
            decreases values.len() - i,
        {
            let run = GraphRun::new(x_axis.clone(), values[i].clone(), self.x_axis_is_datagen_var);
            out.push(run);
            i = i + 1;
        }
        out
    }
}

/// A well-formed configuration is enabled, and so admits generating its sweep,
/// exactly when all of its sweep fields are present; otherwise all of them are
/// absent and no sweep is generated.
pub proof fn lemma_enabled_iff_complete(p: GraphParams)
    requires
        p.wf(),
    ensures
        p.enabled() <==> p.complete(),
        !p.enabled() <==> p.absent(),
{
}

/// Generating the sweep twice from the same settings gives the same points:
/// as many as there are values, in their order, each with the settings' axis
/// and kind.
pub proof fn lemma_runs_follow_values(p: GraphParams, r1: Seq<GraphRun>, r2: Seq<GraphRun>)
    requires
        p.wf(),
        p.enabled(),
        r1.len() == p.values().len(),
        r2.len() == p.values().len(),
        forall|i: int|
            0 <= i < r1.len() ==> {
                &&& (#[trigger] r1[i]).axis() == p.axis()
                &&& r1[i].value() == p.values()[i]
                &&& r1[i].is_datagen() == p.is_datagen()
            },
        forall|i: int|
            0 <= i < r2.len() ==> {
                &&& (#[trigger] r2[i]).axis() == p.axis()
                &&& r2[i].value() == p.values()[i]
                &&& r2[i].is_datagen() == p.is_datagen()
            },
    ensures
        r1.len() == r2.len(),
        forall|i: int|
            0 <= i < r1.len() ==> {
                &&& (#[trigger] r1[i]).axis() == r2[i].axis()
                &&& r1[i].value() == r2[i].value()
                &&& r1[i].is_datagen() == r2[i].is_datagen()
            },
{
}

/// Encoding is a function of the sweep point alone: equal points give equal
/// overrides.
pub proof fn lemma_encode_deterministic(a: GraphRun, b: GraphRun, ra: ArgOverride, rb: ArgOverride)
    requires
        a.axis() == b.axis(),
        a.value() == b.value(),
        a.is_datagen() == b.is_datagen(),
        ra.view() == encode(a.axis(), a.value(), a.is_datagen()),
        rb.view() == encode(b.axis(), b.value(), b.is_datagen()),
    ensures
        ra.view() == rb.view(),
{
}

impl GraphRun {
    pub closed spec fn axis(&self) -> Seq<char> {
        self.x_axis@
    }

    pub closed spec fn value(&self) -> Seq<char> {
        self.x_value@
    }

    pub closed spec fn is_datagen(&self) -> bool {
        self.x_axis_is_datagen_var
    }

    /// Builds a sweep point.
    pub fn new(x_axis: String, x_value: String, x_axis_is_datagen_var: bool) -> (r: GraphRun)
        ensures
            r.axis() == x_axis@,
            r.value() == x_value@,
            r.is_datagen() == x_axis_is_datagen_var,
    {
        GraphRun { x_axis, x_value, x_axis_is_datagen_var }
    }

    /// The override that applies this sweep point to a benchmark run.
    pub fn as_args(&self) -> (r: ArgOverride)
        ensures
            r.view() == encode(self.axis(), self.value(), self.is_datagen()),
    {
        if self.x_axis_is_datagen_var {
            ArgOverride::Json(json_single_field(self.x_axis.clone(), self.x_value.clone()))
        } else {
            let flag = String::from_str("--").concat(self.x_axis.as_str());
            let args = vec![String::from_str("benchmarks"), flag, self.x_value.clone()];
            proof {
                reveal_strlit("--");
                reveal_strlit("benchmarks");
                assert(flag@ =~= long_flag(self.axis()));
                assert(args[1]@ == flag@);
                assert(args[0]@ =~= program_name());
                assert(args@.map_values(|s: String| s@) =~= seq![
                    program_name(),
                    long_flag(self.axis()),
                    self.value(),
                ]);
            }
            ArgOverride::CliArgs(args)
        }
    }

    /// The value of the axis in this sweep point.
    pub fn x_value(&self) -> (r: &str)
        ensures
            r@ == self.value(),
    {
        self.x_value.as_str()
    }
}

} // verus!
