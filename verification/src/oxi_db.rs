use vstd::prelude::*;
use vstd::string::StringExecFns;
use vstd::utf8::encode_utf8;
use vstd::utf8::valid_utf8;

use oxigraph::io::RdfFormat;
use oxigraph::model::Term;
use oxigraph::sparql::EvaluationError;
use oxigraph::sparql::QueryResults;
use oxigraph::sparql::QuerySolution;
use oxigraph::store::LoaderError;
use oxigraph::store::StorageError;
use oxigraph::store::Store;

use crate::text::occurs_in;
use crate::text::replace_all;
use crate::text::replaced_absent;
use crate::text::replaced;
use crate::text::same_text;

verus! {

#[verifier::external_type_specification]
#[verifier::external_body]
pub struct ExStore(Store);

#[verifier::external_type_specification]
#[verifier::external_body]
pub struct ExQueryResults(QueryResults);

#[verifier::external_type_specification]
#[verifier::external_body]
pub struct ExQuerySolution(QuerySolution);

#[verifier::external_type_specification]
#[verifier::external_body]
pub struct ExEvaluationError(EvaluationError);

#[verifier::external_type_specification]
#[verifier::external_body]
pub struct ExLoaderError(LoaderError);

#[verifier::external_type_specification]
#[verifier::external_body]
pub struct ExStorageError(StorageError);

/// Selects every event with its start and end, the two properties standing
/// for the placeholders.
pub const SELECT_EVENTS: &'static str = "PREFIX time: <http://www.w3.org/2006/time#>
PREFIX baseUrl: <http://example.data/event/>
SELECT ?e1 ?st1 ?end1 WHERE {  ?e1 _START_DATE_PLACEHOLDER_ ?st1 ; _END_DATE_PLACEHOLDER_ ?end1 .}";

/// Builds, for one event `?e1` with start `_ST1_PLACEHOLDER_` and end
/// `_END1_PLACEHOLDER_`, the triples `?e1 time:intervalX ?e2` that relate it to
/// every other event `?e2`: overlaps, contains, meets, or lies in.
pub const CONSTRUCT_ALL_FOR_GIVEN_EVENT: &'static str = "PREFIX xsd: <http://www.w3.org/2001/XMLSchema#>
PREFIX time: <http://www.w3.org/2006/time#>
PREFIX baseUrl: <http://example.data/event/>
CONSTRUCT {?e1 ?timeInterval ?e2.}
WHERE {
    ?e2 _START_DATE_PLACEHOLDER_ ?st2 ;
        _END_DATE_PLACEHOLDER_ ?end2 . 
  BIND(_E1_PLACEHOLDER_  AS ?e1)
  FILTER(?e1 != ?e2)
  BIND(IF(_ST1_PLACEHOLDER_ < ?st2 && _END1_PLACEHOLDER_ > ?st2 && _END1_PLACEHOLDER_ < ?end2, time:intervalOverlaps, 
      \tIF(_ST1_PLACEHOLDER_ < ?st2 && _END1_PLACEHOLDER_ > ?end2, time:intervalContains, 
        IF(_END1_PLACEHOLDER_ = ?st2, time:intervalMeets, 
        IF(_ST1_PLACEHOLDER_ >= ?st2 && _END1_PLACEHOLDER_ <= ?end2 && !(_ST1_PLACEHOLDER_ = ?st2 && _END1_PLACEHOLDER_ = ?end2), time:intervalIn, -1 )))) AS ?timeInterval)
  FILTER(?timeInterval != -1)
} LIMIT 100000";

/// An RDF literal: its lexical value and the IRI of its datatype.
#[derive(Clone, Debug, PartialEq, Eq)]
pub struct RdfLiteral {
    pub value: String,
    pub datatype: String,
}

/// The value bound to a variable of a query solution.
#[derive(Clone, Debug, PartialEq, Eq)]
pub enum TermValue {
    /// An IRI.
    NamedNode(String),
    /// A literal.
    Literal(RdfLiteral),
    /// A blank node or a quoted triple.
    Other,
}

/// One variable of a query solution and its value.
#[derive(Clone, Debug, PartialEq, Eq)]
pub struct Binding {
    pub variable: String,
    pub value: TermValue,
}

/// An event as the event query finds it.
#[derive(Clone, Debug, PartialEq, Eq)]
pub struct EventRecord {
    pub iri: String,
    pub start_time: RdfLiteral,
    pub end_time: RdfLiteral,
}

/// The three variables of the event query.
#[derive(Clone, Copy, Debug, PartialEq, Eq)]
pub enum EventVariable {
    /// `?e1`
    Event,
    /// `?st1`
    StartTime,
    /// `?end1`
    EndTime,
}

/// Why the interval relations of a graph could not be computed.
#[derive(Debug)]
pub enum ProcessError {
    /// The start property name is empty.
    EmptyStartProperty,
    /// The end property name is empty.
    EmptyEndProperty,
    /// The store could not be created or cleared.
    Storage(StorageError),
    /// The data is not a Turtle document that the store accepts.
    Load(LoaderError),
    /// A query could not be evaluated or its graph not be written.
    Evaluation(EvaluationError),
    /// A solution of the event query does not bind this variable.
    MissingVariable(EventVariable),
    /// `?e1` is bound to something other than an IRI.
    NamedNodeExpected,
    /// `?st1` or `?end1` is bound to something other than a literal.
    LiteralExpected,
    /// The written graph is not UTF-8.
    InvalidUtf8,
}

/// The value of the first binding of `name` in a solution.
pub open spec fn binding_of(solution: Seq<Binding>, name: Seq<char>) -> Option<TermValue>
    decreases solution.len(),
{
    if solution.len() == 0 {
        None
    } else if solution[0].variable@ == name {
        Some(solution[0].value)
    } else {
        binding_of(solution.drop_first(), name)
    }
}

/// The event that a solution of the event query describes: `?e1` must be an
/// IRI, `?st1` and `?end1` literals, checked in that order.
pub open spec fn solution_event(solution: Seq<Binding>) -> Result<EventRecord, ProcessError> {
    match binding_of(solution, "e1"@) {
        None => Err(ProcessError::MissingVariable(EventVariable::Event)),
        Some(TermValue::NamedNode(iri)) => match binding_of(solution, "st1"@) {
            None => Err(ProcessError::MissingVariable(EventVariable::StartTime)),
            Some(TermValue::Literal(start)) => match binding_of(solution, "end1"@) {
                None => Err(ProcessError::MissingVariable(EventVariable::EndTime)),
                Some(TermValue::Literal(end)) => Ok(
                    EventRecord { iri: iri, start_time: start, end_time: end },
                ),
                Some(_) => Err(ProcessError::LiteralExpected),
            },
            Some(_) => Err(ProcessError::LiteralExpected),
        },
        Some(_) => Err(ProcessError::NamedNodeExpected),
    }
}

/// Where `name` is first bound in a solution.
fn find_binding(solution: &Vec<Binding>, name: &str) -> (found: Option<usize>)
    ensures
        match found {
            Some(k) => k < solution@.len() && binding_of(solution@, name@) == Some(
                solution@[k as int].value,
            ),
            None => binding_of(solution@, name@) is None,
        },
{
    let n = solution.len();
    assert(solution@.skip(0) =~= solution@);
    for k in 0..n
        invariant
            n == solution@.len(),
            binding_of(solution@.skip(k as int), name@) == binding_of(solution@, name@),
    {
        assert(solution@.skip(k as int).drop_first() =~= solution@.skip(k + 1));
        if same_text(solution[k].variable.as_str(), name) {
            return Some(k);
        }
    }
    assert(solution@.skip(n as int) =~= Seq::<Binding>::empty());
    None
}

/// A copy of a literal.
fn copy_literal(literal: &RdfLiteral) -> (copy: RdfLiteral)
    ensures
        copy == *literal,
{
    RdfLiteral { value: literal.value.clone(), datatype: literal.datatype.clone() }
}

/// The event described by a solution of the event query.
pub fn event_from_solution(solution: &Vec<Binding>) -> (res: Result<EventRecord, ProcessError>)
    ensures
        res == solution_event(solution@),
        res matches Ok(event) ==> {
            &&& binding_of(solution@, "e1"@) == Some(TermValue::NamedNode(event.iri))
            &&& binding_of(solution@, "st1"@) == Some(TermValue::Literal(event.start_time))
            &&& binding_of(solution@, "end1"@) == Some(TermValue::Literal(event.end_time))
        },
{
    let iri = match find_binding(solution, "e1") {
        None => return Err(ProcessError::MissingVariable(EventVariable::Event)),
        Some(k) => match &solution[k].value {
            TermValue::NamedNode(iri) => iri.clone(),
            _ => return Err(ProcessError::NamedNodeExpected),
        },
    };
    let start_time = match find_binding(solution, "st1") {
        None => return Err(ProcessError::MissingVariable(EventVariable::StartTime)),
        Some(k) => match &solution[k].value {
            TermValue::Literal(literal) => copy_literal(literal),
            _ => return Err(ProcessError::LiteralExpected),
        },
    };
    let end_time = match find_binding(solution, "end1") {
        None => return Err(ProcessError::MissingVariable(EventVariable::EndTime)),
        Some(k) => match &solution[k].value {
            TermValue::Literal(literal) => copy_literal(literal),
            _ => return Err(ProcessError::LiteralExpected),
        },
    };
    let event = EventRecord { iri, start_time, end_time };
    proof {
        solution_event_reads_its_bindings(solution@);
    }
    Ok(event)
}


/// A query with its property placeholders filled in.
pub open spec fn placeholders_replaced(
    query: Seq<char>,
    start_date_prop_name: Seq<char>,
    end_date_prop_name: Seq<char>,
) -> Seq<char> {
    replaced(
        replaced(query, "_START_DATE_PLACEHOLDER_"@, start_date_prop_name),
        "_END_DATE_PLACEHOLDER_"@,
        end_date_prop_name,
    )
}

/// Puts the start and end property names in place of their placeholders.
pub fn replace_placeholders(
    query: &str,
    start_date_prop_name: &str,
    end_date_prop_name: &str,
) -> (res: String)
    ensures
        res@ == placeholders_replaced(query@, start_date_prop_name@, end_date_prop_name@),
{
    proof {
        reveal_strlit("_START_DATE_PLACEHOLDER_");
        reveal_strlit("_END_DATE_PLACEHOLDER_");
    }
    let with_start = replace_all(query, "_START_DATE_PLACEHOLDER_", start_date_prop_name);
    replace_all(with_start.as_str(), "_END_DATE_PLACEHOLDER_", end_date_prop_name)
}

/// A literal written in SPARQL: `"value"^^<datatype>`.
pub open spec fn literal_text(literal: RdfLiteral) -> Seq<char> {
    "\""@ + literal.value@ + "\"^^<"@ + literal.datatype@ + ">"@
}

/// The query that relates one event to all others.
pub open spec fn event_query_text(
    event_iri: Seq<char>,
    start_time: RdfLiteral,
    end_time: RdfLiteral,
    start_date_prop_name: Seq<char>,
    end_date_prop_name: Seq<char>,
) -> Seq<char> {
    replaced(
        replaced(
            replaced(
                placeholders_replaced(
                    CONSTRUCT_ALL_FOR_GIVEN_EVENT@,
                    start_date_prop_name,
                    end_date_prop_name,
                ),
                "_ST1_PLACEHOLDER_"@,
                literal_text(start_time),
            ),
            "_END1_PLACEHOLDER_"@,
            literal_text(end_time),
        ),
        "_E1_PLACEHOLDER_"@,
        "<"@ + event_iri + ">"@,
    )
}

/// The SPARQL text of a literal.
fn write_literal(literal: &RdfLiteral) -> (text: String)
    ensures
        text@ == literal_text(*literal),
{
    let mut text = String::new();
    text.append("\"");
    text.append(literal.value.as_str());
    text.append("\"^^<");
    text.append(literal.datatype.as_str());
    text.append(">");
    text
}

/// The CONSTRUCT query that relates the given event to every other event.
pub fn event_query(
    event_iri: &str,
    start_time: &RdfLiteral,
    end_time: &RdfLiteral,
    start_date_prop_name: &str,
    end_date_prop_name: &str,
) -> (query: String)
    ensures
        query@ == event_query_text(
            event_iri@,
            *start_time,
            *end_time,
            start_date_prop_name@,
            end_date_prop_name@,
        ),
        query@ == replaced(
            replaced(
                replaced(
                    replaced(
                        replaced(
                            CONSTRUCT_ALL_FOR_GIVEN_EVENT@,
                            "_START_DATE_PLACEHOLDER_"@,
                            start_date_prop_name@,
                        ),
                        "_END_DATE_PLACEHOLDER_"@,
                        end_date_prop_name@,
                    ),
                    "_ST1_PLACEHOLDER_"@,
                    "\""@ + start_time.value@ + "\"^^<"@ + start_time.datatype@ + ">"@,
                ),
                "_END1_PLACEHOLDER_"@,
                "\""@ + end_time.value@ + "\"^^<"@ + end_time.datatype@ + ">"@,
            ),
            "_E1_PLACEHOLDER_"@,
            "<"@ + event_iri@ + ">"@,
        ),
{
    proof {
        event_query_places_each_argument(
            event_iri@,
            *start_time,
            *end_time,
            start_date_prop_name@,
            end_date_prop_name@,
        );
        reveal_strlit("_ST1_PLACEHOLDER_");
        reveal_strlit("_END1_PLACEHOLDER_");
        reveal_strlit("_E1_PLACEHOLDER_");
    }
    let start_text = write_literal(start_time);
    let end_text = write_literal(end_time);
    let mut event_text = String::new();
    event_text.append("<");
    event_text.append(event_iri);
    event_text.append(">");
    let query = replace_placeholders(
        CONSTRUCT_ALL_FOR_GIVEN_EVENT,
        start_date_prop_name,
        end_date_prop_name,
    );
    let query = replace_all(query.as_str(), "_ST1_PLACEHOLDER_", start_text.as_str());
    let query = replace_all(query.as_str(), "_END1_PLACEHOLDER_", end_text.as_str());
    replace_all(query.as_str(), "_E1_PLACEHOLDER_", event_text.as_str())
}

/// `oxigraph::store::Store::new`: a new, empty, in-memory store. Claimed: it
/// succeeds (the in-memory storage it builds never fails to be made).
#[verifier::external_body]
fn new_store() -> (res: Result<Store, StorageError>)
    ensures
        res is Ok,
{
    Store::new()
}

/// Whether oxigraph's Turtle parser (`RdfParser` for `RdfFormat::Turtle`,
/// without base IRI) reads all of `data` without error.
pub uninterp spec fn turtle_parses(data: Seq<u8>) -> bool;

/// `Store::load_from_reader`: parses `data` as Turtle and adds its triples
/// to the default graph of the store. Claimed: data that the parser refuses
/// gives an error (all of it is parsed before anything is inserted). Nothing
/// more is stated: the store is opaque, and blank nodes get fresh random
/// names.
#[verifier::external_body]
fn load_turtle(store: &Store, data: &[u8]) -> (res: Result<(), LoaderError>)
    ensures
        !turtle_parses(data@) ==> res is Err,
{
    store.load_from_reader(RdfFormat::Turtle, data)
}

/// `Store::query`: evaluates a SPARQL query on the store. Nothing is stated:
/// the answer depends on what the store holds.
#[verifier::external_body]
fn run_query(store: &Store, query: &str) -> (res: Result<QueryResults, EvaluationError>) {
    store.query(query)
}

/// Iterates the `QueryResults::Solutions` of a result (the iterator's
/// `next`): the solutions before the first error, and that error if one
/// came; `None` for the other kinds of results. Nothing is stated of the
/// solutions.
#[verifier::external_body]
fn collect_solutions(results: QueryResults) -> (res: Option<
    (Vec<QuerySolution>, Option<EvaluationError>),
>) {
    let QueryResults::Solutions(solutions) = results else { return None };
    let mut found = Vec::new();
    for solution in solutions {
        match solution {
            Ok(s) => found.push(s),
            Err(e) => return Some((found, Some(e))),
        }
    }
    Some((found, None))
}

/// `QuerySolution::iter`: the bound variables of a solution with their
/// values, each term taken apart into plain values (`NamedNode::as_str`,
/// `Literal::value`, `Literal::datatype`). Nothing is stated: the solution
/// is opaque.
#[verifier::external_body]
fn solution_bindings(solution: &QuerySolution) -> (bindings: Vec<Binding>) {
    let mut bindings = Vec::new();
    for (variable, term) in solution.iter() {
        let value = match term {
            Term::NamedNode(node) => TermValue::NamedNode(node.as_str().to_string()),
            Term::Literal(literal) => TermValue::Literal(RdfLiteral {
                value: literal.value().to_string(),
                datatype: literal.datatype().as_str().to_string(),
            }),
            _ => TermValue::Other,
        };
        bindings.push(Binding { variable: variable.as_str().to_string(), value });
    }
    bindings
}

/// `QueryResults::write_graph` into a new buffer, in Turtle. Nothing is
/// stated of the bytes: they depend on the store.
#[verifier::external_body]
fn write_turtle(results: QueryResults) -> (res: Result<Vec<u8>, EvaluationError>) {
    results.write_graph(Vec::new(), RdfFormat::Turtle)
}

/// `Store::clear`: removes everything from the store. Nothing is stated.
#[verifier::external_body]
fn clear_store(store: &Store) -> (res: Result<(), StorageError>) {
    store.clear()
}

/// `String::from_utf8`. Claimed, as its documentation says: it succeeds
/// exactly on valid UTF-8, and the string then has exactly those bytes.
#[verifier::external_body]
fn utf8_string(bytes: Vec<u8>) -> (res: Option<String>)
    ensures
        res is Some <==> valid_utf8(bytes@),
        res matches Some(text) ==> encode_utf8(text@) == bytes@,
{
    String::from_utf8(bytes).ok()
}

/// The text of a written graph.
pub fn graph_text(bytes: Vec<u8>) -> (res: Result<String, ProcessError>)
    ensures
        res is Ok <==> valid_utf8(bytes@),
        res matches Ok(text) ==> encode_utf8(text@) == bytes@,
        res matches Err(e) ==> e is InvalidUtf8,
{
    match utf8_string(bytes) {
        Some(text) => Ok(text),
        None => Err(ProcessError::InvalidUtf8),
    }
}

/// `text` is what the store gives for `query`, written as Turtle: the store
/// answered the query, the answer was written out, and `text` is those bytes
/// read as UTF-8.
pub closed spec fn query_graph_text(store: &Store, query: &str, text: Seq<char>) -> bool {
    exists|results: QueryResults, bytes: Vec<u8>|
        {
            &&& call_ensures(run_query, (store, query), Ok::<QueryResults, EvaluationError>(results))
            &&& #[trigger] call_ensures(write_turtle, (results,), Ok::<Vec<u8>, EvaluationError>(bytes))
            &&& encode_utf8(text) == bytes@
        }
}

/// Runs the query `event_query` builds for the event on the store and
/// returns the resulting graph as Turtle.
pub fn check_event(
    store: &Store,
    event_iri: &str,
    start_time: &RdfLiteral,
    end_time: &RdfLiteral,
    start_date_prop_name: &str,
    end_date_prop_name: &str,
) -> (res: Result<String, ProcessError>)
    ensures
        res matches Err(e) ==> (e is Evaluation || e is InvalidUtf8),
        res matches Ok(text) ==> exists|query: &str|
            {
                &&& query@ == event_query_text(
                    event_iri@,
                    *start_time,
                    *end_time,
                    start_date_prop_name@,
                    end_date_prop_name@,
                )
                &&& #[trigger] query_graph_text(store, query, text@)
            },
{
    let query = event_query(
        event_iri,
        start_time,
        end_time,
        start_date_prop_name,
        end_date_prop_name,
    );
    let text = query.as_str();
    let answer = run_query(store, text);
    proof {
        assert(call_ensures(run_query, (store, text), answer));
    }
    let results = match answer {
        Ok(results) => results,
        Err(e) => return Err(ProcessError::Evaluation(e)),
    };
    let ghost answered = results;
    let written = write_turtle(results);
    proof {
        assert(call_ensures(write_turtle, (answered,), written));
    }
    let bytes = match written {
        Ok(bytes) => bytes,
        Err(e) => return Err(ProcessError::Evaluation(e)),
    };
    let ghost written_bytes = bytes@;
    let res = graph_text(bytes);
    proof {
        if res is Ok {
            let graph = res->Ok_0;
            assert(encode_utf8(graph@) == written_bytes);
            assert(query_graph_text(store, text, graph@));
        }
    }
    res
}

/// The texts, one after the other.
pub open spec fn joined(texts: Seq<Seq<char>>) -> Seq<char>
    decreases texts.len(),
{
    if texts.len() == 0 {
        Seq::empty()
    } else {
        joined(texts.drop_last()) + texts.last()
    }
}

/// The solutions before position `k` all describe events.
pub open spec fn events_before(solutions: Seq<Vec<Binding>>, k: int) -> bool {
    forall|j: int| 0 <= j < k ==> #[trigger] solution_event(solutions[j]@) is Ok
}

/// `graph` is a text that `check_event` can give for `event`: an outcome of
/// its query on the store.
pub open spec fn event_graph(
    store: &Store,
    event: EventRecord,
    start_date_prop_name: &str,
    end_date_prop_name: &str,
    graph: String,
) -> bool {
    exists|iri: &str|
        iri@ == event.iri@ && call_ensures(
            check_event,
            (store, iri, &event.start_time, &event.end_time, start_date_prop_name, end_date_prop_name),
            Ok::<String, ProcessError>(graph),
        )
}

/// The texts of the graphs.
pub open spec fn graph_texts(graphs: Seq<String>) -> Seq<Seq<char>> {
    graphs.map_values(|g: String| g@)
}

/// Every solution describes an event, and `graphs` holds, solution by
/// solution, a text that `check_event` gives for its event.
pub open spec fn events_related(
    store: &Store,
    solutions: Seq<Vec<Binding>>,
    start_date_prop_name: &str,
    end_date_prop_name: &str,
    graphs: Seq<String>,
) -> bool {
    &&& graphs.len() == solutions.len()
    &&& events_before(solutions, solutions.len() as int)
    &&& forall|k: int|
        0 <= k < graphs.len() ==> event_graph(
            store,
            solution_event(solutions[k]@)->Ok_0,
            start_date_prop_name,
            end_date_prop_name,
            #[trigger] graphs[k],
        )
}

/// Relates, in order, the event of every solution to the other events of
/// the store, and joins the graphs: the `k`th piece of the report is what
/// `check_event` gave for the event of the `k`th solution. The first
/// solution that does not describe an event, or the first event query that
/// fails, ends the run with its error; no relations are returned then.
pub fn relate_events(
    store: &Store,
    solutions: &Vec<Vec<Binding>>,
    start_date_prop_name: &str,
    end_date_prop_name: &str,
) -> (res: Result<String, ProcessError>)
    ensures
        res is Ok ==> events_before(solutions@, solutions@.len() as int),
        res matches Ok(report) ==> exists|graphs: Seq<String>|
            #[trigger] events_related(
                store,
                solutions@,
                start_date_prop_name,
                end_date_prop_name,
                graphs,
            ) && report@ == joined(graph_texts(graphs)),
        res matches Err(e) ==> exists|k: int|
            {
                &&& 0 <= k < solutions@.len()
                &&& events_before(solutions@, k)
                &&& (solution_event(#[trigger] solutions@[k]@) == Err::<EventRecord, ProcessError>(e)
                    || (solution_event(solutions@[k]@) is Ok && (e is Evaluation
                    || e is InvalidUtf8)))
            },
{
    let mut report = String::new();
    let ghost mut graphs: Seq<String> = Seq::empty();
    let n = solutions.len();
    for k in 0..n
        invariant
            n == solutions@.len(),
            graphs.len() == k,
            events_before(solutions@, k as int),
            report@ == joined(graph_texts(graphs)),
            forall|j: int|
                0 <= j < graphs.len() ==> event_graph(
                    store,
                    solution_event(solutions@[j]@)->Ok_0,
                    start_date_prop_name,
                    end_date_prop_name,
                    #[trigger] graphs[j],
                ),
    {
        let event = match event_from_solution(&solutions[k]) {
            Ok(event) => event,
            Err(e) => {
                assert(solution_event(solutions@[k as int]@) == Err::<EventRecord, ProcessError>(e));
                return Err(e);
            },
        };
        let iri = event.iri.as_str();
        let outcome = check_event(
            store,
            iri,
            &event.start_time,
            &event.end_time,
            start_date_prop_name,
            end_date_prop_name,
        );
        proof {
            assert(call_ensures(
                check_event,
                (store, iri, &event.start_time, &event.end_time, start_date_prop_name, end_date_prop_name),
                outcome,
            ));
        }
        let graph = match outcome {
            Ok(graph) => graph,
            Err(e) => {
                assert(solution_event(solutions@[k as int]@) is Ok);
                return Err(e);
            },
        };
        report.append(graph.as_str());
        proof {
            let previous = graphs;
            graphs = graphs.push(graph);
            assert(graph_texts(graphs).drop_last() =~= graph_texts(previous));
            assert(graphs[k as int] == graph);
            assert(event_graph(
                store,
                solution_event(solutions@[k as int]@)->Ok_0,
                start_date_prop_name,
                end_date_prop_name,
                graph,
            ));
        }
    }
    assert(events_related(store, solutions@, start_date_prop_name, end_date_prop_name, graphs));
    Ok(report)
}

/// Loads the Turtle `data` into a new in-memory store, finds every event
/// (a subject with both a start and an end property) and returns, one event
/// after the other, the Turtle graphs of its interval relations to the other
/// events. A subject that is not an IRI, or a start or end that is not a
/// literal, fails the whole call.
pub fn process_data(
    data: &[u8],
    start_date_prop_name: &str,
    end_date_prop_name: &str,
) -> (res: Result<String, ProcessError>)
    ensures
        start_date_prop_name@.len() == 0 ==> res == Err::<String, ProcessError>(
            ProcessError::EmptyStartProperty,
        ),
        start_date_prop_name@.len() > 0 && end_date_prop_name@.len() == 0 ==> res == Err::<
            String,
            ProcessError,
        >(ProcessError::EmptyEndProperty),
        res matches Err(ProcessError::EmptyStartProperty) ==> start_date_prop_name@.len() == 0,
        res matches Err(ProcessError::EmptyEndProperty) ==> start_date_prop_name@.len() > 0
            && end_date_prop_name@.len() == 0,
        start_date_prop_name@.len() > 0 && end_date_prop_name@.len() > 0 && !turtle_parses(data@)
            ==> res matches Err(ProcessError::Load(_)),
        res matches Ok(report) ==> exists|
            store: Store,
            solutions: Seq<Vec<Binding>>,
            graphs: Seq<String>,
        |
            #[trigger] events_related(
                &store,
                solutions,
                start_date_prop_name,
                end_date_prop_name,
                graphs,
            ) && report@ == joined(graph_texts(graphs)),
{
    if start_date_prop_name.is_empty() {
        return Err(ProcessError::EmptyStartProperty);
    }
    if end_date_prop_name.is_empty() {
        return Err(ProcessError::EmptyEndProperty);
    }
    let store = match new_store() {
        Ok(store) => store,
        Err(e) => return Err(ProcessError::Storage(e)),
    };
    match load_turtle(&store, data) {
        Ok(()) => {},
        Err(e) => return Err(ProcessError::Load(e)),
    }
    let select = replace_placeholders(SELECT_EVENTS, start_date_prop_name, end_date_prop_name);
    let results = match run_query(&store, select.as_str()) {
        Ok(results) => results,
        Err(e) => return Err(ProcessError::Evaluation(e)),
    };
    let (found, pending) = match collect_solutions(results) {
        Some(answer) => answer,
        None => (Vec::new(), None),
    };
    let mut solutions: Vec<Vec<Binding>> = Vec::new();
    for k in 0..found.len()
        invariant
            solutions@.len() == k,
    {
        solutions.push(solution_bindings(&found[k]));
    }
    let report = match relate_events(&store, &solutions, start_date_prop_name, end_date_prop_name) {
        Ok(report) => report,
        Err(e) => return Err(e),
    };
    if let Some(e) = pending {
        return Err(ProcessError::Evaluation(e));
    }
    match clear_store(&store) {
        Ok(()) => {},
        Err(e) => return Err(ProcessError::Storage(e)),
    }
    Ok(report)
}


/// A query that holds neither property placeholder is left as it is.
pub proof fn query_without_placeholders_unchanged(
    query: Seq<char>,
    start_date_prop_name: Seq<char>,
    end_date_prop_name: Seq<char>,
)
    requires
        !occurs_in("_START_DATE_PLACEHOLDER_"@, query),
        !occurs_in("_END_DATE_PLACEHOLDER_"@, query),
    ensures
        placeholders_replaced(query, start_date_prop_name, end_date_prop_name) == query,
{
    replaced_absent(query, "_START_DATE_PLACEHOLDER_"@, start_date_prop_name);
    replaced_absent(query, "_END_DATE_PLACEHOLDER_"@, end_date_prop_name);
}


/// The first binding of a name is a binding of that name in the solution,
/// and no earlier binding has that name; a name that is not bound has none.
pub proof fn binding_of_is_the_first_binding(solution: Seq<Binding>, name: Seq<char>)
    ensures
        binding_of(solution, name) matches Some(v) ==> exists|k: int|
            {
                &&& 0 <= k < solution.len()
                &&& #[trigger] solution[k].variable@ == name
                &&& solution[k].value == v
                &&& forall|j: int| 0 <= j < k ==> solution[j].variable@ != name
            },
        binding_of(solution, name) is None ==> forall|k: int|
            0 <= k < solution.len() ==> #[trigger] solution[k].variable@ != name,
    decreases solution.len(),
{
    if solution.len() > 0 && solution[0].variable@ != name {
        let rest = solution.drop_first();
        binding_of_is_the_first_binding(rest, name);
        if let Some(v) = binding_of(solution, name) {
            let k = choose|k: int|
                {
                    &&& 0 <= k < rest.len()
                    &&& #[trigger] rest[k].variable@ == name
                    &&& rest[k].value == v
                    &&& forall|j: int| 0 <= j < k ==> rest[j].variable@ != name
                };
            assert(solution[k + 1] == rest[k]);
            assert forall|j: int| 0 <= j < k + 1 implies solution[j].variable@ != name by {
                if j > 0 {
                    assert(solution[j] == rest[j - 1]);
                }
            }
        } else {
            assert forall|k: int| 0 <= k < solution.len() implies #[trigger] solution[k].variable@
                != name by {
                if k > 0 {
                    assert(solution[k] == rest[k - 1]);
                }
            }
        }
    }
}

/// An event is read off its own bindings: its IRI is the IRI bound to `?e1`,
/// its start exactly the literal bound to `?st1` and its end exactly the
/// literal bound to `?end1`; and a solution whose three bindings have these
/// kinds always describes an event.
pub proof fn solution_event_reads_its_bindings(solution: Seq<Binding>)
    ensures
        solution_event(solution) matches Ok(event) ==> {
            &&& binding_of(solution, "e1"@) == Some(TermValue::NamedNode(event.iri))
            &&& binding_of(solution, "st1"@) == Some(TermValue::Literal(event.start_time))
            &&& binding_of(solution, "end1"@) == Some(TermValue::Literal(event.end_time))
        },
        binding_of(solution, "e1"@) matches Some(TermValue::NamedNode(iri)) ==> (binding_of(
            solution,
            "st1"@,
        ) matches Some(TermValue::Literal(start)) ==> (binding_of(solution, "end1"@) matches Some(
            TermValue::Literal(end),
        ) ==> solution_event(solution) == Ok::<EventRecord, ProcessError>(
            EventRecord { iri: iri, start_time: start, end_time: end },
        ))),
{
}

/// The literal text of a literal is built from its own value and datatype.
pub proof fn literal_text_of_its_parts(literal: RdfLiteral)
    ensures
        literal_text(literal) == "\""@ + literal.value@ + "\"^^<"@ + literal.datatype@ + ">"@,
{
}

/// The event query is the template with each placeholder replaced, as
/// `str::replace` does, by the text of its own argument: the property names,
/// the start literal, the end literal and the event IRI.
pub proof fn event_query_places_each_argument(
    event_iri: Seq<char>,
    start_time: RdfLiteral,
    end_time: RdfLiteral,
    start_date_prop_name: Seq<char>,
    end_date_prop_name: Seq<char>,
)
    ensures
        event_query_text(event_iri, start_time, end_time, start_date_prop_name, end_date_prop_name)
            == replaced(
            replaced(
                replaced(
                    replaced(
                        replaced(
                            CONSTRUCT_ALL_FOR_GIVEN_EVENT@,
                            "_START_DATE_PLACEHOLDER_"@,
                            start_date_prop_name,
                        ),
                        "_END_DATE_PLACEHOLDER_"@,
                        end_date_prop_name,
                    ),
                    "_ST1_PLACEHOLDER_"@,
                    "\""@ + start_time.value@ + "\"^^<"@ + start_time.datatype@ + ">"@,
                ),
                "_END1_PLACEHOLDER_"@,
                "\""@ + end_time.value@ + "\"^^<"@ + end_time.datatype@ + ">"@,
            ),
            "_E1_PLACEHOLDER_"@,
            "<"@ + event_iri + ">"@,
        ),
{
}

/// Whatever `check_event` returns as a graph is the Turtle that the store
/// wrote for the event's own query: no input is answered without asking the
/// store.
pub proof fn check_event_answers_from_the_store(
    store: &Store,
    event_iri: &str,
    start_time: &RdfLiteral,
    end_time: &RdfLiteral,
    start_date_prop_name: &str,
    end_date_prop_name: &str,
    text: String,
)
    requires
        call_ensures(
            check_event,
            (store, event_iri, start_time, end_time, start_date_prop_name, end_date_prop_name),
            Ok::<String, ProcessError>(text),
        ),
    ensures
        exists|query: &str|
            {
                &&& query@ == event_query_text(
                    event_iri@,
                    *start_time,
                    *end_time,
                    start_date_prop_name@,
                    end_date_prop_name@,
                )
                &&& #[trigger] query_graph_text(store, query, text@)
            },
{
}

} // verus!
