use oxigraph::io::RdfFormat;
use oxigraph::store::Store;
use wasm_oxi_time::oxi_db::check_event;
use wasm_oxi_time::oxi_db::event_from_solution;
use wasm_oxi_time::oxi_db::event_query;
use wasm_oxi_time::oxi_db::graph_text;
use wasm_oxi_time::oxi_db::process_data;
use wasm_oxi_time::oxi_db::relate_events;
use wasm_oxi_time::oxi_db::replace_placeholders;
use wasm_oxi_time::oxi_db::Binding;
use wasm_oxi_time::oxi_db::EventVariable;
use wasm_oxi_time::oxi_db::ProcessError;
use wasm_oxi_time::oxi_db::RdfLiteral;
use wasm_oxi_time::oxi_db::TermValue;
use wasm_oxi_time::oxi_db::CONSTRUCT_ALL_FOR_GIVEN_EVENT;
use wasm_oxi_time::oxi_db::SELECT_EVENTS;

const DATA:&str = "@prefix xsd: <http://www.w3.org/2001/XMLSchema#> .
    @prefix baseUrl: <http://example.data/event/> .
        baseUrl:de105920-461f-495c-bf60-293fc2a45d81 baseUrl:id \"de105920-461f-495c-bf60-293fc2a45d80\"; baseUrl:startDate \"2001-12-16T02:50:21Z\"^^xsd:dateTime; baseUrl:endDate \"2001-12-17T21:41:58Z\"^^xsd:dateTime.
        baseUrl:de105920-461f-495c-bf60-293fc2a45d82 baseUrl:id \"de105920-461f-495c-bf60-293fc2a45d80\"; baseUrl:startDate \"2001-12-15T02:50:20Z\"^^xsd:dateTimeStamp; baseUrl:endDate \"2001-12-17T21:45:58Z\"^^xsd:dateTimeStamp.";

const XSD_DATE_TIME: &str = "http://www.w3.org/2001/XMLSchema#dateTime";

fn literal(value: &str, datatype: &str) -> RdfLiteral {
    RdfLiteral { value: value.to_string(), datatype: datatype.to_string() }
}

fn binding(variable: &str, value: TermValue) -> Binding {
    Binding { variable: variable.to_string(), value }
}

#[test]
fn test_process_data_multi_string() {
    let r = process_data(DATA.as_bytes(), "baseUrl:startDate", "baseUrl:endDate");
    let r = r.unwrap();
    assert_ne!(r, "");
    println!("RES:{}", r);
}

#[test]
fn events_are_related_in_both_directions() {
    let data = "@prefix xsd: <http://www.w3.org/2001/XMLSchema#> .
@prefix baseUrl: <http://example.data/event/> .
baseUrl:a baseUrl:startDate \"2001-12-16T02:00:00Z\"^^xsd:dateTime ; baseUrl:endDate \"2001-12-17T02:00:00Z\"^^xsd:dateTime .
baseUrl:b baseUrl:startDate \"2001-12-15T02:00:00Z\"^^xsd:dateTime ; baseUrl:endDate \"2001-12-18T02:00:00Z\"^^xsd:dateTime .";
    let r = process_data(data.as_bytes(), "baseUrl:startDate", "baseUrl:endDate").unwrap();
    assert!(r.contains("<http://example.data/event/a> <http://www.w3.org/2006/time#intervalIn> <http://example.data/event/b>"), "{}", r);
    assert!(r.contains("<http://example.data/event/b> <http://www.w3.org/2006/time#intervalContains> <http://example.data/event/a>"), "{}", r);
}

#[test]
fn meeting_events_are_related() {
    let data = "@prefix xsd: <http://www.w3.org/2001/XMLSchema#> .
@prefix baseUrl: <http://example.data/event/> .
baseUrl:a baseUrl:startDate \"2020-01-01\"^^xsd:date ; baseUrl:endDate \"2020-01-05\"^^xsd:date .
baseUrl:b baseUrl:startDate \"2020-01-05\"^^xsd:date ; baseUrl:endDate \"2020-01-09\"^^xsd:date .";
    let r = process_data(data.as_bytes(), "baseUrl:startDate", "baseUrl:endDate").unwrap();
    assert!(r.contains("<http://example.data/event/a> <http://www.w3.org/2006/time#intervalMeets> <http://example.data/event/b>"), "{}", r);
}

#[test]
fn a_graph_without_events_gives_nothing() {
    let data = "<http://example.com/s> <http://example.com/p> \"o\" .";
    assert_eq!(process_data(data.as_bytes(), "<http://example.com/start>", "<http://example.com/end>").unwrap(), "");
}

#[test]
fn empty_property_names_are_refused() {
    assert!(matches!(process_data(DATA.as_bytes(), "", "baseUrl:endDate"), Err(ProcessError::EmptyStartProperty)));
    assert!(matches!(process_data(DATA.as_bytes(), "", ""), Err(ProcessError::EmptyStartProperty)));
    assert!(matches!(process_data(DATA.as_bytes(), "baseUrl:startDate", ""), Err(ProcessError::EmptyEndProperty)));
}

#[test]
fn bad_turtle_is_refused() {
    assert!(matches!(process_data(b"this is not turtle", "baseUrl:startDate", "baseUrl:endDate"), Err(ProcessError::Load(_))));
}

#[test]
fn a_bad_property_name_fails_the_query() {
    assert!(matches!(process_data(DATA.as_bytes(), "undefined:prefix", "baseUrl:endDate"), Err(ProcessError::Evaluation(_))));
}

#[test]
fn an_event_whose_start_is_not_a_literal_is_refused() {
    let data = "<http://e/a> <http://e/start> <http://e/x> ; <http://e/end> \"2020-01-01\" .";
    assert!(matches!(process_data(data.as_bytes(), "<http://e/start>", "<http://e/end>"), Err(ProcessError::LiteralExpected)));
}

#[test]
fn a_blank_node_event_is_refused() {
    let data = "_:a <http://e/start> \"1\" ; <http://e/end> \"2\" .";
    assert!(matches!(process_data(data.as_bytes(), "<http://e/start>", "<http://e/end>"), Err(ProcessError::NamedNodeExpected)));
}

#[test]
fn placeholders_are_replaced_as_str_replace_does() {
    let q = replace_placeholders(SELECT_EVENTS, "baseUrl:startDate", "baseUrl:endDate");
    assert_eq!(
        q,
        SELECT_EVENTS
            .replace("_START_DATE_PLACEHOLDER_", "baseUrl:startDate")
            .replace("_END_DATE_PLACEHOLDER_", "baseUrl:endDate")
    );
    assert!(q.ends_with("?e1 baseUrl:startDate ?st1 ; baseUrl:endDate ?end1 .}"));
    assert_eq!(replace_placeholders("ASK {}", "a", "b"), "ASK {}");
}

#[test]
fn the_event_query_binds_the_event_and_its_times() {
    let start = literal("2001-12-16T02:50:21Z", XSD_DATE_TIME);
    let end = literal("2001-12-17T21:41:58Z", XSD_DATE_TIME);
    let q = event_query("http://example.data/event/a", &start, &end, "baseUrl:startDate", "baseUrl:endDate");
    let expected = CONSTRUCT_ALL_FOR_GIVEN_EVENT
        .replace("_START_DATE_PLACEHOLDER_", "baseUrl:startDate")
        .replace("_END_DATE_PLACEHOLDER_", "baseUrl:endDate")
        .replace("_ST1_PLACEHOLDER_", "\"2001-12-16T02:50:21Z\"^^<http://www.w3.org/2001/XMLSchema#dateTime>")
        .replace("_END1_PLACEHOLDER_", "\"2001-12-17T21:41:58Z\"^^<http://www.w3.org/2001/XMLSchema#dateTime>")
        .replace("_E1_PLACEHOLDER_", "<http://example.data/event/a>");
    assert_eq!(q, expected);
    assert!(q.contains("BIND(<http://example.data/event/a>  AS ?e1)"));
    assert!(!q.contains("PLACEHOLDER"));
}

#[test]
fn a_solution_gives_its_event() {
    let solution = vec![
        binding("end1", TermValue::Literal(literal("2", "http://d"))),
        binding("e1", TermValue::NamedNode("http://e/a".to_string())),
        binding("st1", TermValue::Literal(literal("1", "http://d"))),
    ];
    let event = event_from_solution(&solution).unwrap();
    assert_eq!(event.iri, "http://e/a");
    assert_eq!(event.start_time, literal("1", "http://d"));
    assert_eq!(event.end_time, literal("2", "http://d"));
}

#[test]
fn solutions_lacking_a_variable_are_refused_in_order() {
    let e = binding("e1", TermValue::NamedNode("http://e/a".to_string()));
    let st = binding("st1", TermValue::Literal(literal("1", "http://d")));
    let end = binding("end1", TermValue::Literal(literal("2", "http://d")));
    assert!(matches!(event_from_solution(&vec![]), Err(ProcessError::MissingVariable(EventVariable::Event))));
    assert!(matches!(
        event_from_solution(&vec![st.clone(), end.clone()]),
        Err(ProcessError::MissingVariable(EventVariable::Event))
    ));
    assert!(matches!(
        event_from_solution(&vec![e.clone(), end.clone()]),
        Err(ProcessError::MissingVariable(EventVariable::StartTime))
    ));
    assert!(matches!(
        event_from_solution(&vec![e.clone(), st.clone()]),
        Err(ProcessError::MissingVariable(EventVariable::EndTime))
    ));
}

#[test]
fn solutions_of_the_wrong_kind_are_refused() {
    let e = binding("e1", TermValue::NamedNode("http://e/a".to_string()));
    let st = binding("st1", TermValue::Literal(literal("1", "http://d")));
    let end = binding("end1", TermValue::Literal(literal("2", "http://d")));
    assert!(matches!(
        event_from_solution(&vec![binding("e1", TermValue::Literal(literal("x", "http://d"))), st.clone(), end.clone()]),
        Err(ProcessError::NamedNodeExpected)
    ));
    assert!(matches!(
        event_from_solution(&vec![binding("e1", TermValue::Other), binding("st1", TermValue::Other)]),
        Err(ProcessError::NamedNodeExpected)
    ));
    assert!(matches!(
        event_from_solution(&vec![e.clone(), binding("st1", TermValue::Other), end.clone()]),
        Err(ProcessError::LiteralExpected)
    ));
    assert!(matches!(
        event_from_solution(&vec![e.clone(), st.clone(), binding("end1", TermValue::NamedNode("http://x".to_string()))]),
        Err(ProcessError::LiteralExpected)
    ));
}

#[test]
fn the_first_binding_of_a_variable_counts() {
    let solution = vec![
        binding("e1", TermValue::NamedNode("http://e/first".to_string())),
        binding("e1", TermValue::NamedNode("http://e/second".to_string())),
        binding("st1", TermValue::Literal(literal("1", "http://d"))),
        binding("end1", TermValue::Literal(literal("2", "http://d"))),
    ];
    assert_eq!(event_from_solution(&solution).unwrap().iri, "http://e/first");
}

#[test]
fn graph_text_decodes_utf8() {
    assert_eq!(graph_text("<a> <b> \"é\" .".as_bytes().to_vec()).unwrap(), "<a> <b> \"é\" .");
    assert_eq!(graph_text(Vec::new()).unwrap(), "");
    assert!(matches!(graph_text(vec![0xff, 0x41]), Err(ProcessError::InvalidUtf8)));
}

#[test]
fn check_event_relates_one_event() {
    let store = Store::new().unwrap();
    let data = "<http://e/a> <http://e/start> \"2020-01-02\"^^<http://www.w3.org/2001/XMLSchema#date> ; <http://e/end> \"2020-01-03\"^^<http://www.w3.org/2001/XMLSchema#date> .
<http://e/b> <http://e/start> \"2020-01-01\"^^<http://www.w3.org/2001/XMLSchema#date> ; <http://e/end> \"2020-01-09\"^^<http://www.w3.org/2001/XMLSchema#date> .";
    store.load_from_reader(RdfFormat::Turtle, data.as_bytes()).unwrap();
    let date = "http://www.w3.org/2001/XMLSchema#date";
    let graph = check_event(&store, "http://e/a", &literal("2020-01-02", date), &literal("2020-01-03", date), "<http://e/start>", "<http://e/end>").unwrap();
    assert!(graph.contains("<http://e/a> <http://www.w3.org/2006/time#intervalIn> <http://e/b>"), "{}", graph);
    assert!(!graph.contains("<http://e/b> <"), "{}", graph);
}

#[test]
fn an_invalid_event_fails_the_whole_call() {
    let data = "@prefix baseUrl: <http://example.data/event/> . baseUrl:A baseUrl:startDate 1; baseUrl:endDate 3 . [] baseUrl:startDate 2; baseUrl:endDate 4 .";
    assert!(matches!(process_data(data.as_bytes(), "baseUrl:startDate", "baseUrl:endDate"), Err(ProcessError::NamedNodeExpected)));
}

#[test]
fn relating_stops_at_the_first_solution_that_is_no_event() {
    let store = Store::new().unwrap();
    let good = vec![
        binding("e1", TermValue::NamedNode("http://e/a".to_string())),
        binding("st1", TermValue::Literal(literal("1", "http://www.w3.org/2001/XMLSchema#integer"))),
        binding("end1", TermValue::Literal(literal("2", "http://www.w3.org/2001/XMLSchema#integer"))),
    ];
    let bad = vec![binding("e1", TermValue::Other)];
    let r = relate_events(&store, &vec![good.clone(), bad], "<http://e/s>", "<http://e/e>");
    assert!(matches!(r, Err(ProcessError::NamedNodeExpected)));
    assert_eq!(relate_events(&store, &vec![], "<http://e/s>", "<http://e/e>").unwrap(), "");
    assert_eq!(relate_events(&store, &vec![good.clone(), good], "<http://e/s>", "<http://e/e>").unwrap(), "");
}
