//! Tests for the dataflow blueprint and its serializable tagged form.

use flowstate::clock::ClockConfig;
use flowstate::graph::{
    step_from_tokens, step_to_tokens, Dataflow, GraphError, Step, Token,
};
use flowstate::windower::WindowerConfig;

fn full_graph() -> Dataflow {
    let mut flow = Dataflow::new();
    flow.input("inp".to_string(), "testing_input".to_string());
    flow.map("user_as_key".to_string());
    flow.flat_map("split_into_words".to_string());
    flow.filter("is_odd".to_string());
    flow.inspect("log".to_string());
    flow.inspect_epoch("log_epoch".to_string());
    flow.reduce(
        "sessionizer".to_string(),
        "extend_session".to_string(),
        "session_complete".to_string(),
    );
    flow.reduce_window(
        "count".to_string(),
        ClockConfig::Testing {
            start_at: 0,
            item_incr: 1,
        },
        WindowerConfig::Tumbling {
            length: 2,
            start_at: 0,
        },
        "count".to_string(),
    );
    flow.fold_window(
        "sum".to_string(),
        ClockConfig::EventTime,
        WindowerConfig::Tumbling {
            length: 10,
            start_at: 0,
        },
        "build".to_string(),
        "count".to_string(),
    );
    flow.stateful_map(
        "remove_duplicates".to_string(),
        "build_count".to_string(),
        "check".to_string(),
    );
    flow.capture("std_output".to_string());
    flow
}

#[test]
fn every_step_round_trips() {
    let flow = full_graph();
    for step in flow.steps() {
        let tokens = step_to_tokens(step);
        let back = step_from_tokens(&tokens).expect("a well-formed row must parse");
        assert_eq!(&back, step);
    }
}

#[test]
fn whole_graph_round_trips() {
    let flow = full_graph();
    let rows = flow.to_token_rows();
    let back = Dataflow::from_token_rows(&rows).expect("a well-formed graph must parse");
    assert_eq!(back.steps(), flow.steps());
}

#[test]
fn unknown_tag_is_rejected() {
    let row = vec![
        Token::Text("Teleport".to_string()),
        Token::Text("x".to_string()),
    ];
    assert_eq!(step_from_tokens(&row), Err(GraphError::UnknownTag));
}

#[test]
fn malformed_row_is_rejected() {
    // A Reduce row missing its completion predicate.
    let row = vec![
        Token::Text("Reduce".to_string()),
        Token::Text("sessionizer".to_string()),
        Token::Text("extend_session".to_string()),
    ];
    assert_eq!(step_from_tokens(&row), Err(GraphError::Malformed));
    // A numeric token where the tag must be text.
    let row = vec![Token::Num(3)];
    assert_eq!(step_from_tokens(&row), Err(GraphError::Malformed));
    // An empty row.
    let row: Vec<Token> = vec![];
    assert_eq!(step_from_tokens(&row), Err(GraphError::Malformed));
}

#[test]
fn bad_row_rejects_whole_graph() {
    let flow = full_graph();
    let mut rows = flow.to_token_rows();
    rows[3] = vec![Token::Text("Teleport".to_string())];
    match Dataflow::from_token_rows(&rows) {
        Err(e) => assert_eq!(e, GraphError::UnknownTag),
        Ok(_) => panic!("a graph with an unknown step tag must be rejected"),
    }
}

#[test]
fn window_step_with_system_clock_round_trips() {
    let step = Step::ReduceWindow {
        step_id: "w".to_string(),
        clock: ClockConfig::System,
        windower: WindowerConfig::Tumbling {
            length: 5,
            start_at: 2,
        },
        reducer: "sum".to_string(),
    };
    let tokens = step_to_tokens(&step);
    assert_eq!(step_from_tokens(&tokens), Ok(step));
}
