//! The dataflow graph blueprint: an ordered list of named steps, and its
//! serializable tagged form.
//!
//! A graph is built by pushing steps; each stateful step carries the step
//! identifier that namespaces its recovery state, and window-scoped steps
//! carry their clock and windower configuration. User callbacks are carried
//! as opaque reference names the host resolves when it binds the graph to its
//! strategy objects.
//!
//! For persistence and transmission, every step encodes to a tagged token row
//! (variant name first, parameters after) and decodes back; decoding is exact
//! and total, and an unknown or malformed row is rejected at
//! graph-construction time, never deferred to runtime.

use vstd::prelude::*;

use crate::clock::ClockConfig;
use crate::windower::WindowerConfig;

verus! {

/// One token of a step's serialized form.
#[derive(PartialEq, Eq, Debug)]
pub enum Token {
    /// A text parameter: a tag, an identifier, or a callback reference.
    Text(String),
    /// A numeric parameter.
    Num(u64),
}

/// The abstraction of a token.
pub enum TokenView {
    /// A text parameter, as a character sequence.
    Text(Seq<char>),
    /// A numeric parameter.
    Num(u64),
}

impl DeepView for Token {
    type V = TokenView;

    open spec fn deep_view(&self) -> TokenView {
        match self {
            Token::Text(s) => TokenView::Text(s@),
            Token::Num(n) => TokenView::Num(*n),
        }
    }
}

/// One step of a dataflow graph.
#[derive(PartialEq, Eq, Debug)]
pub enum Step {
    /// Introduce items from a named input connector.
    Input { step_id: String, input_ref: String },
    /// One-to-one transformation of items.
    MapEach { mapper: String },
    /// One-to-many transformation of items.
    FlatMap { mapper: String },
    /// Keep only the items a predicate accepts.
    Filter { predicate: String },
    /// Observe items without modifying them.
    Inspect { inspector: String },
    /// Observe items and their epochs without modifying them.
    InspectEpoch { inspector: String },
    /// Accumulate per key until a completion predicate emits.
    Reduce { step_id: String, reducer: String, is_complete: String },
    /// Combine the values of each window pairwise.
    ReduceWindow { step_id: String, clock: ClockConfig, windower: WindowerConfig, reducer: String },
    /// Fold the values of each window into a built initial accumulator.
    FoldWindow {
        step_id: String,
        clock: ClockConfig,
        windower: WindowerConfig,
        builder: String,
        folder: String,
    },
    /// One-to-one transformation with persistent per-key state.
    StatefulMap { step_id: String, builder: String, mapper: String },
    /// Route items to a named output connector.
    Capture { output_ref: String },
}

/// The abstraction of a step: the same shape over character sequences.
pub enum StepView {
    /// Introduce items from a named input connector.
    Input { step_id: Seq<char>, input_ref: Seq<char> },
    /// One-to-one transformation of items.
    MapEach { mapper: Seq<char> },
    /// One-to-many transformation of items.
    FlatMap { mapper: Seq<char> },
    /// Keep only the items a predicate accepts.
    Filter { predicate: Seq<char> },
    /// Observe items without modifying them.
    Inspect { inspector: Seq<char> },
    /// Observe items and their epochs without modifying them.
    InspectEpoch { inspector: Seq<char> },
    /// Accumulate per key until a completion predicate emits.
    Reduce { step_id: Seq<char>, reducer: Seq<char>, is_complete: Seq<char> },
    /// Combine the values of each window pairwise.
    ReduceWindow {
        step_id: Seq<char>,
        clock: ClockConfig,
        windower: WindowerConfig,
        reducer: Seq<char>,
    },
    /// Fold the values of each window into a built initial accumulator.
    FoldWindow {
        step_id: Seq<char>,
        clock: ClockConfig,
        windower: WindowerConfig,
        builder: Seq<char>,
        folder: Seq<char>,
    },
    /// One-to-one transformation with persistent per-key state.
    StatefulMap { step_id: Seq<char>, builder: Seq<char>, mapper: Seq<char> },
    /// Route items to a named output connector.
    Capture { output_ref: Seq<char> },
}

impl DeepView for Step {
    type V = StepView;

    open spec fn deep_view(&self) -> StepView {
        match self {
            Step::Input { step_id, input_ref } => StepView::Input {
                step_id: step_id@,
                input_ref: input_ref@,
            },
            Step::MapEach { mapper } => StepView::MapEach { mapper: mapper@ },
            Step::FlatMap { mapper } => StepView::FlatMap { mapper: mapper@ },
            Step::Filter { predicate } => StepView::Filter { predicate: predicate@ },
            Step::Inspect { inspector } => StepView::Inspect { inspector: inspector@ },
            Step::InspectEpoch { inspector } => StepView::InspectEpoch { inspector: inspector@ },
            Step::Reduce { step_id, reducer, is_complete } => StepView::Reduce {
                step_id: step_id@,
                reducer: reducer@,
                is_complete: is_complete@,
            },
            Step::ReduceWindow { step_id, clock, windower, reducer } => StepView::ReduceWindow {
                step_id: step_id@,
                clock: *clock,
                windower: *windower,
                reducer: reducer@,
            },
            Step::FoldWindow { step_id, clock, windower, builder, folder } => StepView::FoldWindow {
                step_id: step_id@,
                clock: *clock,
                windower: *windower,
                builder: builder@,
                folder: folder@,
            },
            Step::StatefulMap { step_id, builder, mapper } => StepView::StatefulMap {
                step_id: step_id@,
                builder: builder@,
                mapper: mapper@,
            },
            Step::Capture { output_ref } => StepView::Capture { output_ref: output_ref@ },
        }
    }
}

/// Why a serialized graph was rejected.
#[derive(PartialEq, Eq, Structural, Clone, Copy, Debug)]
pub enum GraphError {
    /// The row's tag names no known step variant.
    UnknownTag,
    /// The row's shape does not fit its tag.
    Malformed,
}

/// The tagged form of a clock configuration.
pub open spec fn clock_tokens(c: ClockConfig) -> Seq<TokenView> {
    match c {
        ClockConfig::System => seq![TokenView::Text("System"@)],
        ClockConfig::EventTime => seq![TokenView::Text("EventTime"@)],
        ClockConfig::Testing { start_at, item_incr } => seq![
            TokenView::Text("Testing"@),
            TokenView::Num(start_at),
            TokenView::Num(item_incr),
        ],
    }
}

/// The tagged form of a windower configuration.
pub open spec fn windower_tokens(w: WindowerConfig) -> Seq<TokenView> {
    match w {
        WindowerConfig::Tumbling { length, start_at } => seq![
            TokenView::Text("Tumbling"@),
            TokenView::Num(length),
            TokenView::Num(start_at),
        ],
    }
}

/// The tagged token row of a step: variant name first, parameters after.
pub open spec fn step_tokens(s: StepView) -> Seq<TokenView> {
    match s {
        StepView::Input { step_id, input_ref } => seq![
            TokenView::Text("Input"@),
            TokenView::Text(step_id),
            TokenView::Text(input_ref),
        ],
        StepView::MapEach { mapper } => seq![TokenView::Text("Map"@), TokenView::Text(mapper)],
        StepView::FlatMap { mapper } => seq![TokenView::Text("FlatMap"@), TokenView::Text(mapper)],
        StepView::Filter { predicate } => seq![
            TokenView::Text("Filter"@),
            TokenView::Text(predicate),
        ],
        StepView::Inspect { inspector } => seq![
            TokenView::Text("Inspect"@),
            TokenView::Text(inspector),
        ],
        StepView::InspectEpoch { inspector } => seq![
            TokenView::Text("InspectEpoch"@),
            TokenView::Text(inspector),
        ],
        StepView::Reduce { step_id, reducer, is_complete } => seq![
            TokenView::Text("Reduce"@),
            TokenView::Text(step_id),
            TokenView::Text(reducer),
            TokenView::Text(is_complete),
        ],
        StepView::ReduceWindow { step_id, clock, windower, reducer } => seq![
            TokenView::Text("ReduceWindow"@),
            TokenView::Text(step_id),
        ] + clock_tokens(clock) + windower_tokens(windower) + seq![TokenView::Text(reducer)],
        StepView::FoldWindow { step_id, clock, windower, builder, folder } => seq![
            TokenView::Text("FoldWindow"@),
            TokenView::Text(step_id),
        ] + clock_tokens(clock) + windower_tokens(windower) + seq![
            TokenView::Text(builder),
            TokenView::Text(folder),
        ],
        StepView::StatefulMap { step_id, builder, mapper } => seq![
            TokenView::Text("StatefulMap"@),
            TokenView::Text(step_id),
            TokenView::Text(builder),
            TokenView::Text(mapper),
        ],
        StepView::Capture { output_ref } => seq![
            TokenView::Text("Capture"@),
            TokenView::Text(output_ref),
        ],
    }
}

/// Parse a clock configuration at a position; on success, also where parsing
/// stopped.
pub open spec fn parse_clock_at(toks: Seq<TokenView>, pos: int) -> Option<(ClockConfig, int)> {
    if 0 <= pos < toks.len() && toks[pos] is Text {
        let tag = toks[pos]->Text_0;
        if tag == "System"@ {
            Some((ClockConfig::System, pos + 1))
        } else if tag == "EventTime"@ {
            Some((ClockConfig::EventTime, pos + 1))
        } else if tag == "Testing"@ {
            if pos + 2 < toks.len() && toks[pos + 1] is Num && toks[pos + 2] is Num {
                Some(
                    (
                        ClockConfig::Testing {
                            start_at: toks[pos + 1]->Num_0,
                            item_incr: toks[pos + 2]->Num_0,
                        },
                        pos + 3,
                    ),
                )
            } else {
                None
            }
        } else {
            None
        }
    } else {
        None
    }
}

/// Parse a windower configuration at a position; on success, also where
/// parsing stopped.
pub open spec fn parse_windower_at(toks: Seq<TokenView>, pos: int) -> Option<
    (WindowerConfig, int),
> {
    if 0 <= pos < toks.len() && toks[pos] is Text && toks[pos]->Text_0 == "Tumbling"@ {
        if pos + 2 < toks.len() && toks[pos + 1] is Num && toks[pos + 2] is Num {
            Some(
                (
                    WindowerConfig::Tumbling {
                        length: toks[pos + 1]->Num_0,
                        start_at: toks[pos + 2]->Num_0,
                    },
                    pos + 3,
                ),
            )
        } else {
            None
        }
    } else {
        None
    }
}

/// Parse one step's token row: the exact inverse of [`step_tokens`] on
/// well-formed rows, an error on every other row — an unknown tag or a
/// malformed shape is rejected here, at graph-construction time.
pub open spec fn parse_step(toks: Seq<TokenView>) -> Result<StepView, GraphError> {
    if toks.len() >= 1 && toks[0] is Text {
        let tag = toks[0]->Text_0;
        if tag == "Input"@ {
            if toks.len() == 3 && toks[1] is Text && toks[2] is Text {
                Ok(StepView::Input { step_id: toks[1]->Text_0, input_ref: toks[2]->Text_0 })
            } else {
                Err(GraphError::Malformed)
            }
        } else if tag == "Map"@ {
            if toks.len() == 2 && toks[1] is Text {
                Ok(StepView::MapEach { mapper: toks[1]->Text_0 })
            } else {
                Err(GraphError::Malformed)
            }
        } else if tag == "FlatMap"@ {
            if toks.len() == 2 && toks[1] is Text {
                Ok(StepView::FlatMap { mapper: toks[1]->Text_0 })
            } else {
                Err(GraphError::Malformed)
            }
        } else if tag == "Filter"@ {
            if toks.len() == 2 && toks[1] is Text {
                Ok(StepView::Filter { predicate: toks[1]->Text_0 })
            } else {
                Err(GraphError::Malformed)
            }
        } else if tag == "Inspect"@ {
            if toks.len() == 2 && toks[1] is Text {
                Ok(StepView::Inspect { inspector: toks[1]->Text_0 })
            } else {
                Err(GraphError::Malformed)
            }
        } else if tag == "InspectEpoch"@ {
            if toks.len() == 2 && toks[1] is Text {
                Ok(StepView::InspectEpoch { inspector: toks[1]->Text_0 })
            } else {
                Err(GraphError::Malformed)
            }
        } else if tag == "Reduce"@ {
            if toks.len() == 4 && toks[1] is Text && toks[2] is Text && toks[3] is Text {
                Ok(
                    StepView::Reduce {
                        step_id: toks[1]->Text_0,
                        reducer: toks[2]->Text_0,
                        is_complete: toks[3]->Text_0,
                    },
                )
            } else {
                Err(GraphError::Malformed)
            }
        } else if tag == "ReduceWindow"@ {
            if toks.len() >= 2 && toks[1] is Text {
                match parse_clock_at(toks, 2) {
                    Some((clock, p)) => match parse_windower_at(toks, p) {
                        Some((windower, p2)) => {
                            if p2 == toks.len() - 1 && toks[p2] is Text {
                                Ok(
                                    StepView::ReduceWindow {
                                        step_id: toks[1]->Text_0,
                                        clock,
                                        windower,
                                        reducer: toks[p2]->Text_0,
                                    },
                                )
                            } else {
                                Err(GraphError::Malformed)
                            }
                        },
                        None => Err(GraphError::Malformed),
                    },
                    None => Err(GraphError::Malformed),
                }
            } else {
                Err(GraphError::Malformed)
            }
        } else if tag == "FoldWindow"@ {
            if toks.len() >= 2 && toks[1] is Text {
                match parse_clock_at(toks, 2) {
                    Some((clock, p)) => match parse_windower_at(toks, p) {
                        Some((windower, p2)) => {
                            if p2 == toks.len() - 2 && toks[p2] is Text && toks[p2 + 1] is Text {
                                Ok(
                                    StepView::FoldWindow {
                                        step_id: toks[1]->Text_0,
                                        clock,
                                        windower,
                                        builder: toks[p2]->Text_0,
                                        folder: toks[p2 + 1]->Text_0,
                                    },
                                )
                            } else {
                                Err(GraphError::Malformed)
                            }
                        },
                        None => Err(GraphError::Malformed),
                    },
                    None => Err(GraphError::Malformed),
                }
            } else {
                Err(GraphError::Malformed)
            }
        } else if tag == "StatefulMap"@ {
            if toks.len() == 4 && toks[1] is Text && toks[2] is Text && toks[3] is Text {
                Ok(
                    StepView::StatefulMap {
                        step_id: toks[1]->Text_0,
                        builder: toks[2]->Text_0,
                        mapper: toks[3]->Text_0,
                    },
                )
            } else {
                Err(GraphError::Malformed)
            }
        } else if tag == "Capture"@ {
            if toks.len() == 2 && toks[1] is Text {
                Ok(StepView::Capture { output_ref: toks[1]->Text_0 })
            } else {
                Err(GraphError::Malformed)
            }
        } else {
            Err(GraphError::UnknownTag)
        }
    } else {
        Err(GraphError::Malformed)
    }
}

/// Every step's token row parses back to exactly that step.
pub proof fn lemma_step_round_trip(s: StepView)
    ensures
        parse_step(step_tokens(s)) == Ok::<StepView, GraphError>(s),
{
    reveal_strlit("Input");
    reveal_strlit("Map");
    reveal_strlit("FlatMap");
    reveal_strlit("Filter");
    reveal_strlit("Inspect");
    reveal_strlit("InspectEpoch");
    reveal_strlit("Reduce");
    reveal_strlit("ReduceWindow");
    reveal_strlit("FoldWindow");
    reveal_strlit("StatefulMap");
    reveal_strlit("Capture");
    reveal_strlit("System");
    reveal_strlit("EventTime");
    reveal_strlit("Testing");
    reveal_strlit("Tumbling");
    assert("Input"@.len() == 5 && "Map"@.len() == 3 && "FlatMap"@.len() == 7 && "Filter"@.len()
        == 6 && "Inspect"@.len() == 7 && "InspectEpoch"@.len() == 12 && "Reduce"@.len() == 6
        && "ReduceWindow"@.len() == 12 && "FoldWindow"@.len() == 10 && "StatefulMap"@.len() == 11
        && "Capture"@.len() == 7);
    assert("Inspect"@[0] != "FlatMap"@[0]);
    assert("Reduce"@[0] != "Filter"@[0]);
    assert("ReduceWindow"@[0] != "InspectEpoch"@[0]);
    assert("Capture"@[0] != "FlatMap"@[0]);
    assert("Capture"@[0] != "Inspect"@[0]);
    let toks = step_tokens(s);
    match s {
        StepView::ReduceWindow { step_id, clock, windower, reducer } => {
            let head = seq![TokenView::Text("ReduceWindow"@), TokenView::Text(step_id)];
            let ct = clock_tokens(clock);
            let wt = windower_tokens(windower);
            let tail = seq![TokenView::Text(reducer)];
            assert(toks =~= (head + ct) + (wt + tail));
            lemma_parse_clock_embedded(head, wt + tail, clock);
            assert(parse_clock_at(toks, 2) == Some((clock, 2 + ct.len() as int)));
            assert(toks =~= ((head + ct) + wt) + tail);
            lemma_parse_windower_embedded(head + ct, tail, windower);
            assert(parse_windower_at(toks, 2 + ct.len() as int) == Some(
                (windower, (head + ct).len() + wt.len() as int),
            ));
            assert(toks[toks.len() - 1] == TokenView::Text(reducer));
        },
        StepView::FoldWindow { step_id, clock, windower, builder, folder } => {
            let head = seq![TokenView::Text("FoldWindow"@), TokenView::Text(step_id)];
            let ct = clock_tokens(clock);
            let wt = windower_tokens(windower);
            let tail = seq![TokenView::Text(builder), TokenView::Text(folder)];
            assert(toks =~= (head + ct) + (wt + tail));
            lemma_parse_clock_embedded(head, wt + tail, clock);
            assert(parse_clock_at(toks, 2) == Some((clock, 2 + ct.len() as int)));
            assert(toks =~= ((head + ct) + wt) + tail);
            lemma_parse_windower_embedded(head + ct, tail, windower);
            assert(parse_windower_at(toks, 2 + ct.len() as int) == Some(
                (windower, (head + ct).len() + wt.len() as int),
            ));
            assert(toks[toks.len() - 2] == TokenView::Text(builder));
            assert(toks[toks.len() - 1] == TokenView::Text(folder));
        },
        _ => {},
    }
}

/// A clock configuration's tokens parse back wherever they are embedded.
proof fn lemma_parse_clock_embedded(prefix: Seq<TokenView>, suffix: Seq<TokenView>, c: ClockConfig)
    ensures
        parse_clock_at((prefix + clock_tokens(c)) + suffix, prefix.len() as int) == Some(
            (c, prefix.len() + clock_tokens(c).len() as int),
        ),
{
    reveal_strlit("System");
    reveal_strlit("EventTime");
    reveal_strlit("Testing");
    let toks = (prefix + clock_tokens(c)) + suffix;
    let pos = prefix.len() as int;
    match c {
        ClockConfig::System => {
            assert(toks[pos] == TokenView::Text("System"@));
        },
        ClockConfig::EventTime => {
            assert(toks[pos] == TokenView::Text("EventTime"@));
            assert("EventTime"@.len() == 9 && "System"@.len() == 6);
        },
        ClockConfig::Testing { start_at, item_incr } => {
            assert(toks[pos] == TokenView::Text("Testing"@));
            assert(toks[pos + 1] == TokenView::Num(start_at));
            assert(toks[pos + 2] == TokenView::Num(item_incr));
            assert("Testing"@.len() == 7 && "System"@.len() == 6 && "EventTime"@.len() == 9);
        },
    }
}

/// The token rows of a whole graph, one row per step, in step order.
pub open spec fn flow_tokens(steps: Seq<StepView>) -> Seq<Seq<TokenView>> {
    steps.map(|i: int, s: StepView| step_tokens(s))
}

/// Parse a whole graph's token rows; the first rejected row's error wins.
pub open spec fn parse_flow(rows: Seq<Seq<TokenView>>) -> Result<Seq<StepView>, GraphError>
    decreases rows.len(),
{
    if rows.len() == 0 {
        Ok(Seq::<StepView>::empty())
    } else {
        match parse_flow(rows.drop_last()) {
            Ok(steps) => match parse_step(rows.last()) {
                Ok(s) => Ok(steps.push(s)),
                Err(e) => Err(e),
            },
            Err(e) => Err(e),
        }
    }
}

/// Every graph's token rows parse back to exactly its steps.
pub proof fn lemma_flow_round_trip(steps: Seq<StepView>)
    ensures
        parse_flow(flow_tokens(steps)) == Ok::<Seq<StepView>, GraphError>(steps),
    decreases steps.len(),
{
    if steps.len() == 0 {
        assert(steps =~= Seq::<StepView>::empty());
        assert(flow_tokens(steps).len() == 0);
    } else {
        lemma_flow_round_trip(steps.drop_last());
        lemma_step_round_trip(steps.last());
        assert(flow_tokens(steps).drop_last() =~= flow_tokens(steps.drop_last()));
        assert(flow_tokens(steps).last() == step_tokens(steps.last()));
        assert(steps.drop_last().push(steps.last()) =~= steps);
    }
}

/// A borrow of the text a token holds, if it is a text token.
fn text_at(toks: &Vec<Token>, i: usize) -> (r: Option<&String>)
    requires
        i < toks@.len(),
    ensures
        match r {
            Some(s) => toks.deep_view()[i as int] == TokenView::Text(s@),
            None => !(toks.deep_view()[i as int] is Text),
        },
{
    match &toks[i] {
        Token::Text(s) => Some(s),
        Token::Num(_) => None,
    }
}

/// The number a token holds, if it is a numeric token.
fn num_at(toks: &Vec<Token>, i: usize) -> (r: Option<u64>)
    requires
        i < toks@.len(),
    ensures
        match r {
            Some(n) => toks.deep_view()[i as int] == TokenView::Num(n),
            None => !(toks.deep_view()[i as int] is Num),
        },
{
    match &toks[i] {
        Token::Text(_) => None,
        Token::Num(n) => Some(*n),
    }
}

/// Append a clock configuration's tokens.
fn push_clock(tokens: &mut Vec<Token>, c: &ClockConfig)
    ensures
        final(tokens).deep_view() == old(tokens).deep_view() + clock_tokens(*c),
{
    match c {
        ClockConfig::System => {
            tokens.push(Token::Text("System".to_owned()));
        },
        ClockConfig::EventTime => {
            tokens.push(Token::Text("EventTime".to_owned()));
        },
        ClockConfig::Testing { start_at, item_incr } => {
            tokens.push(Token::Text("Testing".to_owned()));
            tokens.push(Token::Num(*start_at));
            tokens.push(Token::Num(*item_incr));
        },
    }
    proof {
        assert(tokens.deep_view() =~= old(tokens).deep_view() + clock_tokens(*c));
    }
}

/// Append a windower configuration's tokens.
fn push_windower(tokens: &mut Vec<Token>, w: &WindowerConfig)
    ensures
        final(tokens).deep_view() == old(tokens).deep_view() + windower_tokens(*w),
{
    match w {
        WindowerConfig::Tumbling { length, start_at } => {
            tokens.push(Token::Text("Tumbling".to_owned()));
            tokens.push(Token::Num(*length));
            tokens.push(Token::Num(*start_at));
        },
    }
    proof {
        assert(tokens.deep_view() =~= old(tokens).deep_view() + windower_tokens(*w));
    }
}

/// Serialize one step to its tagged token row.
pub fn step_to_tokens(s: &Step) -> (r: Vec<Token>)
    ensures
        r.deep_view() == step_tokens(s.deep_view()),
{
    let mut tokens: Vec<Token> = Vec::new();
    match s {
        Step::Input { step_id, input_ref } => {
            tokens.push(Token::Text("Input".to_owned()));
            tokens.push(Token::Text(step_id.clone()));
            tokens.push(Token::Text(input_ref.clone()));
        },
        Step::MapEach { mapper } => {
            tokens.push(Token::Text("Map".to_owned()));
            tokens.push(Token::Text(mapper.clone()));
        },
        Step::FlatMap { mapper } => {
            tokens.push(Token::Text("FlatMap".to_owned()));
            tokens.push(Token::Text(mapper.clone()));
        },
        Step::Filter { predicate } => {
            tokens.push(Token::Text("Filter".to_owned()));
            tokens.push(Token::Text(predicate.clone()));
        },
        Step::Inspect { inspector } => {
            tokens.push(Token::Text("Inspect".to_owned()));
            tokens.push(Token::Text(inspector.clone()));
        },
        Step::InspectEpoch { inspector } => {
            tokens.push(Token::Text("InspectEpoch".to_owned()));
            tokens.push(Token::Text(inspector.clone()));
        },
        Step::Reduce { step_id, reducer, is_complete } => {
            tokens.push(Token::Text("Reduce".to_owned()));
            tokens.push(Token::Text(step_id.clone()));
            tokens.push(Token::Text(reducer.clone()));
            tokens.push(Token::Text(is_complete.clone()));
        },
        Step::ReduceWindow { step_id, clock, windower, reducer } => {
            tokens.push(Token::Text("ReduceWindow".to_owned()));
            tokens.push(Token::Text(step_id.clone()));
            proof {
                assert(tokens.deep_view() =~= seq![
                    TokenView::Text("ReduceWindow"@),
                    TokenView::Text(step_id@),
                ]);
            }
            let ghost head = tokens.deep_view();
            push_clock(&mut tokens, clock);
            push_windower(&mut tokens, windower);
            let ghost hcw = tokens.deep_view();
            tokens.push(Token::Text(reducer.clone()));
            proof {
                assert(tokens.deep_view() =~= hcw.push(TokenView::Text(reducer@)));
                assert(hcw.push(TokenView::Text(reducer@)) =~= ((head + clock_tokens(*clock))
                    + windower_tokens(*windower)) + seq![TokenView::Text(reducer@)]);
            }
        },
        Step::FoldWindow { step_id, clock, windower, builder, folder } => {
            tokens.push(Token::Text("FoldWindow".to_owned()));
            tokens.push(Token::Text(step_id.clone()));
            proof {
                assert(tokens.deep_view() =~= seq![
                    TokenView::Text("FoldWindow"@),
                    TokenView::Text(step_id@),
                ]);
            }
            let ghost head = tokens.deep_view();
            push_clock(&mut tokens, clock);
            push_windower(&mut tokens, windower);
            let ghost hcw = tokens.deep_view();
            tokens.push(Token::Text(builder.clone()));
            tokens.push(Token::Text(folder.clone()));
            proof {
                assert(tokens.deep_view() =~= hcw.push(TokenView::Text(builder@)).push(
                    TokenView::Text(folder@),
                ));
                assert(hcw.push(TokenView::Text(builder@)).push(TokenView::Text(folder@)) =~= ((
                head + clock_tokens(*clock)) + windower_tokens(*windower)) + seq![
                    TokenView::Text(builder@),
                    TokenView::Text(folder@),
                ]);
            }
        },
        Step::StatefulMap { step_id, builder, mapper } => {
            tokens.push(Token::Text("StatefulMap".to_owned()));
            tokens.push(Token::Text(step_id.clone()));
            tokens.push(Token::Text(builder.clone()));
            tokens.push(Token::Text(mapper.clone()));
        },
        Step::Capture { output_ref } => {
            tokens.push(Token::Text("Capture".to_owned()));
            tokens.push(Token::Text(output_ref.clone()));
        },
    }
    proof {
        assert(tokens.deep_view() =~= step_tokens(s.deep_view()));
    }
    tokens
}

/// Parse a clock configuration at a position, mirroring [`parse_clock_at`].
fn clock_from_tokens(toks: &Vec<Token>, pos: usize) -> (r: Option<(ClockConfig, usize)>)
    ensures
        match r {
            Some((c, p)) => parse_clock_at(toks.deep_view(), pos as int) == Some((c, p as int))
                && p <= toks@.len(),
            None => parse_clock_at(toks.deep_view(), pos as int) is None,
        },
{
    if pos >= toks.len() {
        return None;
    }
    let tag = match text_at(toks, pos) {
        Some(t) => t,
        None => {
            return None;
        },
    };
    let tag_system: String = "System".to_owned();
    if *tag == tag_system {
        return Some((ClockConfig::System, pos + 1));
    }
    let tag_event: String = "EventTime".to_owned();
    if *tag == tag_event {
        return Some((ClockConfig::EventTime, pos + 1));
    }
    let tag_testing: String = "Testing".to_owned();
    if *tag == tag_testing {
        if toks.len() - pos > 2 {
            if let Some(a) = num_at(toks, pos + 1) {
                if let Some(b) = num_at(toks, pos + 2) {
                    return Some((ClockConfig::Testing { start_at: a, item_incr: b }, pos + 3));
                }
            }
        }
        return None;
    }
    None
}

/// Parse a windower configuration at a position, mirroring
/// [`parse_windower_at`].
fn windower_from_tokens(toks: &Vec<Token>, pos: usize) -> (r: Option<(WindowerConfig, usize)>)
    ensures
        match r {
            Some((w, p)) => parse_windower_at(toks.deep_view(), pos as int) == Some((w, p as int))
                && p <= toks@.len(),
            None => parse_windower_at(toks.deep_view(), pos as int) is None,
        },
{
    if pos >= toks.len() {
        return None;
    }
    let tag = match text_at(toks, pos) {
        Some(t) => t,
        None => {
            return None;
        },
    };
    let tag_tumbling: String = "Tumbling".to_owned();
    if *tag == tag_tumbling {
        if toks.len() - pos > 2 {
            if let Some(a) = num_at(toks, pos + 1) {
                if let Some(b) = num_at(toks, pos + 2) {
                    return Some((WindowerConfig::Tumbling { length: a, start_at: b }, pos + 3));
                }
            }
        }
        return None;
    }
    None
}

/// Parse one step from its tagged token row, mirroring [`parse_step`]: an
/// unknown tag or a malformed row is rejected with the reason.
pub fn step_from_tokens(toks: &Vec<Token>) -> (r: Result<Step, GraphError>)
    ensures
        match (r, parse_step(toks.deep_view())) {
            (Ok(a), Ok(b)) => a.deep_view() == b,
            (Err(a), Err(b)) => a == b,
            _ => false,
        },
{
    if toks.len() < 1 {
        return Err(GraphError::Malformed);
    }
    let tag = match text_at(toks, 0) {
        Some(t) => t,
        None => {
            return Err(GraphError::Malformed);
        },
    };
    let tag_input: String = "Input".to_owned();
    if *tag == tag_input {
        if toks.len() == 3 {
            if let Some(a) = text_at(toks, 1) {
                if let Some(b) = text_at(toks, 2) {
                    return Ok(Step::Input { step_id: a.clone(), input_ref: b.clone() });
                }
            }
        }
        return Err(GraphError::Malformed);
    }
    let tag_map: String = "Map".to_owned();
    if *tag == tag_map {
        if toks.len() == 2 {
            if let Some(a) = text_at(toks, 1) {
                return Ok(Step::MapEach { mapper: a.clone() });
            }
        }
        return Err(GraphError::Malformed);
    }
    let tag_flat_map: String = "FlatMap".to_owned();
    if *tag == tag_flat_map {
        if toks.len() == 2 {
            if let Some(a) = text_at(toks, 1) {
                return Ok(Step::FlatMap { mapper: a.clone() });
            }
        }
        return Err(GraphError::Malformed);
    }
    let tag_filter: String = "Filter".to_owned();
    if *tag == tag_filter {
        if toks.len() == 2 {
            if let Some(a) = text_at(toks, 1) {
                return Ok(Step::Filter { predicate: a.clone() });
            }
        }
        return Err(GraphError::Malformed);
    }
    let tag_inspect: String = "Inspect".to_owned();
    if *tag == tag_inspect {
        if toks.len() == 2 {
            if let Some(a) = text_at(toks, 1) {
                return Ok(Step::Inspect { inspector: a.clone() });
            }
        }
        return Err(GraphError::Malformed);
    }
    let tag_inspect_epoch: String = "InspectEpoch".to_owned();
    if *tag == tag_inspect_epoch {
        if toks.len() == 2 {
            if let Some(a) = text_at(toks, 1) {
                return Ok(Step::InspectEpoch { inspector: a.clone() });
            }
        }
        return Err(GraphError::Malformed);
    }
    let tag_reduce: String = "Reduce".to_owned();
    if *tag == tag_reduce {
        if toks.len() == 4 {
            if let Some(a) = text_at(toks, 1) {
                if let Some(b) = text_at(toks, 2) {
                    if let Some(c) = text_at(toks, 3) {
                        return Ok(
                            Step::Reduce {
                                step_id: a.clone(),
                                reducer: b.clone(),
                                is_complete: c.clone(),
                            },
                        );
                    }
                }
            }
        }
        return Err(GraphError::Malformed);
    }
    let tag_reduce_window: String = "ReduceWindow".to_owned();
    if *tag == tag_reduce_window {
        if toks.len() >= 2 {
            if let Some(sid) = text_at(toks, 1) {
                if let Some((clock, p)) = clock_from_tokens(toks, 2) {
                    if let Some((windower, p2)) = windower_from_tokens(toks, p) {
                        if p2 == toks.len() - 1 {
                            if let Some(rd) = text_at(toks, p2) {
                                return Ok(
                                    Step::ReduceWindow {
                                        step_id: sid.clone(),
                                        clock,
                                        windower,
                                        reducer: rd.clone(),
                                    },
                                );
                            }
                        }
                    }
                }
            }
        }
        return Err(GraphError::Malformed);
    }
    let tag_fold_window: String = "FoldWindow".to_owned();
    if *tag == tag_fold_window {
        if toks.len() >= 2 {
            if let Some(sid) = text_at(toks, 1) {
                if let Some((clock, p)) = clock_from_tokens(toks, 2) {
                    if let Some((windower, p2)) = windower_from_tokens(toks, p) {
                        if toks.len() >= 2 && p2 == toks.len() - 2 {
                            if let Some(bu) = text_at(toks, p2) {
                                if let Some(fo) = text_at(toks, p2 + 1) {
                                    return Ok(
                                        Step::FoldWindow {
                                            step_id: sid.clone(),
                                            clock,
                                            windower,
                                            builder: bu.clone(),
                                            folder: fo.clone(),
                                        },
                                    );
                                }
                            }
                        }
                    }
                }
            }
        }
        return Err(GraphError::Malformed);
    }
    let tag_stateful_map: String = "StatefulMap".to_owned();
    if *tag == tag_stateful_map {
        if toks.len() == 4 {
            if let Some(a) = text_at(toks, 1) {
                if let Some(b) = text_at(toks, 2) {
                    if let Some(c) = text_at(toks, 3) {
                        return Ok(
                            Step::StatefulMap {
                                step_id: a.clone(),
                                builder: b.clone(),
                                mapper: c.clone(),
                            },
                        );
                    }
                }
            }
        }
        return Err(GraphError::Malformed);
    }
    let tag_capture: String = "Capture".to_owned();
    if *tag == tag_capture {
        if toks.len() == 2 {
            if let Some(a) = text_at(toks, 1) {
                return Ok(Step::Capture { output_ref: a.clone() });
            }
        }
        return Err(GraphError::Malformed);
    }
    Err(GraphError::UnknownTag)
}

/// A dataflow graph blueprint: an ordered list of steps. Built by the
/// methods below, one per operator.
pub struct Dataflow {
    steps: Vec<Step>,
}

impl Dataflow {
    /// The graph's steps, as views, in the order they were added.
    pub closed spec fn steps_view(&self) -> Seq<StepView> {
        self.steps.deep_view()
    }

    /// An empty graph.
    pub fn new() -> (r: Dataflow)
        ensures
            r.steps_view() == Seq::<StepView>::empty(),
    {
        let r = Dataflow { steps: Vec::new() };
        proof {
            assert(r.steps_view() =~= Seq::<StepView>::empty());
        }
        r
    }

    /// A borrow of the steps, for executing or inspecting the graph.
    pub fn steps(&self) -> (r: &Vec<Step>)
        ensures
            r.deep_view() == self.steps_view(),
    {
        &self.steps
    }

    /// Append one step.
    fn push_step(&mut self, step: Step)
        ensures
            final(self).steps_view() == old(self).steps_view().push(step.deep_view()),
    {
        self.steps.push(step);
        proof {
            assert(self.steps_view() =~= old(self).steps_view().push(
                self.steps@.last().deep_view(),
            ));
        }
    }

    /// Introduce data from a named input connector. At least one input is
    /// required on every dataflow.
    pub fn input(&mut self, step_id: String, input_ref: String)
        ensures
            final(self).steps_view() == old(self).steps_view().push(
                StepView::Input { step_id: step_id@, input_ref: input_ref@ },
            ),
    {
        self.push_step(Step::Input { step_id, input_ref });
    }

    /// One-to-one transformation of items.
    pub fn map(&mut self, mapper: String)
        ensures
            final(self).steps_view() == old(self).steps_view().push(
                StepView::MapEach { mapper: mapper@ },
            ),
    {
        self.push_step(Step::MapEach { mapper });
    }

    /// One-to-many transformation of items.
    pub fn flat_map(&mut self, mapper: String)
        ensures
            final(self).steps_view() == old(self).steps_view().push(
                StepView::FlatMap { mapper: mapper@ },
            ),
    {
        self.push_step(Step::FlatMap { mapper });
    }

    /// Selectively keep only the items a predicate accepts.
    pub fn filter(&mut self, predicate: String)
        ensures
            final(self).steps_view() == old(self).steps_view().push(
                StepView::Filter { predicate: predicate@ },
            ),
    {
        self.push_step(Step::Filter { predicate });
    }

    /// Observe items without modifying them.
    pub fn inspect(&mut self, inspector: String)
        ensures
            final(self).steps_view() == old(self).steps_view().push(
                StepView::Inspect { inspector: inspector@ },
            ),
    {
        self.push_step(Step::Inspect { inspector });
    }

    /// Observe items and their epochs without modifying them.
    pub fn inspect_epoch(&mut self, inspector: String)
        ensures
            final(self).steps_view() == old(self).steps_view().push(
                StepView::InspectEpoch { inspector: inspector@ },
            ),
    {
        self.push_step(Step::InspectEpoch { inspector });
    }

    /// Combine items for a key into an accumulator until a completion
    /// predicate emits it.
    pub fn reduce(&mut self, step_id: String, reducer: String, is_complete: String)
        ensures
            final(self).steps_view() == old(self).steps_view().push(
                StepView::Reduce {
                    step_id: step_id@,
                    reducer: reducer@,
                    is_complete: is_complete@,
                },
            ),
    {
        self.push_step(Step::Reduce { step_id, reducer, is_complete });
    }

    /// Combine all items for a key within a window, emitting when the window
    /// closes.
    pub fn reduce_window(
        &mut self,
        step_id: String,
        clock: ClockConfig,
        windower: WindowerConfig,
        reducer: String,
    )
        ensures
            final(self).steps_view() == old(self).steps_view().push(
                StepView::ReduceWindow { step_id: step_id@, clock, windower, reducer: reducer@ },
            ),
    {
        self.push_step(Step::ReduceWindow { step_id, clock, windower, reducer });
    }

    /// Fold all items for a key within a window into a built initial
    /// accumulator, emitting when the window closes.
    pub fn fold_window(
        &mut self,
        step_id: String,
        clock: ClockConfig,
        windower: WindowerConfig,
        builder: String,
        folder: String,
    )
        ensures
            final(self).steps_view() == old(self).steps_view().push(
                StepView::FoldWindow {
                    step_id: step_id@,
                    clock,
                    windower,
                    builder: builder@,
                    folder: folder@,
                },
            ),
    {
        self.push_step(Step::FoldWindow { step_id, clock, windower, builder, folder });
    }

    /// One-to-one transformation of values with persistent per-key state.
    pub fn stateful_map(&mut self, step_id: String, builder: String, mapper: String)
        ensures
            final(self).steps_view() == old(self).steps_view().push(
                StepView::StatefulMap { step_id: step_id@, builder: builder@, mapper: mapper@ },
            ),
    {
        self.push_step(Step::StatefulMap { step_id, builder, mapper });
    }

    /// Route items to a named output connector. At least one capture is
    /// required on every dataflow.
    pub fn capture(&mut self, output_ref: String)
        ensures
            final(self).steps_view() == old(self).steps_view().push(
                StepView::Capture { output_ref: output_ref@ },
            ),
    {
        self.push_step(Step::Capture { output_ref });
    }

    /// Serialize the whole graph to token rows, for persistence or
    /// transmission.
    pub fn to_token_rows(&self) -> (r: Vec<Vec<Token>>)
        ensures
            r.deep_view() == flow_tokens(self.steps_view()),
    {
        let mut r: Vec<Vec<Token>> = Vec::new();
        let mut i: usize = 0;
        proof {
            assert(r.deep_view() =~= flow_tokens(self.steps_view().take(0)));
        }
        while i < self.steps.len()
            invariant
                i <= self.steps@.len(),
                r.deep_view() == flow_tokens(self.steps_view().take(i as int)),
                self.steps_view().len() == self.steps@.len(),
            decreases self.steps@.len() - i,
        {
            let row = step_to_tokens(&self.steps[i]);
            let ghost prev = r.deep_view();
            r.push(row);
            proof {
                assert(self.steps_view().take(i as int + 1) =~= self.steps_view().take(
                    i as int,
                ).push(self.steps_view()[i as int]));
                assert(flow_tokens(self.steps_view().take(i as int + 1)) =~= flow_tokens(
                    self.steps_view().take(i as int),
                ).push(step_tokens(self.steps_view()[i as int])));
                assert(r.deep_view() =~= prev.push(step_tokens(self.steps_view()[i as int])));
            }
            i = i + 1;
        }
        proof {
            assert(self.steps_view().take(self.steps@.len() as int) =~= self.steps_view());
        }
        r
    }

    /// Rebuild a graph from its token rows, rejecting a malformed or unknown
    /// row at construction time with its reason.
    pub fn from_token_rows(rows: &Vec<Vec<Token>>) -> (r: Result<Dataflow, GraphError>)
        ensures
            match (r, parse_flow(rows.deep_view())) {
                (Ok(d), Ok(sv)) => d.steps_view() == sv,
                (Err(a), Err(b)) => a == b,
                _ => false,
            },
    {
        let mut steps: Vec<Step> = Vec::new();
        let mut i: usize = 0;
        proof {
            assert(steps.deep_view() =~= Seq::<StepView>::empty());
            assert(rows.deep_view().take(0) =~= Seq::<Seq<TokenView>>::empty());
        }
        while i < rows.len()
            invariant
                i <= rows@.len(),
                rows.deep_view().len() == rows@.len(),
                parse_flow(rows.deep_view().take(i as int)) == Ok::<Seq<StepView>, GraphError>(
                    steps.deep_view(),
                ),
            decreases rows@.len() - i,
        {
            let ghost prev = steps.deep_view();
            match step_from_tokens(&rows[i]) {
                Ok(s) => {
                    steps.push(s);
                    proof {
                        let full = rows.deep_view().take(i as int + 1);
                        assert(full =~= rows.deep_view().take(i as int).push(
                            rows.deep_view()[i as int],
                        ));
                        assert(full.drop_last() =~= rows.deep_view().take(i as int));
                        assert(full.last() == rows.deep_view()[i as int]);
                        assert(steps.deep_view() =~= prev.push(steps@.last().deep_view()));
                    }
                },
                Err(e) => {
                    proof {
                        lemma_parse_flow_error_prefix(rows.deep_view(), i as int);
                    }
                    return Err(e);
                },
            }
            i = i + 1;
        }
        proof {
            assert(rows.deep_view().take(rows@.len() as int) =~= rows.deep_view());
        }
        Ok(Dataflow { steps })
    }
}

/// A rejected row anywhere makes the whole graph's parse fail, with the
/// earliest rejected row's error.
proof fn lemma_parse_flow_error_prefix(rows: Seq<Seq<TokenView>>, i: int)
    requires
        0 <= i < rows.len(),
        parse_flow(rows.take(i)) is Ok,
        parse_step(rows[i]) is Err,
    ensures
        parse_flow(rows) == Err::<Seq<StepView>, GraphError>(parse_step(rows[i])->Err_0),
    decreases rows.len(),
{
    if i == rows.len() - 1 {
        assert(rows.take(i) =~= rows.drop_last());
        assert(rows.last() == rows[i]);
    } else {
        assert(rows.drop_last().take(i) =~= rows.take(i));
        assert(rows.drop_last()[i] == rows[i]);
        lemma_parse_flow_error_prefix(rows.drop_last(), i);
    }
}

/// A windower configuration's tokens parse back wherever they are embedded.
proof fn lemma_parse_windower_embedded(
    prefix: Seq<TokenView>,
    suffix: Seq<TokenView>,
    w: WindowerConfig,
)
    ensures
        parse_windower_at((prefix + windower_tokens(w)) + suffix, prefix.len() as int) == Some(
            (w, prefix.len() + windower_tokens(w).len() as int),
        ),
{
    reveal_strlit("Tumbling");
    let toks = (prefix + windower_tokens(w)) + suffix;
    let pos = prefix.len() as int;
    match w {
        WindowerConfig::Tumbling { length, start_at } => {
            assert(toks[pos] == TokenView::Text("Tumbling"@));
            assert(toks[pos + 1] == TokenView::Num(length));
            assert(toks[pos + 2] == TokenView::Num(start_at));
        },
    }
}

} // verus!
