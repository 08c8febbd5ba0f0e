//! Stateful, windowed, recoverable operator core for a streaming dataflow
//! engine.
//!
//! The library lets a computation maintain per-key accumulator state across an
//! unbounded sequence of keyed items, group items into time-based windows, and
//! survive process restarts by resuming from captured state snapshots instead
//! of replaying the whole input history. Three invariants hold throughout:
//! per-key isolation (no item ever touches another key's state), exactly one
//! emission per window (a closed window never reopens, and its late items are
//! reported and dropped, never merged), and crash-consistent resumability
//! (state restored from a snapshot is equivalent to the state captured).
//!
//! User-supplied accumulation logic — combine functions, completion
//! predicates, builders, mappers, codecs — is injected through traits whose
//! methods carry exact contracts, so everything proved about the operators
//! holds for any implementation meeting those contracts.
//!
//! The modules, leaves first:
//! - [`clock`]: stamps items with logical time and tracks the watermark.
//! - [`windower`]: maps timestamps to windows and decides closure.
//! - [`store`]: the explicit per-key state store the operators build on.
//! - [`logic`]: the per-window state machine contract (`build` / `exec` /
//!   `snapshot`) and the reduce-window and fold-window operators against it.
//! - [`windowed`]: the full window-scoped operator — clock, windower and
//!   per-(key, window) accumulators, with late-item reporting.
//! - [`reduce`]: the unbounded accumulate-until-complete operator.
//! - [`stateful_map`]: the one-to-one transform with explicit state forget.
//! - [`envelope`]: the self-describing snapshot byte envelope.
//! - [`recovery`]: per (step, key) snapshot capture and fail-closed resume.
//! - [`graph`]: the dataflow blueprint and its serializable tagged form.
//! - [`combiners`]: ready-made, proved implementations of the user-logic
//!   traits.

pub mod clock;
pub mod combiners;
pub mod envelope;
pub mod graph;
pub mod logic;
pub mod recovery;
pub mod reduce;
pub mod stateful_map;
pub mod store;
pub mod windowed;
pub mod windower;
