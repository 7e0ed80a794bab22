//! A terminal quiz trainer's verified core: the question model with its
//! grading semantics, matching-question expansion, session building
//! (chapter selection, pool assembly, sampling), and the quiz-session
//! state machine. Console input and output, and loading the question bank
//! from a document, live outside this crate and hand in plain values.
pub mod expand;
pub mod grade;
pub mod model;
pub mod runner;
pub mod session;
pub mod text;
