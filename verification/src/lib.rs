//! Offline multi-source dictionary engine.
//!
//! The crate holds the rules of the engine: stemming, brief extraction,
//! search ranking, link resolution and the abstract cache with its fallback
//! chain. It never touches the persisted store itself. Wherever the store has
//! to be asked, a function here returns a step that names the question, and a
//! second function takes the store's answer and decides what follows.
//!
//! Beside the engine stand the decisions of the two things that feed it: the
//! watcher of the selected text (`capture`) and the query of the remote
//! model (`llm`).

pub mod text;
pub mod stem;
pub mod distance;
pub mod json;
pub mod extract;
pub mod entry;
pub mod rank;
pub mod search;
pub mod search_laws;
pub mod link;
pub mod dictionary;
pub mod capture;
pub mod llm;
