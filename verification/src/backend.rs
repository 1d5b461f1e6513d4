//! The backend itself.
use crate::generate::{Generation, GenerationView, StageView};
use crate::load::{load_timeout, LoadStageView, LoadView, ModelLoad, DEFAULT_LARQL_BIN};
use crate::memory::{available_kib, parse_available_kib};
use crate::prompt::{flatten_prompt, prompt, ChatMessage};
use crate::text::is_single_line;
use vstd::prelude::*;

verus! {

/// The identifier of the backend.
pub const LARQL_BACKEND_ID: &'static str = "larql";

/// The `larql` backend.
pub struct LarqlBackend;

impl LarqlBackend {
    /// The backend.
    pub fn new() -> (backend: Self)
        ensures
            backend == LarqlBackend,
    {
        Self
    }

    /// The identifier of the backend.
    pub fn id(&self) -> (id: &'static str)
        ensures
            id@ == LARQL_BACKEND_ID@,
    {
        LARQL_BACKEND_ID
    }

    /// Begins to load the model `model_id` from `vindex_path`. `larql_bin` and `timeout` are the
    /// settings `LARQL_BIN` and `LARQL_LOAD_TIMEOUT_SECS`, where they are set.
    pub fn load_model(
        &self,
        model_id: &str,
        vindex_path: &str,
        larql_bin: Option<String>,
        timeout: Option<String>,
    ) -> (load: ModelLoad)
        ensures
            load@ == (LoadView {
                model_id: model_id@,
                vindex_path: vindex_path@,
                program: match larql_bin {
                    Some(program) => program@,
                    None => DEFAULT_LARQL_BIN@,
                },
                timeout_secs: load_timeout(
                    match timeout {
                        Some(text) => Some(text@),
                        None => None,
                    },
                ),
                stage: LoadStageView::CheckPath,
            }),
    {
        ModelLoad::new(model_id, vindex_path, larql_bin, timeout)
    }

    /// Begins a turn: the whole conversation, flattened to one line, is the prompt.
    pub fn generate(
        &self,
        model_name: &str,
        system: &str,
        messages: &[ChatMessage],
    ) -> (generation: Generation)
        ensures
            generation@ == (GenerationView {
                model_name: model_name@,
                prompt: prompt(system@, messages@),
                collected: Seq::empty(),
                stage: StageView::CheckModel,
            }),
            is_single_line(generation@.prompt),
    {
        Generation::new(model_name, flatten_prompt(system, messages))
    }

    /// The available memory in bytes, from the text of `/proc/meminfo` where it could be read, and
    /// 0 where nothing is known.
    pub fn available_memory_bytes(&self, meminfo: Option<&str>) -> (bytes: u64)
        requires
            meminfo matches Some(text) ==> available_kib(text@) * 1024 <= u64::MAX,
        ensures
            bytes == match meminfo {
                Some(text) => available_kib(text@) * 1024,
                None => 0,
            },
    {
        match meminfo {
            Some(text) => parse_available_kib(text) * 1024,
            None => 0,
        }
    }
}

} // verus!
