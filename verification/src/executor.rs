//! The executor AI: answers the user's request through the provider CLI.

use vstd::prelude::*;

use crate::codex::{CodexJsonResult, CodexRunner, ProviderError, ProviderRunStats};
use crate::models::{ChatRequest, ProviderStructuredOutput};
use crate::prompt::{build_executor_prompt, executor_prompt, metadata_json, metadata_text};

verus! {

#[derive(Debug, Clone)]
pub struct ExecutorAi {
    runner: CodexRunner,
    base_prompt: String,
    database_access_enabled: bool,
}

#[derive(Debug, Clone)]
pub struct ExecutorRunResult {
    pub answer: String,
    pub stats: ProviderRunStats,
}

impl ExecutorAi {
    pub closed spec fn spec_runner(&self) -> CodexRunner {
        self.runner
    }

    pub closed spec fn spec_base_prompt(&self) -> Seq<char> {
        self.base_prompt@
    }

    pub closed spec fn spec_database_access(&self) -> bool {
        self.database_access_enabled
    }

    /// An executor with the given stored prompt (read from the prompt file
    /// by the caller).
    pub fn new(runner: CodexRunner, base_prompt: String, database_access_enabled: bool) -> (res: Self)
        ensures
            res.spec_runner() == runner,
            res.spec_base_prompt() == base_prompt@,
            res.spec_database_access() == database_access_enabled,
    {
        ExecutorAi { runner, base_prompt, database_access_enabled }
    }

    pub fn database_access_enabled(&self) -> (res: bool)
        ensures
            res == self.spec_database_access(),
    {
        self.database_access_enabled
    }

    pub fn runner(&self) -> (res: &CodexRunner)
        ensures
            *res == self.spec_runner(),
    {
        &self.runner
    }

    /// The prompt for `request`, with its metadata rendered as pretty JSON by
    /// the caller.
    pub fn prompt_for(&self, request: &ChatRequest, metadata_json: &str) -> (res: String)
        ensures
            res@ == executor_prompt(
                self.spec_base_prompt(),
                request.user_message@,
                self.spec_database_access(),
                metadata_json@,
            ),
    {
        build_executor_prompt(self.base_prompt.as_str(), request, self.database_access_enabled, metadata_json)
    }

    /// The prompt for `request`, its metadata rendered as pretty JSON.
    pub fn request_prompt(&self, request: &ChatRequest) -> (res: Result<String, ProviderError>)
        ensures
            res matches Ok(p) && p@ == executor_prompt(
                self.spec_base_prompt(),
                request.user_message@,
                self.spec_database_access(),
                metadata_text(request.metadata),
            ),
    {
        match metadata_json(&request.metadata) {
            Ok(m) => Ok(self.prompt_for(request, m.as_str())),
            Err(e) => Err(ProviderError::Prompt(e)),
        }
    }

    /// The executor's answer and run statistics from a parsed provider run.
    pub fn finish(result: CodexJsonResult<ProviderStructuredOutput>) -> (res: ExecutorRunResult)
        ensures
            res.answer == result.output.answer,
            res.stats == result.stats,
    {
        ExecutorRunResult { answer: result.output.answer, stats: result.stats }
    }
}

} // verus!
