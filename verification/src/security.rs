//! The security AI: a stateless gate that reviews the user message alone.

use vstd::prelude::*;

use crate::codex::{CodexJsonResult, CodexRunner, ProviderRunStats};
use crate::prompt::{build_security_prompt, security_prompt};

verus! {

#[derive(Debug, Clone)]
pub struct SecurityAi {
    runner: CodexRunner,
    base_prompt: String,
}

#[derive(Debug, Clone)]
pub struct SecurityCheckResult {
    pub decision: SecurityDecision,
    pub reason: String,
    pub stats: ProviderRunStats,
}

#[derive(Debug, Clone, Copy, PartialEq, Eq, Structural)]
pub enum SecurityDecision {
    Allow,
    Block,
}

/// The JSON object the security AI answers with.
#[derive(Debug, Clone)]
pub struct SecurityStructuredOutput {
    pub decision: SecurityDecision,
    pub reason: String,
}

impl SecurityAi {
    pub closed spec fn spec_runner(&self) -> CodexRunner {
        self.runner
    }

    pub closed spec fn spec_base_prompt(&self) -> Seq<char> {
        self.base_prompt@
    }

    /// A security gate with the given stored prompt (read from the prompt
    /// file by the caller).
    pub fn new(runner: CodexRunner, base_prompt: String) -> (res: Self)
        ensures
            res.spec_runner() == runner,
            res.spec_base_prompt() == base_prompt@,
    {
        SecurityAi { runner, base_prompt }
    }

    pub fn runner(&self) -> (res: &CodexRunner)
        ensures
            *res == self.spec_runner(),
    {
        &self.runner
    }

    /// The review prompt: the stored prompt and the user message, nothing
    /// else (no conversation, metadata or credentials).
    pub fn prompt_for(&self, user_message: &str) -> (res: String)
        ensures
            res@ == security_prompt(self.spec_base_prompt(), user_message@),
    {
        build_security_prompt(self.base_prompt.as_str(), user_message)
    }

    /// The verdict and run statistics from a parsed provider run.
    pub fn finish(result: CodexJsonResult<SecurityStructuredOutput>) -> (res: SecurityCheckResult)
        ensures
            res.decision == result.output.decision,
            res.reason == result.output.reason,
            res.stats == result.stats,
    {
        SecurityCheckResult {
            decision: result.output.decision,
            reason: result.output.reason,
            stats: result.stats,
        }
    }
}

} // verus!
