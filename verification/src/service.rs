//! The chat flow: an optional security review, then the executor. The
//! decisions are taken here; the caller performs each provider run and
//! reports its outcome back.

use std::sync::Arc;

use vstd::prelude::*;

use crate::codex::{ProviderError, ProviderRunStats};
use crate::executor::{ExecutorAi, ExecutorRunResult};
use crate::models::ChatRequest;
use crate::prompt::security_prompt;
use crate::security::{SecurityAi, SecurityCheckResult, SecurityDecision};
use crate::text::trim;

verus! {

#[derive(Debug, Clone)]
pub struct ChatService {
    executor: Arc<ExecutorAi>,
    security_ai: Option<Arc<SecurityAi>>,
}

#[derive(Debug, Clone)]
pub struct ChatServiceResult {
    pub answer: String,
    pub executor_stats: ProviderRunStats,
    pub security_ai_result: Option<SecurityAuditResult>,
    pub executor_db_access_enabled: bool,
}

#[derive(Debug, Clone)]
pub struct SecurityAuditResult {
    pub decision: SecurityDecision,
    pub reason: String,
    pub stats: ProviderRunStats,
}

#[derive(Debug)]
pub enum ChatServiceError {
    SecurityBlocked { reason: String },
    SecurityAiFailed(ProviderError),
    ExecutorFailed(ProviderError),
}

/// What the flow does next.
#[derive(Debug)]
pub enum ChatStep {
    /// Run the security AI with this review prompt.
    CheckSecurity { prompt: String },
    /// Run the executor AI; `security` is the review that allowed it, if any.
    RunExecutor { security: Option<SecurityAuditResult> },
    /// The request is answered, or refused.
    Finished(Result<ChatServiceResult, ChatServiceError>),
}

/// At most this many characters of a security reason are kept.
pub const MAX_REASON_CHARS: usize = 240;

/// A security reason as reported: trimmed, at most `MAX_REASON_CHARS`
/// characters, and a fixed text when nothing is left.
pub open spec fn normalized_reason(reason: Seq<char>) -> Seq<char> {
    let t = trim(reason);
    if t.len() == 0 {
        "no reason provided"@
    } else if t.len() <= MAX_REASON_CHARS {
        t
    } else {
        t.take(MAX_REASON_CHARS as int)
    }
}

pub fn normalize_reason(reason: String) -> (res: String)
    ensures
        res@ == normalized_reason(reason@),
{
    let chars = crate::text::chars_of(reason.as_str());
    let t = crate::text::trim_chars(&chars);
    if t.len() == 0 {
        return String::from_str("no reason provided");
    }
    let end = if t.len() <= MAX_REASON_CHARS { t.len() } else { MAX_REASON_CHARS };
    let res = crate::secret_filter::substring(&t, 0, end);
    assert(t@.subrange(0, t.len() as int) =~= t@);
    assert(t@.subrange(0, end as int) =~= t@.take(end as int));
    res
}

impl ChatService {
    pub closed spec fn spec_executor(&self) -> ExecutorAi {
        *self.executor
    }

    pub closed spec fn spec_security_ai(&self) -> Option<SecurityAi> {
        match self.security_ai {
            Some(s) => Some(*s),
            None => None,
        }
    }

    pub fn new(executor: Arc<ExecutorAi>, security_ai: Option<Arc<SecurityAi>>) -> (res: Self)
        ensures
            res.spec_executor() == *executor,
            res.spec_security_ai() == match security_ai {
                Some(s) => Some(*s),
                None => None::<SecurityAi>,
            },
    {
        ChatService { executor, security_ai }
    }

    pub fn security_ai_enabled(&self) -> (res: bool)
        ensures
            res == self.spec_security_ai() is Some,
    {
        self.security_ai.is_some()
    }

    pub fn executor(&self) -> (res: &ExecutorAi)
        ensures
            *res == self.spec_executor(),
    {
        &self.executor
    }

    pub fn security_ai(&self) -> (res: Option<&SecurityAi>)
        ensures
            match res {
                Some(s) => self.spec_security_ai() == Some(*s),
                None => self.spec_security_ai() is None,
            },
    {
        match &self.security_ai {
            Some(s) => Some(&**s),
            None => None,
        }
    }

    /// The review prompt for a request whose user message is `user_message`,
    /// when a security review is configured.
    pub open spec fn review_prompt(&self, user_message: Seq<char>) -> Option<Seq<char>> {
        match self.spec_security_ai() {
            Some(sa) => Some(security_prompt(sa.spec_base_prompt(), user_message)),
            None => None,
        }
    }

    /// The first step: the security review of the user message when one is
    /// configured, else the executor directly.
    pub fn start(&self, request: &ChatRequest) -> (res: ChatStep)
        ensures
            match self.review_prompt(request.user_message@) {
                Some(p) => res matches ChatStep::CheckSecurity { prompt } && prompt@ == p,
                None => res == (ChatStep::RunExecutor { security: None }),
            },
    {
        match &self.security_ai {
            Some(sa) => ChatStep::CheckSecurity { prompt: sa.prompt_for(request.user_message.as_str()) },
            None => ChatStep::RunExecutor { security: None },
        }
    }

    /// The step after the security review, failing closed: a failed review
    /// or any decision but `Allow` ends the request before the executor
    /// runs; an allowed request moves on to the executor with the audit.
    pub fn after_security(&self, check: Result<SecurityCheckResult, ProviderError>) -> (res: ChatStep)
        ensures
            !(res is CheckSecurity),
            res is RunExecutor ==> (check matches Ok(c) && c.decision == SecurityDecision::Allow),
            match check {
                Err(e) => res == ChatStep::Finished(Err(ChatServiceError::SecurityAiFailed(e))),
                Ok(c) => if c.decision != SecurityDecision::Allow {
                    res matches ChatStep::Finished(Err(ChatServiceError::SecurityBlocked { reason }))
                        && reason@ == normalized_reason(c.reason@)
                } else {
                    res matches ChatStep::RunExecutor { security: Some(audit) }
                        && audit.decision == c.decision && audit.reason@ == normalized_reason(c.reason@)
                        && audit.stats == c.stats
                },
            },
    {
        match check {
            Err(e) => ChatStep::Finished(Err(ChatServiceError::SecurityAiFailed(e))),
            Ok(c) => {
                if c.decision != SecurityDecision::Allow {
                    ChatStep::Finished(
                        Err(ChatServiceError::SecurityBlocked { reason: normalize_reason(c.reason) }),
                    )
                } else {
                    ChatStep::RunExecutor {
                        security: Some(
                            SecurityAuditResult {
                                decision: c.decision,
                                reason: normalize_reason(c.reason),
                                stats: c.stats,
                            },
                        ),
                    }
                }
            },
        }
    }

    /// The last step: the executor's answer with the audit, or its failure.
    pub fn after_executor(
        &self,
        security: Option<SecurityAuditResult>,
        run: Result<ExecutorRunResult, ProviderError>,
    ) -> (res: ChatStep)
        ensures
            res is Finished,
            run matches Err(e) ==> res == ChatStep::Finished(Err(ChatServiceError::ExecutorFailed(e))),
            run matches Ok(r) ==> res == ChatStep::Finished(
                Ok(
                    ChatServiceResult {
                        answer: r.answer,
                        executor_stats: r.stats,
                        security_ai_result: security,
                        executor_db_access_enabled: self.spec_executor().spec_database_access(),
                    },
                ),
            ),
    {
        match run {
            Err(e) => ChatStep::Finished(Err(ChatServiceError::ExecutorFailed(e))),
            Ok(r) => ChatStep::Finished(
                Ok(
                    ChatServiceResult {
                        answer: r.answer,
                        executor_stats: r.stats,
                        security_ai_result: security,
                        executor_db_access_enabled: self.executor.database_access_enabled(),
                    },
                ),
            ),
        }
    }
}

/// The security review sees the user message and nothing else of a
/// request: two requests with the same user message get the same review
/// prompt (or none), whatever their conversation, id and metadata. With
/// `start` the only step that asks for a review, and `after_security` and
/// `after_executor` never asking for one, the review runs at most once and
/// before the executor.
pub proof fn law_security_review_message_only(service: ChatService, r1: ChatRequest, r2: ChatRequest)
    requires
        r1.user_message@ == r2.user_message@,
    ensures
        service.review_prompt(r1.user_message@) == service.review_prompt(r2.user_message@),
        service.review_prompt(r1.user_message@) is Some <==> service.spec_security_ai() is Some,
{
}

/// A reported security reason is the start of the trimmed reason: all of
/// it when it has at most 240 characters, else its first 240; a reason that
/// is blank once trimmed is reported as `no reason provided`.
pub proof fn law_reason_is_trimmed_prefix(reason: Seq<char>)
    ensures
        trim(reason).len() == 0 ==> normalized_reason(reason) == "no reason provided"@,
        trim(reason).len() > 0 ==> {
            let r = normalized_reason(reason);
            &&& r.len() == (if trim(reason).len() <= 240 { trim(reason).len() } else { 240 })
            &&& r == trim(reason).subrange(0, r.len() as int)
        },
{
    let t = trim(reason);
    if t.len() > 0 {
        if t.len() <= 240 {
            assert(t.subrange(0, t.len() as int) =~= t);
        } else {
            assert(t.take(240) =~= t.subrange(0, 240));
        }
    }
}

} // verus!
