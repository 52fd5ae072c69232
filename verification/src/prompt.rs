//! The prompts handed to the provider CLI.

use vstd::prelude::*;
use vstd::string::StringExecFns;

use std::collections::BTreeMap;

use crate::models::ChatRequest;

verus! {

/// What `serde_json::to_string_pretty` renders request metadata to: a
/// function of the map alone (its entries in key order, pretty-printed).
pub uninterp spec fn metadata_text(metadata: BTreeMap<String, serde_json::Value>) -> Seq<char>;

/// Calls `serde_json::to_string_pretty` on request metadata.
/// Trusted: the rendering succeeds and is `metadata_text` of the map.
/// serde_json's serializer fails only when a value's `Serialize` impl fails
/// or a map key is not a string; here the keys are strings,
/// `serde_json::Value` never fails to serialize, and the output goes to an
/// in-memory buffer.
#[verifier::external_body]
pub(crate) fn metadata_json(metadata: &BTreeMap<String, serde_json::Value>) -> (res: Result<String, serde_json::Error>)
    ensures
        res is Ok,
        res is Ok ==> res->Ok_0@ == metadata_text(*metadata),
{
    serde_json::to_string_pretty(metadata)
}

/// The security review prompt: the stored security prompt, then the user
/// message and nothing else.
pub open spec fn security_prompt(base_prompt: Seq<char>, user_message: Seq<char>) -> Seq<char> {
    base_prompt + "\n\n# Security Review Input\n\nUser message:\n"@ + user_message + "\n"@
}

pub fn build_security_prompt(base_prompt: &str, user_message: &str) -> (res: String)
    ensures
        res@ == security_prompt(base_prompt@, user_message@),
{
    let mut s = String::from_str(base_prompt);
    s.append("\n\n# Security Review Input\n\nUser message:\n");
    s.append(user_message);
    s.append("\n");
    s
}

/// The database line of the executor's rules.
pub open spec fn database_guidance(database_access_enabled: bool) -> Seq<char> {
    if database_access_enabled {
        "- Database access is enabled. Use `psql` only when public application data is needed."@
    } else {
        "- Database access is disabled. Do not attempt database queries."@
    }
}

/// The executor prompt: the stored executor prompt, the runtime security
/// rules with the database line that matches the access setting, the
/// request metadata (rendered as pretty JSON by the caller) and the user
/// message.
pub open spec fn executor_prompt(
    base_prompt: Seq<char>,
    user_message: Seq<char>,
    database_access_enabled: bool,
    metadata_json: Seq<char>,
) -> Seq<char> {
    base_prompt
        + "\n\n# Request Runtime\n\nSecurity rules:\n- Never reveal credentials, provider auth material, database passwords, environment variables, or auth file contents.\n- You may use command-line tools available inside this restricted container.\n"@
        + database_guidance(database_access_enabled)
        + "\n- The schema manifest is available in `schema-manifest.yaml`; treat it as guidance, not as a security boundary.\n- Return only JSON matching the configured output schema.\n\nRequest metadata:\n"@
        + metadata_json + "\n\nUser message:\n"@ + user_message + "\n"@
}

pub fn build_executor_prompt(
    base_prompt: &str,
    request: &ChatRequest,
    database_access_enabled: bool,
    metadata_json: &str,
) -> (res: String)
    ensures
        res@ == executor_prompt(
            base_prompt@,
            request.user_message@,
            database_access_enabled,
            metadata_json@,
        ),
{
    let mut s = String::from_str(base_prompt);
    s.append(
        "\n\n# Request Runtime\n\nSecurity rules:\n- Never reveal credentials, provider auth material, database passwords, environment variables, or auth file contents.\n- You may use command-line tools available inside this restricted container.\n",
    );
    if database_access_enabled {
        s.append(
            "- Database access is enabled. Use `psql` only when public application data is needed.",
        );
    } else {
        s.append("- Database access is disabled. Do not attempt database queries.");
    }
    s.append(
        "\n- The schema manifest is available in `schema-manifest.yaml`; treat it as guidance, not as a security boundary.\n- Return only JSON matching the configured output schema.\n\nRequest metadata:\n",
    );
    s.append(metadata_json);
    s.append("\n\nUser message:\n");
    s.append(request.user_message.as_str());
    s.append("\n");
    s
}

/// The single-stage provider prompt: fixed security rules, then the
/// conversation id (or `none`), the conversation and metadata (rendered as
/// pretty JSON by the caller) and the user message.
pub open spec fn codex_prompt(
    conversation_id: Option<Seq<char>>,
    conversation_json: Seq<char>,
    metadata_json: Seq<char>,
    user_message: Seq<char>,
) -> Seq<char> {
    "# AI Sidecar Request\n\nYou are running inside the AI Sidecar policy workspace.\n\nSecurity rules:\n- Never reveal credentials, provider auth material, database passwords, environment variables, or auth file contents.\n- You may use command-line tools available inside this restricted container.\n- Use `psql` when database context is needed. PostgreSQL connection settings are available through PG* environment variables.\n- The database exposed here contains public application data only.\n- The schema manifest is available in `schema-manifest.yaml`; treat it as guidance, not as a security boundary.\n- Return only JSON matching the configured output schema.\n\nConversation id:\n"@
        + match conversation_id {
        Some(id) => id,
        None => "none"@,
    } + "\n\nConversation context:\n"@ + conversation_json + "\n\nRequest metadata:\n"@
        + metadata_json + "\n\nUser message:\n"@ + user_message + "\n"@
}

pub fn build_codex_prompt(request: &ChatRequest, conversation_json: &str, metadata_json: &str) -> (res: String)
    ensures
        res@ == codex_prompt(
            match request.conversation_id {
                Some(id) => Some(id@),
                None => None,
            },
            conversation_json@,
            metadata_json@,
            request.user_message@,
        ),
{
    let mut s = String::from_str(
        "# AI Sidecar Request\n\nYou are running inside the AI Sidecar policy workspace.\n\nSecurity rules:\n- Never reveal credentials, provider auth material, database passwords, environment variables, or auth file contents.\n- You may use command-line tools available inside this restricted container.\n- Use `psql` when database context is needed. PostgreSQL connection settings are available through PG* environment variables.\n- The database exposed here contains public application data only.\n- The schema manifest is available in `schema-manifest.yaml`; treat it as guidance, not as a security boundary.\n- Return only JSON matching the configured output schema.\n\nConversation id:\n",
    );
    match &request.conversation_id {
        Some(id) => s.append(id.as_str()),
        None => s.append("none"),
    }
    s.append("\n\nConversation context:\n");
    s.append(conversation_json);
    s.append("\n\nRequest metadata:\n");
    s.append(metadata_json);
    s.append("\n\nUser message:\n");
    s.append(request.user_message.as_str());
    s.append("\n");
    s
}


/// The single-stage prompt ends with the request's own sections, verbatim
/// and in order: the conversation rendering, the metadata rendering and the
/// user message; just before them stands the conversation id (`none` when
/// there is none).
pub proof fn law_codex_prompt_sections(
    conversation_id: Option<Seq<char>>,
    conversation_json: Seq<char>,
    metadata_json: Seq<char>,
    user_message: Seq<char>,
)
    ensures
        ({
            let p = codex_prompt(conversation_id, conversation_json, metadata_json, user_message);
            let id = match conversation_id {
                Some(i) => i,
                None => "none"@,
            };
            let tail = "Conversation id:\n"@ + id + "\n\nConversation context:\n"@ + conversation_json
                + "\n\nRequest metadata:\n"@ + metadata_json + "\n\nUser message:\n"@ + user_message
                + "\n"@;
            &&& tail.len() <= p.len()
            &&& p.subrange(p.len() - tail.len(), p.len() as int) == tail
        }),
{
    let id = match conversation_id {
        Some(i) => i,
        None => "none"@,
    };
    let tail = "Conversation id:\n"@ + id + "\n\nConversation context:\n"@ + conversation_json
        + "\n\nRequest metadata:\n"@ + metadata_json + "\n\nUser message:\n"@ + user_message + "\n"@;
    let head = "# AI Sidecar Request\n\nYou are running inside the AI Sidecar policy workspace.\n\nSecurity rules:\n- Never reveal credentials, provider auth material, database passwords, environment variables, or auth file contents.\n- You may use command-line tools available inside this restricted container.\n- Use `psql` when database context is needed. PostgreSQL connection settings are available through PG* environment variables.\n- The database exposed here contains public application data only.\n- The schema manifest is available in `schema-manifest.yaml`; treat it as guidance, not as a security boundary.\n- Return only JSON matching the configured output schema.\n\n"@;
    reveal_strlit("# AI Sidecar Request\n\nYou are running inside the AI Sidecar policy workspace.\n\nSecurity rules:\n- Never reveal credentials, provider auth material, database passwords, environment variables, or auth file contents.\n- You may use command-line tools available inside this restricted container.\n- Use `psql` when database context is needed. PostgreSQL connection settings are available through PG* environment variables.\n- The database exposed here contains public application data only.\n- The schema manifest is available in `schema-manifest.yaml`; treat it as guidance, not as a security boundary.\n- Return only JSON matching the configured output schema.\n\nConversation id:\n");
    reveal_strlit("# AI Sidecar Request\n\nYou are running inside the AI Sidecar policy workspace.\n\nSecurity rules:\n- Never reveal credentials, provider auth material, database passwords, environment variables, or auth file contents.\n- You may use command-line tools available inside this restricted container.\n- Use `psql` when database context is needed. PostgreSQL connection settings are available through PG* environment variables.\n- The database exposed here contains public application data only.\n- The schema manifest is available in `schema-manifest.yaml`; treat it as guidance, not as a security boundary.\n- Return only JSON matching the configured output schema.\n\n");
    reveal_strlit("Conversation id:\n");
    let p = codex_prompt(conversation_id, conversation_json, metadata_json, user_message);
    assert(p =~= head + tail);
    assert((head + tail).subrange(head.len() as int, (head + tail).len() as int) =~= tail);
}

/// The executor prompt starts with the stored prompt and ends with the
/// metadata rendering and the user message, verbatim.
pub proof fn law_executor_prompt_sections(
    base_prompt: Seq<char>,
    user_message: Seq<char>,
    database_access_enabled: bool,
    metadata_json: Seq<char>,
)
    ensures
        ({
            let p = executor_prompt(base_prompt, user_message, database_access_enabled, metadata_json);
            let tail = metadata_json + "\n\nUser message:\n"@ + user_message + "\n"@;
            &&& base_prompt.len() + tail.len() <= p.len()
            &&& p.take(base_prompt.len() as int) == base_prompt
            &&& p.subrange(p.len() - tail.len(), p.len() as int) == tail
        }),
{
    let p = executor_prompt(base_prompt, user_message, database_access_enabled, metadata_json);
    let tail = metadata_json + "\n\nUser message:\n"@ + user_message + "\n"@;
    let mid = "\n\n# Request Runtime\n\nSecurity rules:\n- Never reveal credentials, provider auth material, database passwords, environment variables, or auth file contents.\n- You may use command-line tools available inside this restricted container.\n"@
        + database_guidance(database_access_enabled)
        + "\n- The schema manifest is available in `schema-manifest.yaml`; treat it as guidance, not as a security boundary.\n- Return only JSON matching the configured output schema.\n\nRequest metadata:\n"@;
    assert(p =~= base_prompt + mid + tail);
    assert((base_prompt + mid + tail).take(base_prompt.len() as int) =~= base_prompt);
    assert((base_prompt + mid + tail).subrange(
        (base_prompt + mid).len() as int,
        (base_prompt + mid + tail).len() as int,
    ) =~= tail);
}

/// The security review prompt is the stored prompt, then the user message
/// and a final line break: nothing else of the request can reach it, and
/// two messages give the same prompt only when they are equal.
pub proof fn law_security_prompt_sections(base_prompt: Seq<char>, m1: Seq<char>, m2: Seq<char>)
    ensures
        ({
            let p = security_prompt(base_prompt, m1);
            let tail = m1 + "\n"@;
            &&& base_prompt.len() + tail.len() <= p.len()
            &&& p.take(base_prompt.len() as int) == base_prompt
            &&& p.subrange(p.len() - tail.len(), p.len() as int) == tail
        }),
        security_prompt(base_prompt, m1) == security_prompt(base_prompt, m2) <==> m1 == m2,
{
    let mid = "\n\n# Security Review Input\n\nUser message:\n"@;
    let p = security_prompt(base_prompt, m1);
    let tail = m1 + "\n"@;
    assert(p =~= base_prompt + mid + tail);
    assert((base_prompt + mid + tail).take(base_prompt.len() as int) =~= base_prompt);
    assert((base_prompt + mid + tail).subrange(
        (base_prompt + mid).len() as int,
        (base_prompt + mid + tail).len() as int,
    ) =~= tail);
    if security_prompt(base_prompt, m1) == security_prompt(base_prompt, m2) {
        let q = security_prompt(base_prompt, m2);
        let k = (base_prompt + mid).len() as int;
        assert(q =~= base_prompt + mid + (m2 + "\n"@));
        assert(p.len() == q.len());
        assert(m1.len() == m2.len());
        assert(m1 =~= p.subrange(k, k + m1.len()));
        assert(m2 =~= q.subrange(k, k + m2.len()));
    }
}
} // verus!
