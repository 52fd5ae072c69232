//! Running the provider CLI: the command it is started with, and the checks
//! its output passes before anything of it is used.

use std::sync::Arc;

use vstd::prelude::*;
use vstd::string::StringExecFns;
use vstd::utf8::{decode_utf8, valid_utf8};

use crate::config::CodexConfig;
use crate::secret_filter::{
    detects, scan_finds, scan_label, scan_outcome, PatternView, SecretDetection, SecretFilter,
};
use crate::text::{pairs_view, strip_ascii_ws, trim};

verus! {

/// Declares `serde_json::Error`, carried unchanged inside provider errors.
#[verifier::external_type_specification]
#[verifier::external_body]
pub struct ExJsonError(serde_json::Error);

#[derive(Debug, Clone)]
pub struct CodexJsonResult<T> {
    pub output: T,
    pub stats: ProviderRunStats,
}

#[derive(Debug, Clone, Copy)]
pub struct ProviderRunStats {
    pub duration_ms: u128,
    pub stdout_bytes: usize,
    pub stderr_bytes: usize,
}

#[derive(Debug)]
pub enum ProviderError {
    Prompt(serde_json::Error),
    Spawn(std::io::Error),
    WritePrompt(std::io::Error),
    Timeout,
    ProcessFailed { code: Option<i32>, stdout_bytes: usize, stderr_bytes: usize },
    SecretDetected { stream: &'static str, detection: SecretDetection },
    InvalidOutput(serde_json::Error),
}

/// How the provider process is started: the program, its arguments, its
/// working directory, and its whole environment (nothing is inherited).
#[derive(Debug, Clone)]
pub struct CommandPlan {
    pub program: String,
    pub args: Vec<String>,
    pub current_dir: String,
    pub env: Vec<(String, String)>,
}

/// What a finished provider process left behind.
#[derive(Debug, Clone)]
pub struct ProcessOutput {
    pub stdout: Vec<u8>,
    pub stderr: Vec<u8>,
    pub success: bool,
    pub code: Option<i32>,
}

#[derive(Debug, Clone)]
pub struct CodexRunner {
    config: CodexConfig,
    secret_filter: Arc<SecretFilter>,
    extra_env: Vec<(String, String)>,
}

/// What `String::from_utf8_lossy` makes of `bytes`.
pub uninterp spec fn utf8_lossy(bytes: Seq<u8>) -> Seq<char>;

/// Calls `String::from_utf8_lossy` and takes ownership of the result.
/// Trusted: the text is a function of the bytes alone, named `utf8_lossy`;
/// for valid UTF-8 it is exactly the decoded text (std documents that valid
/// input is returned unchanged; invalid sequences become U+FFFD).
#[verifier::external_body]
pub(crate) fn text_from_bytes(bytes: &[u8]) -> (res: String)
    ensures
        res@ == utf8_lossy(bytes@),
        valid_utf8(bytes@) ==> res@ == decode_utf8(bytes@),
{
    String::from_utf8_lossy(bytes).into_owned()
}

/// The arguments the provider CLI runs with.
pub open spec fn command_args_spec(config: CodexConfig) -> Seq<Seq<char>> {
    seq![
        "exec"@,
        "--sandbox"@,
        config.sandbox@,
        "--ask-for-approval"@,
        "never"@,
        "--ephemeral"@,
        "--skip-git-repo-check"@,
        "--ignore-user-config"@,
        "--color"@,
        "never"@,
        "--cd"@,
        config.policy_workspace@,
        "--output-schema"@,
        config.response_schema_path@,
    ] + match config.model {
        Some(m) => seq!["--model"@, m@],
        None => seq![],
    } + seq!["-"@]
}

/// The fixed part of the provider's environment.
pub open spec fn base_env_spec(config: CodexConfig) -> Seq<PatternView> {
    seq![
        ("PATH"@, config.path_env@),
        ("TERM"@, "dumb"@),
        ("NO_COLOR"@, "1"@),
        ("HOME"@, "/tmp/agent-sidecar-home"@),
    ] + match config.codex_home {
        Some(h) => seq![("CODEX_HOME"@, h@)],
        None => seq![],
    }
}

/// The last `{` ... `}` span of `s`: from the last `{` before the last `}`
/// through that `}`.
pub open spec fn last_json_object_spec(s: Seq<char>) -> Option<Seq<char>> {
    match last_index_of(s, '}') {
        None => None,
        Some(e) => match last_index_of(s.take(e + 1), '{') {
            None => None,
            Some(b) => Some(s.subrange(b, e + 1)),
        },
    }
}

/// The position of the last `c` in `s`.
pub open spec fn last_index_of(s: Seq<char>, c: char) -> Option<int>
    decreases s.len(),
{
    if s.len() == 0 {
        None
    } else if s.last() == c {
        Some(s.len() - 1)
    } else {
        last_index_of(s.drop_last(), c)
    }
}

proof fn lemma_last_index_of(s: Seq<char>, c: char, k: int)
    requires
        0 <= k <= s.len(),
        forall|j: int| k <= j < s.len() ==> s[j] != c,
    ensures
        last_index_of(s, c) == last_index_of(s.take(k), c),
    decreases s.len() - k,
{
    if k < s.len() {
        assert(s.drop_last().take(k) =~= s.take(k));
        lemma_last_index_of(s.drop_last(), c, k);
    } else {
        assert(s.take(k) =~= s);
    }
}

/// Searches backwards from `end` for `c`.
fn find_last(chars: &Vec<char>, end: usize, c: char) -> (res: Option<usize>)
    requires
        end <= chars.len(),
    ensures
        res matches Some(i) ==> i < end,
        match res {
            Some(i) => last_index_of(chars@.take(end as int), c) == Some(i as int),
            None => last_index_of(chars@.take(end as int), c) is None,
        },
{
    let mut k = end;
    while k > 0
        invariant
            k <= end <= chars.len(),
            forall|j: int| k <= j < end ==> chars@[j] != c,
        decreases k,
    {
        if chars[k - 1] == c {
            proof {
                let s = chars@.take(end as int);
                lemma_last_index_of(s, c, k as int);
                assert(s.take(k as int).last() == c);
            }
            return Some(k - 1);
        }
        k -= 1;
    }
    proof {
        lemma_last_index_of(chars@.take(end as int), c, 0);
    }
    None
}

/// The last `{` ... `}` span of `value`, where a provider wrapped its JSON
/// answer in other text.
pub fn last_json_object(value: &str) -> (res: Option<String>)
    ensures
        match res {
            Some(o) => last_json_object_spec(value@) == Some(o@),
            None => last_json_object_spec(value@) is None,
        },
{
    let chars = crate::text::chars_of(value);
    assert(chars@.take(chars.len() as int) =~= chars@);
    let end = match find_last(&chars, chars.len(), '}') {
        Some(e) => e,
        None => return None,
    };
    assert(chars@.take(end + 1) =~= value@.take(end + 1));
    let start = match find_last(&chars, end + 1, '{') {
        Some(b) => b,
        None => return None,
    };
    Some(crate::secret_filter::substring(&chars, start, end + 1))
}

/// The two readings of the provider's standard output, tried in order: the
/// whole trimmed text, then its last `{` ... `}` span (or the trimmed text
/// again when it has none).
pub fn provider_output_candidates(stdout: &str) -> (res: (String, String))
    ensures
        res.0@ == trim(stdout@),
        res.1@ == match last_json_object_spec(trim(stdout@)) {
            Some(o) => o,
            None => trim(stdout@),
        },
{
    let trimmed = crate::text::trim_str(stdout);
    let fallback = match last_json_object(trimmed.as_str()) {
        Some(o) => o,
        None => trimmed.clone(),
    };
    (trimmed, fallback)
}

/// The provider's parsed answer from the parses of its two readings (see
/// `provider_output_candidates`): the whole output's when that parse
/// succeeds, else the fallback's, whose error is reported as invalid output
/// when it fails too.
pub fn choose_parse<T>(
    whole: Result<T, serde_json::Error>,
    fallback: Result<T, serde_json::Error>,
) -> (res: Result<T, ProviderError>)
    ensures
        match whole {
            Ok(v) => res == Ok::<T, ProviderError>(v),
            Err(_) => match fallback {
                Ok(v) => res == Ok::<T, ProviderError>(v),
                Err(e) => res == Err::<T, ProviderError>(ProviderError::InvalidOutput(e)),
            },
        },
{
    match whole {
        Ok(v) => Ok(v),
        Err(_) => match fallback {
            Ok(v) => Ok(v),
            Err(e) => Err(ProviderError::InvalidOutput(e)),
        },
    }
}

impl CodexRunner {
    /// The protected renderings this runner checks provider output against.
    pub closed spec fn protected(&self) -> Seq<PatternView> {
        self.secret_filter@
    }

    pub closed spec fn settings(&self) -> CodexConfig {
        self.config
    }

    pub closed spec fn extra_env_spec(&self) -> Seq<PatternView> {
        pairs_view(self.extra_env@)
    }

    pub fn new(
        config: CodexConfig,
        secret_filter: Arc<SecretFilter>,
        extra_env: Vec<(String, String)>,
    ) -> (res: Self)
        ensures
            res.protected() == secret_filter@,
            res.settings() == config,
            res.extra_env_spec() == pairs_view(extra_env@),
    {
        CodexRunner { config, secret_filter, extra_env }
    }

    pub fn config(&self) -> (res: &CodexConfig)
        ensures
            *res == self.settings(),
    {
        &self.config
    }

    /// The command the provider runs as: `exec` in the configured sandbox,
    /// never asking for approval, ephemeral, rooted at the policy workspace,
    /// with the configured output schema and model, reading its prompt from
    /// standard input; with a cleared environment holding only the fixed
    /// variables, `CODEX_HOME` when configured, and the extra variables.
    pub fn build_command(&self) -> (res: CommandPlan)
        ensures
            res.program@ == self.settings().command@,
            res.args@.map_values(|a: String| a@) == command_args_spec(self.settings()),
            res.current_dir@ == self.settings().policy_workspace@,
            pairs_view(res.env@) == base_env_spec(self.settings()) + self.extra_env_spec(),
    {
        let c = &self.config;
        let mut args: Vec<String> = Vec::new();
        args.push(String::from_str("exec"));
        args.push(String::from_str("--sandbox"));
        args.push(c.sandbox.clone());
        args.push(String::from_str("--ask-for-approval"));
        args.push(String::from_str("never"));
        args.push(String::from_str("--ephemeral"));
        args.push(String::from_str("--skip-git-repo-check"));
        args.push(String::from_str("--ignore-user-config"));
        args.push(String::from_str("--color"));
        args.push(String::from_str("never"));
        args.push(String::from_str("--cd"));
        args.push(c.policy_workspace.clone());
        args.push(String::from_str("--output-schema"));
        args.push(c.response_schema_path.clone());
        if let Some(model) = &c.model {
            args.push(String::from_str("--model"));
            args.push(model.clone());
        }
        args.push(String::from_str("-"));
        assert(args@.map_values(|a: String| a@) =~= command_args_spec(self.config));

        let mut env: Vec<(String, String)> = Vec::new();
        env.push((String::from_str("PATH"), c.path_env.clone()));
        env.push((String::from_str("TERM"), String::from_str("dumb")));
        env.push((String::from_str("NO_COLOR"), String::from_str("1")));
        env.push((String::from_str("HOME"), String::from_str("/tmp/agent-sidecar-home")));
        if let Some(home) = &c.codex_home {
            env.push((String::from_str("CODEX_HOME"), home.clone()));
        }
        let ghost base = pairs_view(env@);
        assert(base =~= base_env_spec(self.config));
        let mut i: usize = 0;
        while i < self.extra_env.len()
            invariant
                i <= self.extra_env.len(),
                pairs_view(env@) == base + pairs_view(self.extra_env@).take(i as int),
            decreases self.extra_env.len() - i,
        {
            let ghost before = pairs_view(env@);
            env.push((self.extra_env[i].0.clone(), self.extra_env[i].1.clone()));
            assert(pairs_view(env@) =~= before.push(pairs_view(self.extra_env@)[i as int]));
            assert(pairs_view(self.extra_env@).take(i + 1) =~= pairs_view(self.extra_env@).take(
                i as int,
            ).push(pairs_view(self.extra_env@)[i as int]));
            i += 1;
        }
        assert(pairs_view(self.extra_env@).take(self.extra_env.len() as int) =~= pairs_view(
            self.extra_env@,
        ));
        CommandPlan {
            program: c.command.clone(),
            args,
            current_dir: c.policy_workspace.clone(),
            env,
        }
    }

    /// Checks a finished provider run before its output is used, failing
    /// closed: a protected secret in standard output, then in standard
    /// error, is reported whatever the exit status; otherwise a failed
    /// process is reported with its exit code and output sizes; otherwise
    /// the standard output text is handed on.
    pub fn check_output(&self, output: &ProcessOutput) -> (res: Result<String, ProviderError>)
        ensures
            ({
                let out = utf8_lossy(output.stdout@);
                let err = utf8_lossy(output.stderr@);
                let pats = self.protected();
                &&& scan_finds(pats, out) ==> (res matches Err(
                    ProviderError::SecretDetected { stream, detection },
                ) && stream@ == "stdout"@ && scan_outcome(pats, out, Some(detection))
                    && scan_label(pats, out) == Some(detection.label@))
                &&& !scan_finds(pats, out) && scan_finds(pats, err) ==> (res matches Err(
                    ProviderError::SecretDetected { stream, detection },
                ) && stream@ == "stderr"@ && scan_outcome(pats, err, Some(detection))
                    && scan_label(pats, err) == Some(detection.label@))
                &&& !scan_finds(pats, out) && !scan_finds(pats, err) && !output.success ==> (res
                    matches Err(ProviderError::ProcessFailed { code, stdout_bytes, stderr_bytes })
                    && code == output.code && stdout_bytes == output.stdout.len() && stderr_bytes
                    == output.stderr.len())
                &&& !scan_finds(pats, out) && !scan_finds(pats, err) && output.success ==> (res
                    matches Ok(s) && s@ == out)
            }),
    {
        let stdout = text_from_bytes(output.stdout.as_slice());
        let stderr = text_from_bytes(output.stderr.as_slice());
        if let Some(detection) = self.secret_filter.scan_text(stdout.as_str()) {
            return Err(ProviderError::SecretDetected { stream: "stdout", detection });
        }
        if let Some(detection) = self.secret_filter.scan_text(stderr.as_str()) {
            return Err(ProviderError::SecretDetected { stream: "stderr", detection });
        }
        if !output.success {
            return Err(
                ProviderError::ProcessFailed {
                    code: output.code,
                    stdout_bytes: output.stdout.len(),
                    stderr_bytes: output.stderr.len(),
                },
            );
        }
        Ok(stdout)
    }

    /// Packages a parsed provider answer with the run's statistics.
    pub fn finish<T>(output: T, duration_ms: u128, run: &ProcessOutput) -> (res: CodexJsonResult<T>)
        ensures
            res.output == output,
            res.stats.duration_ms == duration_ms,
            res.stats.stdout_bytes == run.stdout.len(),
            res.stats.stderr_bytes == run.stderr.len(),
    {
        CodexJsonResult {
            output,
            stats: ProviderRunStats {
                duration_ms,
                stdout_bytes: run.stdout.len(),
                stderr_bytes: run.stderr.len(),
            },
        }
    }
}

/// The provider process sees only the fixed variables (`PATH`, `TERM`,
/// `NO_COLOR`, `HOME`), `CODEX_HOME` when configured, and the extra
/// variables the runner was built with; in particular a database password
/// reaches it only when it was handed over as an extra variable.
pub proof fn law_provider_env_only_configured(runner: CodexRunner, plan: CommandPlan, i: int)
    requires
        pairs_view(plan.env@) == base_env_spec(runner.settings()) + runner.extra_env_spec(),
        0 <= i < plan.env.len(),
    ensures
        ({
            let e = pairs_view(plan.env@)[i];
            ||| e.0 == "PATH"@ || e.0 == "TERM"@ || e.0 == "NO_COLOR"@ || e.0 == "HOME"@
            ||| e.0 == "CODEX_HOME"@ && runner.settings().codex_home is Some
            ||| runner.extra_env_spec().contains(e)
        }),
{
    let c = runner.settings();
    let fixed = seq![
        ("PATH"@, c.path_env@),
        ("TERM"@, "dumb"@),
        ("NO_COLOR"@, "1"@),
        ("HOME"@, "/tmp/agent-sidecar-home"@),
    ];
    let b = base_env_spec(c);
    let x = runner.extra_env_spec();
    let all = pairs_view(plan.env@);
    assert(all.len() == plan.env.len());
    assert(all =~= b + x);
    if i >= b.len() {
        assert(all[i] == x[i - b.len()]);
        assert(x.contains(all[i]));
    } else if i < 4 {
        assert(b[i] == fixed[i]);
    } else {
        assert(c.codex_home is Some);
        assert(b[i] == ("CODEX_HOME"@, c.codex_home->Some_0@));
    }
}

} // verus!
