//! Runtime configuration decoded from a snapshot of the process environment.

use vstd::prelude::*;
use vstd::string::StringExecFns;
use core::time::Duration;

use crate::text::{decimal, trim, trim_str};

pub mod ai;
pub mod env;

use self::env::{env_get, EnvVars};

verus! {

/// Variables whose presence means API-billed model access; this service only
/// runs with subscription CLI auth.
pub open spec fn api_billing_keys() -> Seq<Seq<char>> {
    seq!["OPENAI_API_KEY"@, "ANTHROPIC_API_KEY"@, "ANTHROPIC_AUTH_TOKEN"@, "CLAUDE_API_KEY"@]
}

/// The whole seconds of a duration (what `Duration::as_secs` reports).
pub uninterp spec fn duration_secs(d: Duration) -> u64;

/// The nanoseconds past the whole seconds of a duration (what
/// `Duration::subsec_nanos` reports). With `duration_secs` it fixes the
/// whole duration.
pub uninterp spec fn duration_subsec_nanos(d: Duration) -> u32;

/// Calls `Duration::from_secs`.
/// Trusted: the duration holds exactly `secs` whole seconds and no
/// fractional part (std documents `from_secs` as `secs` seconds and zero
/// nanoseconds).
#[verifier::external_body]
pub(crate) fn duration_from_secs(secs: u64) -> (res: Duration)
    ensures
        duration_secs(res) == secs,
        duration_subsec_nanos(res) == 0,
{
    Duration::from_secs(secs)
}

/// `Duration` is `Copy`; its `clone` returns the same value.
pub assume_specification[ <Duration as Clone>::clone ](d: &Duration) -> (res: Duration)
    ensures
        res == *d,
;

#[derive(Debug, Clone)]
pub struct CodexConfig {
    pub command: String,
    pub model: Option<String>,
    pub timeout: Duration,
    pub policy_workspace: String,
    pub response_schema_path: String,
    pub codex_home: Option<String>,
    pub sandbox: String,
    pub path_env: String,
}

#[derive(Clone)]
pub struct PostgresConfig {
    pub host: String,
    pub port: u16,
    pub database: String,
    pub user: String,
    pub password: String,
    pub sslmode: Option<String>,
}

#[derive(Debug, Clone)]
pub struct SecretFilterConfig {
    pub secret_file_paths: Vec<String>,
    pub canary_secrets: Vec<String>,
}

#[derive(Debug)]
pub enum ConfigError {
    InvalidValue { key: &'static str, message: String },
    MissingEnv(&'static str),
    ApiBillingEnvPresent(&'static str),
}

/// The accepted `PGSSLMODE` values.
#[derive(Debug, Clone, Copy, PartialEq, Eq)]
pub enum SslMode {
    Disable,
    Prefer,
    Require,
    VerifyCa,
    VerifyFull,
}

/// Why a decimal field did not parse, as `core::num::IntErrorKind` names it.
#[derive(Debug, Clone, Copy, PartialEq, Eq)]
pub enum IntParseError {
    Empty,
    InvalidDigit,
    PosOverflow,
}

// ---------------------------------------------------------------------------
// Reading variables
// ---------------------------------------------------------------------------

/// A variable that is set to something other than whitespace.
pub open spec fn optional_value(env: Map<Seq<char>, Seq<char>>, key: Seq<char>) -> Option<Seq<char>> {
    if env.contains_key(key) && trim(env[key]).len() > 0 {
        Some(env[key])
    } else {
        None
    }
}

/// The value of `key` unless it is unset or blank.
pub fn optional_env(env: &EnvVars, key: &str) -> (res: Option<String>)
    requires
        env.wf(),
    ensures
        res matches Some(v) ==> optional_value(env@, key@) == Some(v@),
        res is None ==> optional_value(env@, key@) is None,
{
    match env.var(key) {
        Some(value) => {
            let t = trim_str(value.as_str());
            if t.as_str().is_empty() {
                None
            } else {
                Some(value)
            }
        },
        None => None,
    }
}

/// The value of `key`; an error naming `key` when it is unset or blank.
pub fn required_env(env: &EnvVars, key: &'static str) -> (res: Result<String, ConfigError>)
    requires
        env.wf(),
    ensures
        res matches Ok(v) ==> optional_value(env@, key@) == Some(v@),
        res is Err <==> optional_value(env@, key@) is None,
        res matches Err(e) ==> e matches ConfigError::MissingEnv(k) && k == key,
{
    match optional_env(env, key) {
        Some(v) => Ok(v),
        None => Err(ConfigError::MissingEnv(key)),
    }
}

/// The value of `key`, or `default` when it is unset or blank.
pub open spec fn value_or(env: Map<Seq<char>, Seq<char>>, key: Seq<char>, default: Seq<char>) -> Seq<char> {
    match optional_value(env, key) {
        Some(v) => v,
        None => default,
    }
}

pub fn env_or(env: &EnvVars, key: &str, default: &str) -> (res: String)
    requires
        env.wf(),
    ensures
        res@ == value_or(env@, key@, default@),
{
    match optional_env(env, key) {
        Some(v) => v,
        None => String::from_str(default),
    }
}

/// Like `env_or`, for a filesystem path.
pub fn path_env_or(env: &EnvVars, key: &str, default: &str) -> (res: String)
    requires
        env.wf(),
    ensures
        res@ == value_or(env@, key@, default@),
{
    env_or(env, key, default)
}

/// The comma-separated parts of `s`, each trimmed, blank ones dropped.
pub open spec fn comma_parts(s: Seq<char>) -> Seq<Seq<char>> {
    trimmed_nonblank(comma_pieces(s))
}

/// The pieces trimmed, blank ones dropped.
pub open spec fn trimmed_nonblank(pieces: Seq<Seq<char>>) -> Seq<Seq<char>> {
    pieces.map_values(|p: Seq<char>| trim(p)).filter(|p: Seq<char>| p.len() > 0)
}

proof fn lemma_trimmed_nonblank_push(x: Seq<Seq<char>>, e: Seq<char>)
    ensures
        trimmed_nonblank(x.push(e)) == (if trim(e).len() > 0 {
            trimmed_nonblank(x).push(trim(e))
        } else {
            trimmed_nonblank(x)
        }),
{
    reveal_with_fuel(Seq::<_>::filter, 1);
    let m = x.push(e).map_values(|p: Seq<char>| trim(p));
    assert(m =~= x.map_values(|p: Seq<char>| trim(p)).push(trim(e)));
    assert(m.drop_last() =~= x.map_values(|p: Seq<char>| trim(p)));
}

/// The pieces of `s` between commas, as `str::split(',')` yields them.
pub open spec fn comma_pieces(s: Seq<char>) -> Seq<Seq<char>>
    decreases s.len(),
{
    if s.len() == 0 {
        seq![seq![]]
    } else {
        let p = comma_pieces(s.drop_last());
        if s.last() != ',' {
            p.update(p.len() - 1, p.last().push(s.last()))
        } else {
            p.push(seq![])
        }
    }
}

/// The list held by `key`: empty when unset or blank, else its comma parts.
pub open spec fn list_value(env: Map<Seq<char>, Seq<char>>, key: Seq<char>) -> Seq<Seq<char>> {
    match optional_value(env, key) {
        Some(v) => comma_parts(v),
        None => seq![],
    }
}

proof fn lemma_comma_pieces_nonempty(s: Seq<char>)
    ensures
        comma_pieces(s).len() >= 1,
    decreases s.len(),
{
    if s.len() > 0 {
        lemma_comma_pieces_nonempty(s.drop_last());
    }
}

/// Splits `value` at commas, trims the parts and drops blank ones.
pub fn split_list(value: &str) -> (res: Vec<String>)
    ensures
        res@.map_values(|p: String| p@) == comma_parts(value@),
{
    let chars = crate::text::chars_of(value);
    let mut res: Vec<String> = Vec::new();
    let mut cur: Vec<char> = Vec::new();
    let mut i: usize = 0;
    assert(chars@.take(0) =~= Seq::<char>::empty());
    assert(trimmed_nonblank(Seq::<Seq<char>>::empty()) =~= Seq::<Seq<char>>::empty());
    while i < chars.len()
        invariant
            i <= chars.len(),
            chars@ == value@,
            res@.map_values(|p: String| p@) == trimmed_nonblank(comma_pieces(chars@.take(i as int)).drop_last()),
            cur@ == comma_pieces(chars@.take(i as int)).last(),
        decreases chars.len() - i,
    {
        let c = chars[i];
        let ghost pre = chars@.take(i as int);
        let ghost p = comma_pieces(pre);
        proof {
            lemma_comma_pieces_nonempty(pre);
            assert(chars@.take(i + 1).drop_last() =~= pre);
            assert(chars@.take(i + 1).last() == c);
        }
        if c != ',' {
            cur.push(c);
            assert(p.update(p.len() - 1, p.last().push(c)).drop_last() =~= p.drop_last());
        } else {
            proof {
                assert(p.push(seq![]).drop_last() =~= p);
                assert(p =~= p.drop_last().push(p.last()));
                lemma_trimmed_nonblank_push(p.drop_last(), p.last());
            }
            let t = crate::text::trim_chars(&cur);
            if t.len() > 0 {
                let ghost before = res@.map_values(|q: String| q@);
                res.push(crate::text::string_from_chars(&t));
                assert(res@.map_values(|q: String| q@) =~= before.push(t@));
            }
            cur = Vec::new();
        }
        i += 1;
    }
    proof {
        let p = comma_pieces(chars@);
        assert(chars@.take(chars.len() as int) =~= chars@);
        lemma_comma_pieces_nonempty(chars@);
        assert(p =~= p.drop_last().push(p.last()));
        lemma_trimmed_nonblank_push(p.drop_last(), p.last());
    }
    let t = crate::text::trim_chars(&cur);
    if t.len() > 0 {
        let ghost before = res@.map_values(|q: String| q@);
        res.push(crate::text::string_from_chars(&t));
        assert(res@.map_values(|q: String| q@) =~= before.push(t@));
    }
    res
}

/// The comma-separated list held by `key`.
pub fn split_values(env: &EnvVars, key: &str) -> (res: Vec<String>)
    requires
        env.wf(),
    ensures
        res@.map_values(|p: String| p@) == list_value(env@, key@),
{
    match optional_env(env, key) {
        Some(v) => split_list(v.as_str()),
        None => {
            let res: Vec<String> = Vec::new();
            assert(res@.map_values(|p: String| p@) =~= list_value(env@, key@));
            res
        },
    }
}

/// The comma-separated list of paths held by `key`.
pub fn split_paths(env: &EnvVars, key: &str) -> (res: Vec<String>)
    requires
        env.wf(),
    ensures
        res@.map_values(|p: String| p@) == list_value(env@, key@),
{
    split_values(env, key)
}

} // verus!

verus! {

// ---------------------------------------------------------------------------
// Numbers
// ---------------------------------------------------------------------------

pub open spec fn is_decimal_digit(c: char) -> bool {
    '0' <= c <= '9'
}

pub open spec fn digit_value(c: char) -> nat {
    ((c as u32) - ('0' as u32)) as nat
}

/// Reads decimal digits after the value `acc` read so far, as
/// `from_str_radix` does: a non-digit fails as an invalid digit, a value
/// above `max` as an overflow, whichever comes first.
pub open spec fn parse_digits(ds: Seq<char>, acc: nat, max: nat) -> Result<nat, IntParseError>
    decreases ds.len(),
{
    if ds.len() == 0 {
        Ok(acc)
    } else if !is_decimal_digit(ds[0]) {
        Err(IntParseError::InvalidDigit)
    } else if acc * 10 + digit_value(ds[0]) > max {
        Err(IntParseError::PosOverflow)
    } else {
        parse_digits(ds.drop_first(), acc * 10 + digit_value(ds[0]), max)
    }
}

/// What `FromStr` for an unsigned integer type with largest value `max`
/// gives: an optional leading `+`, then at least one decimal digit.
pub open spec fn parse_unsigned(s: Seq<char>, max: nat) -> Result<nat, IntParseError> {
    if s.len() == 0 {
        Err(IntParseError::Empty)
    } else if (s[0] == '+' || s[0] == '-') && s.len() == 1 {
        Err(IntParseError::InvalidDigit)
    } else if s[0] == '+' {
        parse_digits(s.drop_first(), 0, max)
    } else {
        parse_digits(s, 0, max)
    }
}

/// The text of `core::num::ParseIntError` for each kind.
pub open spec fn int_error_message(e: IntParseError) -> Seq<char> {
    match e {
        IntParseError::Empty => "cannot parse integer from empty string"@,
        IntParseError::InvalidDigit => "invalid digit found in string"@,
        IntParseError::PosOverflow => "number too large to fit in target type"@,
    }
}

proof fn lemma_parse_digits_bound(ds: Seq<char>, acc: nat, max: nat)
    requires
        acc <= max,
    ensures
        parse_digits(ds, acc, max) matches Ok(v) ==> v <= max,
    decreases ds.len(),
{
    if ds.len() > 0 && is_decimal_digit(ds[0]) && acc * 10 + digit_value(ds[0]) <= max {
        lemma_parse_digits_bound(ds.drop_first(), acc * 10 + digit_value(ds[0]), max);
    }
}

/// Parses an unsigned decimal number no larger than `max`.
pub fn parse_decimal(s: &str, max: u64) -> (res: Result<u64, IntParseError>)
    ensures
        res matches Ok(v) ==> parse_unsigned(s@, max as nat) == Ok::<nat, IntParseError>(v as nat) && v <= max,
        res matches Err(e) ==> parse_unsigned(s@, max as nat) == Err::<nat, IntParseError>(e),
{
    let chars = crate::text::chars_of(s);
    if chars.len() == 0 {
        return Err(IntParseError::Empty);
    }
    if (chars[0] == '+' || chars[0] == '-') && chars.len() == 1 {
        return Err(IntParseError::InvalidDigit);
    }
    let start: usize = if chars[0] == '+' { 1 } else { 0 };
    let ghost ds = if chars[0] == '+' { chars@.drop_first() } else { chars@ };
    assert(ds =~= chars@.skip(start as int));
    let mut acc: u64 = 0;
    let mut i: usize = start;
    while i < chars.len()
        invariant
            start <= i <= chars.len(),
            chars@ == s@,
            acc <= max,
            parse_unsigned(s@, max as nat) == parse_digits(chars@.skip(i as int), acc as nat, max as nat),
        decreases chars.len() - i,
    {
        let c = chars[i];
        let ghost rest = chars@.skip(i as int);
        assert(rest[0] == c);
        assert(rest.drop_first() =~= chars@.skip(i + 1));
        if !('0' <= c && c <= '9') {
            return Err(IntParseError::InvalidDigit);
        }
        let d = (c as u32 - '0' as u32) as u64;
        assert(d as nat == digit_value(c));
        let next = match acc.checked_mul(10) {
            Some(m) => m.checked_add(d),
            None => None,
        };
        match next {
            Some(v) if v <= max => {
                acc = v;
            },
            _ => {
                return Err(IntParseError::PosOverflow);
            },
        }
        i += 1;
    }
    assert(chars@.skip(i as int).len() == 0);
    Ok(acc)
}

/// The text of a parse error, as `ParseIntError`'s `Display` writes it.
pub fn int_error_text(e: IntParseError) -> (res: String)
    ensures
        res@ == int_error_message(e),
{
    match e {
        IntParseError::Empty => String::from_str("cannot parse integer from empty string"),
        IntParseError::InvalidDigit => String::from_str("invalid digit found in string"),
        IntParseError::PosOverflow => String::from_str("number too large to fit in target type"),
    }
}

/// The raw value of `key` (blank included), or `default` when unset.
pub open spec fn raw_or(env: Map<Seq<char>, Seq<char>>, key: Seq<char>, default: Seq<char>) -> Seq<char> {
    if env.contains_key(key) {
        env[key]
    } else {
        default
    }
}

/// What `parse_env` reports for a number no larger than `max`.
pub open spec fn number_setting(
    env: Map<Seq<char>, Seq<char>>,
    key: Seq<char>,
    default: Seq<char>,
    max: nat,
) -> Result<nat, IntParseError> {
    parse_unsigned(raw_or(env, key, default), max)
}

fn parse_env_number(env: &EnvVars, key: &'static str, default: &str, max: u64) -> (res: Result<u64, ConfigError>)
    requires
        env.wf(),
    ensures
        res matches Ok(v) ==> number_setting(env@, key@, default@, max as nat) == Ok::<nat, IntParseError>(v as nat) && v <= max,
        res matches Err(e) ==> exists|k: IntParseError| {
            &&& number_setting(env@, key@, default@, max as nat) == Err::<nat, IntParseError>(k)
            &&& e matches ConfigError::InvalidValue { key: ek, message } && ek == key && message@
                == int_error_message(k)
        },
{
    let raw = match env.var(key) {
        // a variable that is set is parsed as it is, blank or not
        Some(v) => v,
        None => String::from_str(default),
    };
    match parse_decimal(raw.as_str(), max) {
        Ok(v) => Ok(v),
        Err(k) => Err(ConfigError::InvalidValue { key, message: int_error_text(k) }),
    }
}

/// A 16-bit setting (`key`, or `default` when unset).
pub fn parse_env_u16(env: &EnvVars, key: &'static str, default: &str) -> (res: Result<u16, ConfigError>)
    requires
        env.wf(),
    ensures
        res matches Ok(v) ==> number_setting(env@, key@, default@, u16::MAX as nat) == Ok::<nat, IntParseError>(v as nat),
        res matches Err(e) ==> exists|k: IntParseError| {
            &&& number_setting(env@, key@, default@, u16::MAX as nat) == Err::<nat, IntParseError>(k)
            &&& e matches ConfigError::InvalidValue { key: ek, message } && ek == key && message@
                == int_error_message(k)
        },
{
    match parse_env_number(env, key, default, u16::MAX as u64) {
        Ok(v) => Ok(v as u16),
        Err(e) => Err(e),
    }
}

/// A 64-bit setting (`key`, or `default` when unset).
pub fn parse_env_u64(env: &EnvVars, key: &'static str, default: &str) -> (res: Result<u64, ConfigError>)
    requires
        env.wf(),
    ensures
        res matches Ok(v) ==> number_setting(env@, key@, default@, u64::MAX as nat) == Ok::<nat, IntParseError>(v as nat),
        res matches Err(e) ==> exists|k: IntParseError| {
            &&& number_setting(env@, key@, default@, u64::MAX as nat) == Err::<nat, IntParseError>(k)
            &&& e matches ConfigError::InvalidValue { key: ek, message } && ek == key && message@
                == int_error_message(k)
        },
{
    parse_env_number(env, key, default, u64::MAX)
}

} // verus!

verus! {

// ---------------------------------------------------------------------------
// Errors
// ---------------------------------------------------------------------------

/// `res` failed because `key` is unset or blank.
pub open spec fn fails_missing<T>(res: Result<T, ConfigError>, key: Seq<char>) -> bool {
    res matches Err(ConfigError::MissingEnv(k)) && k@ == key
}

/// `res` failed because `key` holds a malformed value, reported as `message`.
pub open spec fn fails_invalid<T>(res: Result<T, ConfigError>, key: Seq<char>, message: Seq<char>) -> bool {
    res matches Err(ConfigError::InvalidValue { key: k, message: m }) && k@ == key && m@ == message
}

impl ConfigError {
    /// The text of the error, as the service reports it.
    pub open spec fn text(&self) -> Seq<char> {
        match self {
            ConfigError::InvalidValue { key, message } => "invalid "@ + key@ + ": "@ + message@,
            ConfigError::MissingEnv(key) => "missing required environment variable "@ + key@,
            ConfigError::ApiBillingEnvPresent(key) => "API-billed model usage is outside this project scope; unset "@
                + key@ + " and use subscription CLI auth"@,
        }
    }

    pub fn message(&self) -> (res: String)
        ensures
            res@ == self.text(),
    {
        match self {
            ConfigError::InvalidValue { key, message } => {
                let mut s = String::from_str("invalid ");
                s.append(key);
                s.append(": ");
                s.append(message.as_str());
                s
            },
            ConfigError::MissingEnv(key) => {
                let mut s = String::from_str("missing required environment variable ");
                s.append(key);
                s
            },
            ConfigError::ApiBillingEnvPresent(key) => {
                let mut s = String::from_str(
                    "API-billed model usage is outside this project scope; unset ",
                );
                s.append(key);
                s.append(" and use subscription CLI auth");
                s
            },
        }
    }
}

/// What the refusal of API-billing variables returns for `env`: success
/// when none of `api_billing_keys` is set (and not blank), else the first
/// one that is.
pub open spec fn billing_refusal(env: Map<Seq<char>, Seq<char>>, res: Result<(), ConfigError>) -> bool {
    &&& res is Ok <==> forall|i: int|
        0 <= i < api_billing_keys().len() ==> optional_value(env, #[trigger] api_billing_keys()[i]) is None
    &&& res matches Err(e) ==> exists|i: int|
        0 <= i < api_billing_keys().len() && optional_value(env, #[trigger] api_billing_keys()[i]) is Some
            && (forall|j: int| 0 <= j < i ==> optional_value(env, #[trigger] api_billing_keys()[j]) is None)
            && (e matches ConfigError::ApiBillingEnvPresent(k) && k@ == api_billing_keys()[i])
}

/// The service refuses exactly `OPENAI_API_KEY`, `ANTHROPIC_API_KEY`,
/// `ANTHROPIC_AUTH_TOKEN` and `CLAUDE_API_KEY`: the check succeeds only when
/// none of them is set, and a refusal names one of them that is set,
/// checked in that order.
pub proof fn law_billing_variables_refused(env: Map<Seq<char>, Seq<char>>, res: Result<(), ConfigError>)
    requires
        billing_refusal(env, res),
    ensures
        res is Ok <==> (optional_value(env, "OPENAI_API_KEY"@) is None && optional_value(
            env,
            "ANTHROPIC_API_KEY"@,
        ) is None && optional_value(env, "ANTHROPIC_AUTH_TOKEN"@) is None && optional_value(
            env,
            "CLAUDE_API_KEY"@,
        ) is None),
        optional_value(env, "CLAUDE_API_KEY"@) is Some ==> res is Err,
        res matches Err(ConfigError::ApiBillingEnvPresent(k)) ==> optional_value(env, k@) is Some
            && (k@ == "OPENAI_API_KEY"@ || k@ == "ANTHROPIC_API_KEY"@ || k@ == "ANTHROPIC_AUTH_TOKEN"@
            || k@ == "CLAUDE_API_KEY"@),
        res matches Err(e) ==> e is ApiBillingEnvPresent,
        optional_value(env, "OPENAI_API_KEY"@) is Some ==> (res matches Err(
            ConfigError::ApiBillingEnvPresent(k),
        ) && k@ == "OPENAI_API_KEY"@),
{
    let keys = api_billing_keys();
    assert(keys[0] == "OPENAI_API_KEY"@);
    assert(keys[1] == "ANTHROPIC_API_KEY"@);
    assert(keys[2] == "ANTHROPIC_AUTH_TOKEN"@);
    assert(keys[3] == "CLAUDE_API_KEY"@);
    assert(keys.len() == 4);
}

/// Refuses to run when any API-billing credential variable is set (and not
/// blank); the error names the first such variable in `api_billing_keys`.
pub fn reject_api_billing_env(env: &EnvVars) -> (res: Result<(), ConfigError>)
    requires
        env.wf(),
    ensures
        billing_refusal(env@, res),
        res is Ok <==> forall|i: int|
            0 <= i < api_billing_keys().len() ==> optional_value(env@, #[trigger] api_billing_keys()[i])
                is None,
        res matches Err(e) ==> exists|i: int|
            0 <= i < api_billing_keys().len() && optional_value(env@, #[trigger] api_billing_keys()[i])
                is Some && (forall|j: int| 0 <= j < i ==> optional_value(env@, #[trigger] api_billing_keys()[j]) is None)
                && (e matches ConfigError::ApiBillingEnvPresent(k) && k@ == api_billing_keys()[i]),
{
    let ghost keys = api_billing_keys();
    if optional_env(env, "OPENAI_API_KEY").is_some() {
        assert(keys[0] == "OPENAI_API_KEY"@);
        return Err(ConfigError::ApiBillingEnvPresent("OPENAI_API_KEY"));
    }
    assert(keys[0] == "OPENAI_API_KEY"@);
    if optional_env(env, "ANTHROPIC_API_KEY").is_some() {
        assert(keys[1] == "ANTHROPIC_API_KEY"@);
        return Err(ConfigError::ApiBillingEnvPresent("ANTHROPIC_API_KEY"));
    }
    assert(keys[1] == "ANTHROPIC_API_KEY"@);
    if optional_env(env, "ANTHROPIC_AUTH_TOKEN").is_some() {
        assert(keys[2] == "ANTHROPIC_AUTH_TOKEN"@);
        return Err(ConfigError::ApiBillingEnvPresent("ANTHROPIC_AUTH_TOKEN"));
    }
    assert(keys[2] == "ANTHROPIC_AUTH_TOKEN"@);
    if optional_env(env, "CLAUDE_API_KEY").is_some() {
        assert(keys[3] == "CLAUDE_API_KEY"@);
        return Err(ConfigError::ApiBillingEnvPresent("CLAUDE_API_KEY"));
    }
    assert(keys[3] == "CLAUDE_API_KEY"@);
    Ok(())
}

// ---------------------------------------------------------------------------
// PostgreSQL
// ---------------------------------------------------------------------------

/// What `format!("{value:?}")` renders for a string: quoted and escaped.
pub uninterp spec fn str_debug(s: Seq<char>) -> Seq<char>;

/// Calls `<str as Debug>::fmt` through `format!`.
/// Trusted: the rendering is a function of the string alone, named
/// `str_debug`.
#[verifier::external_body]
pub(crate) fn debug_quoted(value: &str) -> (res: String)
    ensures
        res@ == str_debug(value@),
{
    format!("{value:?}")
}

/// The TLS mode a `PGSSLMODE` value names, if it names one.
pub open spec fn ssl_mode_named(value: Seq<char>) -> Option<SslMode> {
    if value == "disable"@ {
        Some(SslMode::Disable)
    } else if value == "prefer"@ {
        Some(SslMode::Prefer)
    } else if value == "require"@ {
        Some(SslMode::Require)
    } else if value == "verify-ca"@ {
        Some(SslMode::VerifyCa)
    } else if value == "verify-full"@ {
        Some(SslMode::VerifyFull)
    } else {
        None
    }
}

pub fn parse_ssl_mode(value: &str) -> (res: Result<SslMode, ConfigError>)
    ensures
        res matches Ok(m) ==> ssl_mode_named(value@) == Some(m),
        res is Err <==> ssl_mode_named(value@) is None,
        res is Err ==> fails_invalid(res, "PGSSLMODE"@, "unsupported sslmode "@ + str_debug(value@)),
{
    let v = String::from_str(value);
    if v == String::from_str("disable") {
        Ok(SslMode::Disable)
    } else if v == String::from_str("prefer") {
        Ok(SslMode::Prefer)
    } else if v == String::from_str("require") {
        Ok(SslMode::Require)
    } else if v == String::from_str("verify-ca") {
        Ok(SslMode::VerifyCa)
    } else if v == String::from_str("verify-full") {
        Ok(SslMode::VerifyFull)
    } else {
        let mut message = String::from_str("unsupported sslmode ");
        let quoted = debug_quoted(value);
        message.append(quoted.as_str());
        Err(ConfigError::InvalidValue { key: "PGSSLMODE", message })
    }
}

impl PostgresConfig {
    /// Reads `PGHOST`, `PGPORT` (default 5432), `PGDATABASE`, `PGUSER`,
    /// `PGPASSWORD` and the optional `PGSSLMODE`, stopping at the first
    /// missing or malformed one in that order.
    pub fn from_env(env: &EnvVars) -> (res: Result<Self, ConfigError>)
        requires
            env.wf(),
        ensures
            res matches Ok(c) ==> {
                &&& optional_value(env@, "PGHOST"@) == Some(c.host@)
                &&& number_setting(env@, "PGPORT"@, "5432"@, u16::MAX as nat) == Ok::<nat, IntParseError>(c.port as nat)
                &&& optional_value(env@, "PGDATABASE"@) == Some(c.database@)
                &&& optional_value(env@, "PGUSER"@) == Some(c.user@)
                &&& optional_value(env@, "PGPASSWORD"@) == Some(c.password@)
                &&& match c.sslmode {
                    Some(m) => optional_value(env@, "PGSSLMODE"@) == Some(m@),
                    None => optional_value(env@, "PGSSLMODE"@) is None,
                }
            },
            res is Ok <==> {
                &&& optional_value(env@, "PGHOST"@) is Some
                &&& number_setting(env@, "PGPORT"@, "5432"@, u16::MAX as nat) is Ok
                &&& optional_value(env@, "PGDATABASE"@) is Some
                &&& optional_value(env@, "PGUSER"@) is Some
                &&& optional_value(env@, "PGPASSWORD"@) is Some
            },
            optional_value(env@, "PGHOST"@) is None ==> fails_missing(res, "PGHOST"@),
            optional_value(env@, "PGHOST"@) is Some && number_setting(env@, "PGPORT"@, "5432"@, u16::MAX as nat) is Err
                ==> fails_invalid(res, "PGPORT"@, int_error_message(number_setting(env@, "PGPORT"@, "5432"@, u16::MAX as nat)->Err_0)),
            optional_value(env@, "PGHOST"@) is Some && number_setting(env@, "PGPORT"@, "5432"@, u16::MAX as nat) is Ok
                && optional_value(env@, "PGDATABASE"@) is None ==> fails_missing(res, "PGDATABASE"@),
            optional_value(env@, "PGHOST"@) is Some && number_setting(env@, "PGPORT"@, "5432"@, u16::MAX as nat) is Ok
                && optional_value(env@, "PGDATABASE"@) is Some && optional_value(env@, "PGUSER"@) is None
                ==> fails_missing(res, "PGUSER"@),
            optional_value(env@, "PGHOST"@) is Some && number_setting(env@, "PGPORT"@, "5432"@, u16::MAX as nat) is Ok
                && optional_value(env@, "PGDATABASE"@) is Some && optional_value(env@, "PGUSER"@) is Some
                && optional_value(env@, "PGPASSWORD"@) is None ==> fails_missing(res, "PGPASSWORD"@),
    {
        let host = required_env(env, "PGHOST")?;
        let port = parse_env_u16(env, "PGPORT", "5432")?;
        let database = required_env(env, "PGDATABASE")?;
        let user = required_env(env, "PGUSER")?;
        let password = required_env(env, "PGPASSWORD")?;
        let sslmode = optional_env(env, "PGSSLMODE");
        Ok(PostgresConfig { host, port, database, user, password, sslmode })
    }

    /// The `PG*` variables handed to a provider that may query the database.
    pub open spec fn codex_env_spec(&self) -> Seq<(Seq<char>, Seq<char>)> {
        seq![
            ("PGHOST"@, self.host@),
            ("PGPORT"@, decimal(self.port as nat)),
            ("PGDATABASE"@, self.database@),
            ("PGUSER"@, self.user@),
            ("PGPASSWORD"@, self.password@),
        ] + match self.sslmode {
            Some(m) => seq![("PGSSLMODE"@, m@)],
            None => seq![],
        }
    }

    pub fn codex_env(&self) -> (res: Vec<(String, String)>)
        ensures
            crate::text::pairs_view(res@) == self.codex_env_spec(),
    {
        let mut values: Vec<(String, String)> = Vec::new();
        values.push((String::from_str("PGHOST"), self.host.clone()));
        values.push((String::from_str("PGPORT"), crate::text::decimal_string(self.port as u64)));
        values.push((String::from_str("PGDATABASE"), self.database.clone()));
        values.push((String::from_str("PGUSER"), self.user.clone()));
        values.push((String::from_str("PGPASSWORD"), self.password.clone()));
        if let Some(sslmode) = &self.sslmode {
            values.push((String::from_str("PGSSLMODE"), sslmode.clone()));
        }
        assert(crate::text::pairs_view(values@) =~= self.codex_env_spec());
        values
    }

    /// The settings as the `Debug` rendering shows them, with the password
    /// replaced by `"<redacted>"`.
    pub open spec fn redacted_debug_spec(&self) -> Seq<char> {
        "PostgresConfig { host: "@ + str_debug(self.host@) + ", port: "@ + decimal(self.port as nat)
            + ", database: "@ + str_debug(self.database@) + ", user: "@ + str_debug(self.user@)
            + ", password: \"<redacted>\", sslmode: "@ + match self.sslmode {
            Some(m) => "Some("@ + str_debug(m@) + ")"@,
            None => "None"@,
        } + " }"@
    }

    /// A description safe to log: every field but the password.
    pub fn redacted_debug(&self) -> (res: String)
        ensures
            res@ == self.redacted_debug_spec(),
    {
        let mut s = String::from_str("PostgresConfig { host: ");
        s.append(debug_quoted(self.host.as_str()).as_str());
        s.append(", port: ");
        s.append(crate::text::decimal_string(self.port as u64).as_str());
        s.append(", database: ");
        s.append(debug_quoted(self.database.as_str()).as_str());
        s.append(", user: ");
        s.append(debug_quoted(self.user.as_str()).as_str());
        s.append(", password: \"<redacted>\", sslmode: ");
        match &self.sslmode {
            Some(m) => {
                s.append("Some(");
                s.append(debug_quoted(m.as_str()).as_str());
                s.append(")");
            },
            None => s.append("None"),
        }
        s.append(" }");
        s
    }

    /// The TLS mode to connect with, when `PGSSLMODE` is given.
    pub fn ssl_mode(&self) -> (res: Result<Option<SslMode>, ConfigError>)
        ensures
            self.sslmode is None ==> res == Ok::<Option<SslMode>, ConfigError>(None),
            self.sslmode matches Some(m) ==> (res is Ok <==> ssl_mode_named(m@) is Some),
            self.sslmode matches Some(m) ==> (res matches Ok(r) ==> r == ssl_mode_named(m@)),
            self.sslmode matches Some(m) ==> (ssl_mode_named(m@) is None ==> fails_invalid(
                res,
                "PGSSLMODE"@,
                "unsupported sslmode "@ + str_debug(m@),
            )),
    {
        match &self.sslmode {
            Some(m) => {
                match parse_ssl_mode(m.as_str()) {
                    Ok(mode) => Ok(Some(mode)),
                    Err(e) => Err(e),
                }
            },
            None => Ok(None),
        }
    }
}

// ---------------------------------------------------------------------------
// Provider runtime and secret inventory
// ---------------------------------------------------------------------------

/// `Path::join` of a relative `name` onto `base`.
pub open spec fn path_join(base: Seq<char>, name: Seq<char>) -> Seq<char> {
    if base.len() == 0 || base.last() == '/' {
        base + name
    } else {
        base + "/"@ + name
    }
}

/// Joins a relative file name onto a directory path, as `Path::join` does.
pub fn join_path(base: &str, name: &str) -> (res: String)
    requires
        name@.len() == 0 || name@[0] != '/',
    ensures
        res@ == path_join(base@, name@),
{
    let chars = crate::text::chars_of(base);
    let mut res = String::from_str(base);
    if chars.len() > 0 && chars[chars.len() - 1] != '/' {
        res.append("/");
    }
    res.append(name);
    res
}

impl CodexConfig {
    /// Reads the provider settings: `SIDECAR_CODEX_COMMAND`,
    /// `SIDECAR_CODEX_MODEL`, `SIDECAR_PROVIDER_TIMEOUT_SECONDS` (default
    /// 120), `SIDECAR_POLICY_WORKSPACE`, `SIDECAR_RESPONSE_SCHEMA` (default:
    /// `response.schema.json` in the workspace), `SIDECAR_CODEX_HOME`,
    /// `SIDECAR_CODEX_SANDBOX` and `SIDECAR_CODEX_PATH`.
    pub fn from_env(env: &EnvVars) -> (res: Result<Self, ConfigError>)
        requires
            env.wf(),
        ensures
            res is Ok <==> number_setting(env@, "SIDECAR_PROVIDER_TIMEOUT_SECONDS"@, "120"@, u64::MAX as nat) is Ok,
            res is Err ==> fails_invalid(res, "SIDECAR_PROVIDER_TIMEOUT_SECONDS"@, int_error_message(
                number_setting(env@, "SIDECAR_PROVIDER_TIMEOUT_SECONDS"@, "120"@, u64::MAX as nat)->Err_0,
            )),
            res matches Ok(c) ==> {
                let workspace = value_or(env@, "SIDECAR_POLICY_WORKSPACE"@, "/opt/agent-sidecar/policy"@);
                &&& c.policy_workspace@ == workspace
                &&& c.response_schema_path@ == (if env@.contains_key("SIDECAR_RESPONSE_SCHEMA"@) {
                    env@["SIDECAR_RESPONSE_SCHEMA"@]
                } else {
                    path_join(workspace, "response.schema.json"@)
                })
                &&& c.command@ == value_or(env@, "SIDECAR_CODEX_COMMAND"@, "codex"@)
                &&& match c.model {
                    Some(m) => optional_value(env@, "SIDECAR_CODEX_MODEL"@) == Some(m@),
                    None => optional_value(env@, "SIDECAR_CODEX_MODEL"@) is None,
                }
                &&& number_setting(env@, "SIDECAR_PROVIDER_TIMEOUT_SECONDS"@, "120"@, u64::MAX as nat)
                    == Ok::<nat, IntParseError>(duration_secs(c.timeout) as nat)
                &&& duration_subsec_nanos(c.timeout) == 0
                &&& match c.codex_home {
                    Some(h) => optional_value(env@, "SIDECAR_CODEX_HOME"@) == Some(h@),
                    None => optional_value(env@, "SIDECAR_CODEX_HOME"@) is None,
                }
                &&& c.sandbox@ == value_or(env@, "SIDECAR_CODEX_SANDBOX"@, "read-only"@)
                &&& c.path_env@ == value_or(env@, "SIDECAR_CODEX_PATH"@, "/usr/local/bin:/usr/bin:/bin"@)
            },
    {
        let policy_workspace = path_env_or(env, "SIDECAR_POLICY_WORKSPACE", "/opt/agent-sidecar/policy");
        let response_schema_path = match env.var("SIDECAR_RESPONSE_SCHEMA") {
            Some(p) => p,
            None => {
                proof {
                    reveal_strlit("response.schema.json");
                }
                join_path(policy_workspace.as_str(), "response.schema.json")
            },
        };
        let command = env_or(env, "SIDECAR_CODEX_COMMAND", "codex");
        let model = optional_env(env, "SIDECAR_CODEX_MODEL");
        let seconds = parse_env_u64(env, "SIDECAR_PROVIDER_TIMEOUT_SECONDS", "120")?;
        let timeout = duration_from_secs(seconds);
        let codex_home = optional_env(env, "SIDECAR_CODEX_HOME");
        let sandbox = env_or(env, "SIDECAR_CODEX_SANDBOX", "read-only");
        let path_env = env_or(env, "SIDECAR_CODEX_PATH", "/usr/local/bin:/usr/bin:/bin");
        Ok(CodexConfig {
            command,
            model,
            timeout,
            policy_workspace,
            response_schema_path,
            codex_home,
            sandbox,
            path_env,
        })
    }
}

impl SecretFilterConfig {
    /// Reads the comma-separated `SIDECAR_SECRET_FILE_PATHS` and
    /// `SIDECAR_CANARY_SECRETS`.
    pub fn from_env(env: &EnvVars) -> (res: Self)
        requires
            env.wf(),
        ensures
            res.secret_file_paths@.map_values(|p: String| p@) == list_value(
                env@,
                "SIDECAR_SECRET_FILE_PATHS"@,
            ),
            res.canary_secrets@.map_values(|p: String| p@) == list_value(
                env@,
                "SIDECAR_CANARY_SECRETS"@,
            ),
    {
        SecretFilterConfig {
            secret_file_paths: split_paths(env, "SIDECAR_SECRET_FILE_PATHS"),
            canary_secrets: split_values(env, "SIDECAR_CANARY_SECRETS"),
        }
    }
}

} // verus!
