//! The unified view of the two managed variables across scopes, and the
//! per-scope outcome of a persistence write: source precedence, session
//! fallback, and the privilege-aware skip of the system scope.
use vstd::prelude::*;

verus! {

use crate::text::trim_spec;
use crate::text::trim_chars;
use crate::text::str_to_chars;
use crate::text::chars_to_string;

/// One scope's reading of one managed variable.
#[derive(Clone, Debug)]
pub struct RustupEnvScope {
    pub value: Option<String>,
    pub source: Option<String>,
    pub error: Option<String>,
}

/// One managed variable across both scopes.
#[derive(Clone, Debug)]
pub struct RustupEnvVarStatus {
    pub user: RustupEnvScope,
    pub system: RustupEnvScope,
}

/// Both managed variables across both scopes.
#[derive(Clone, Debug)]
pub struct RustupEnvStatus {
    pub dist: RustupEnvVarStatus,
    pub root: RustupEnvVarStatus,
}

/// One scope's write outcome: skipped marks a scope that was passed over
/// for want of elevation, not a failure.
#[derive(Clone, Debug)]
pub struct RustupEnvWriteOutcome {
    pub ok: bool,
    pub error: Option<String>,
    pub skipped: bool,
}

/// Both scopes' write outcomes.
#[derive(Clone, Debug)]
pub struct RustupEnvWriteResult {
    pub user: RustupEnvWriteOutcome,
    pub system: RustupEnvWriteOutcome,
}

impl Default for RustupEnvScope {
    fn default() -> (r: Self)
        ensures
            r.value is None && r.source is None && r.error is None,
    {
        RustupEnvScope { value: None, source: None, error: None }
    }
}

impl Default for RustupEnvVarStatus {
    fn default() -> (r: Self)
        ensures
            r.user.value is None && r.user.source is None && r.user.error is None,
            r.system.value is None && r.system.source is None && r.system.error is None,
    {
        RustupEnvVarStatus { user: Default::default(), system: Default::default() }
    }
}

/// The view of an optional string.
pub open spec fn opt_view(o: Option<String>) -> Option<Seq<char>> {
    match o {
        Option::Some(s) => Option::Some(s@),
        Option::None => Option::None,
    }
}

/// The trimmed value, or nothing where only whitespace (or nothing) was
/// given.
pub open spec fn normalize_spec(v: Option<Seq<char>>) -> Option<Seq<char>> {
    match v {
        Option::None => Option::None,
        Option::Some(s) => if trim_spec(s).len() == 0 {
            Option::None
        } else {
            Option::Some(trim_spec(s))
        },
    }
}

/// Trims an optional value; a blank value becomes absent.
pub fn normalize_env_value(value: Option<String>) -> (r: Option<String>)
    ensures
        opt_view(r) == normalize_spec(opt_view(value)),
{
    match value {
        None => None,
        Some(v) => {
            let cv = str_to_chars(v.as_str());
            let t = trim_chars(&cv);
            if t.len() == 0 {
                None
            } else {
                Some(chars_to_string(&t))
            }
        },
    }
}

/// The ghost shape of one scope's status.
pub struct ScopeModel {
    pub value: Option<Seq<char>>,
    pub source: Option<Seq<char>>,
    pub error: Option<Seq<char>>,
}

pub open spec fn scope_model(s: RustupEnvScope) -> ScopeModel {
    ScopeModel { value: opt_view(s.value), source: opt_view(s.source), error: opt_view(s.error) }
}

/// What one registry query yields for both variables and scopes.
#[derive(Clone, Debug)]
pub struct EnvSnapshot {
    pub user_dist: Option<String>,
    pub user_root: Option<String>,
    pub system_dist: Option<String>,
    pub system_root: Option<String>,
}

/// What the persisted stores reported: one bulk registry query on the
/// registry-style OS, else four independent profile reads.
pub enum PersistedReads {
    Registry(Result<EnvSnapshot, String>),
    Profiles {
        user_dist: Result<Option<String>, String>,
        system_dist: Result<Option<String>, String>,
        user_root: Result<Option<String>, String>,
        system_root: Result<Option<String>, String>,
    },
}

/// A scope filled from one registry field: the value normalized and, when
/// present, tagged with its store.
pub open spec fn spec_registry_scope(field: Option<String>) -> ScopeModel {
    let v = normalize_spec(opt_view(field));
    ScopeModel {
        value: v,
        source: if v is Some {
            Option::Some("registry"@)
        } else {
            Option::None
        },
        error: Option::None,
    }
}

/// A scope that failed to read.
pub open spec fn spec_failed_scope(e: Seq<char>) -> ScopeModel {
    ScopeModel { value: Option::None, source: Option::None, error: Option::Some(e) }
}

/// A scope filled from one profile read.
pub open spec fn spec_profile_scope(read: Result<Option<String>, String>) -> ScopeModel {
    match read {
        Result::Ok(v) => ScopeModel {
            value: opt_view(v),
            source: if v is Some {
                Option::Some("managed"@)
            } else {
                Option::None
            },
            error: Option::None,
        },
        Result::Err(e) => spec_failed_scope(e@),
    }
}

/// The live session fills a user scope only where no persisted value
/// stands, and is tagged as session-derived.
pub open spec fn spec_session_fallback(m: ScopeModel, session: Option<Seq<char>>) -> ScopeModel {
    if m.value is None {
        ScopeModel {
            value: session,
            source: if session is Some {
                Option::Some("session"@)
            } else {
                m.source
            },
            error: m.error,
        }
    } else {
        m
    }
}

/// The four scope statuses — dist user, dist system, root user, root
/// system — the reads and the session resolve to.
pub open spec fn spec_env_status(
    reads: PersistedReads,
    session_dist: Option<Seq<char>>,
    session_root: Option<Seq<char>>,
) -> (ScopeModel, ScopeModel, ScopeModel, ScopeModel) {
    let base = match reads {
        PersistedReads::Registry(Result::Ok(snap)) => (
            spec_registry_scope(snap.user_dist),
            spec_registry_scope(snap.system_dist),
            spec_registry_scope(snap.user_root),
            spec_registry_scope(snap.system_root),
        ),
        PersistedReads::Registry(Result::Err(e)) => (
            spec_failed_scope(e@),
            spec_failed_scope(e@),
            spec_failed_scope(e@),
            spec_failed_scope(e@),
        ),
        PersistedReads::Profiles { user_dist, system_dist, user_root, system_root } => (
            spec_profile_scope(user_dist),
            spec_profile_scope(system_dist),
            spec_profile_scope(user_root),
            spec_profile_scope(system_root),
        ),
    };
    (
        spec_session_fallback(base.0, normalize_spec(session_dist)),
        base.1,
        spec_session_fallback(base.2, normalize_spec(session_root)),
        base.3,
    )
}

fn registry_scope(field: Option<String>) -> (r: RustupEnvScope)
    ensures
        scope_model(r) == spec_registry_scope(field),
{
    let v = normalize_env_value(field);
    let source: Option<String> = if v.is_some() {
        Some(chars_to_string(&str_to_chars("registry")))
    } else {
        None
    };
    RustupEnvScope { value: v, source, error: None }
}

fn profile_scope(read: Result<Option<String>, String>) -> (r: RustupEnvScope)
    ensures
        scope_model(r) == spec_profile_scope(read),
{
    match read {
        Ok(v) => {
            let source: Option<String> = if v.is_some() {
                Some(chars_to_string(&str_to_chars("managed")))
            } else {
                None
            };
            RustupEnvScope { value: v, source, error: None }
        },
        Err(e) => RustupEnvScope { value: None, source: None, error: Some(e) },
    }
}

fn failed_scope(e: String) -> (r: RustupEnvScope)
    ensures
        scope_model(r) == spec_failed_scope(e@),
{
    RustupEnvScope { value: None, source: None, error: Some(e) }
}

fn session_fallback(m: RustupEnvScope, session: Option<String>) -> (r: RustupEnvScope)
    ensures
        scope_model(r) == spec_session_fallback(scope_model(m), opt_view(session)),
{
    if m.value.is_none() {
        let source: Option<String> = if session.is_some() {
            Some(chars_to_string(&str_to_chars("session")))
        } else {
            m.source
        };
        RustupEnvScope { value: session, source, error: m.error }
    } else {
        m
    }
}

/// Composes the unified status: persisted values first, each tagged with
/// its store; the live session fills a user scope only where nothing is
/// persisted; system scopes take no session fallback.
pub fn get_rustup_env_status(
    reads: PersistedReads,
    session_dist: Option<String>,
    session_root: Option<String>,
) -> (r: RustupEnvStatus)
    ensures
        ({
            let m = spec_env_status(reads, opt_view(session_dist), opt_view(session_root));
            scope_model(r.dist.user) == m.0 && scope_model(r.dist.system) == m.1 && scope_model(
                r.root.user,
            ) == m.2 && scope_model(r.root.system) == m.3
        }),
{
    let sd = normalize_env_value(session_dist);
    let sr = normalize_env_value(session_root);
    let (du, ds, ru, rs) = match reads {
        PersistedReads::Registry(Ok(snap)) => {
            let EnvSnapshot { user_dist, user_root, system_dist, system_root } = snap;
            (
                registry_scope(user_dist),
                registry_scope(system_dist),
                registry_scope(user_root),
                registry_scope(system_root),
            )
        },
        PersistedReads::Registry(Err(e)) => {
            let e2 = e.clone();
            let e3 = e.clone();
            let e4 = e.clone();
            (failed_scope(e), failed_scope(e2), failed_scope(e3), failed_scope(e4))
        },
        PersistedReads::Profiles { user_dist, system_dist, user_root, system_root } => {
            (
                profile_scope(user_dist),
                profile_scope(system_dist),
                profile_scope(user_root),
                profile_scope(system_root),
            )
        },
    };
    let du2 = session_fallback(du, sd);
    let ru2 = session_fallback(ru, sr);
    RustupEnvStatus {
        dist: RustupEnvVarStatus { user: du2, system: ds },
        root: RustupEnvVarStatus { user: ru2, system: rs },
    }
}

/// The value a downstream tool observes: the user scope where set, else
/// the system scope.
pub open spec fn effective_spec(user: Option<Seq<char>>, system: Option<Seq<char>>) -> Option<
    Seq<char>,
> {
    if user is Some {
        user
    } else {
        system
    }
}

/// The effective values of both variables: user scope wins over system.
pub fn get_rustup_env_effective(status: RustupEnvStatus) -> (r: (Option<String>, Option<String>))
    ensures
        opt_view(r.0) == effective_spec(
            opt_view(status.dist.user.value),
            opt_view(status.dist.system.value),
        ),
        opt_view(r.1) == effective_spec(
            opt_view(status.root.user.value),
            opt_view(status.root.system.value),
        ),
{
    let dist = match status.dist.user.value {
        Some(v) => Some(v),
        None => status.dist.system.value,
    };
    let root = match status.root.user.value {
        Some(v) => Some(v),
        None => status.root.system.value,
    };
    (dist, root)
}

/// Law: scope precedence. A user-scope value always wins; the system
/// scope is observed exactly where the user scope is empty; and a session
/// value reaches the user scope only where nothing is persisted there,
/// tagged as session-derived.
pub proof fn lemma_scope_precedence(
    user: Option<Seq<char>>,
    system: Option<Seq<char>>,
    base: ScopeModel,
    session: Option<Seq<char>>,
)
    ensures
        user is Some ==> effective_spec(user, system) == user,
        user is None ==> effective_spec(user, system) == system,
        (base.value is None && session is Some) ==> spec_session_fallback(base, session)
            == (ScopeModel { value: session, source: Option::Some("session"@), error: base.error }),
        base.value is Some ==> spec_session_fallback(base, session) == base,
{
}

/// What one write call will do: the values normalized, and whether the
/// system scope is attempted at all.
pub struct EnvWritePlan {
    pub dist: Option<String>,
    pub root: Option<String>,
    pub write_system: bool,
}

/// Plans a write of the two variables: values trimmed (blank meaning
/// clear), the system scope attempted exactly when the process is
/// elevated.
pub fn plan_env_write(dist: Option<String>, root: Option<String>, is_admin: bool) -> (r:
    EnvWritePlan)
    ensures
        opt_view(r.dist) == normalize_spec(opt_view(dist)),
        opt_view(r.root) == normalize_spec(opt_view(root)),
        r.write_system == is_admin,
{
    EnvWritePlan {
        dist: normalize_env_value(dist),
        root: normalize_env_value(root),
        write_system: is_admin,
    }
}

/// The ghost shape of one scope's write outcome.
pub struct OutcomeModel {
    pub ok: bool,
    pub error: Option<Seq<char>>,
    pub skipped: bool,
}

pub open spec fn outcome_model(o: RustupEnvWriteOutcome) -> OutcomeModel {
    OutcomeModel { ok: o.ok, error: opt_view(o.error), skipped: o.skipped }
}

/// An attempted write's outcome.
pub open spec fn spec_attempt_outcome(res: Result<(), String>) -> OutcomeModel {
    match res {
        Result::Ok(u) => OutcomeModel { ok: true, error: Option::None, skipped: false },
        Result::Err(e) => OutcomeModel { ok: false, error: Option::Some(e@), skipped: false },
    }
}

/// The outcome of a scope passed over for want of elevation: well, and
/// marked skipped.
pub open spec fn spec_skipped_outcome() -> OutcomeModel {
    OutcomeModel { ok: true, error: Option::None, skipped: true }
}

/// Both scopes' outcomes: the user attempt as it went; the system scope
/// skipped without elevation, else as its attempt went.
pub open spec fn spec_write_result(
    is_admin: bool,
    user: Result<(), String>,
    system: Option<Result<(), String>>,
) -> (OutcomeModel, OutcomeModel) {
    (
        spec_attempt_outcome(user),
        if is_admin {
            match system {
                Option::Some(res) => spec_attempt_outcome(res),
                Option::None => spec_skipped_outcome(),
            }
        } else {
            spec_skipped_outcome()
        },
    )
}

fn attempt_outcome(res: Result<(), String>) -> (r: RustupEnvWriteOutcome)
    ensures
        outcome_model(r) == spec_attempt_outcome(res),
{
    match res {
        Ok(_) => RustupEnvWriteOutcome { ok: true, error: None, skipped: false },
        Err(e) => RustupEnvWriteOutcome { ok: false, error: Some(e), skipped: false },
    }
}

/// Composes the per-scope outcomes of one write call. The system attempt
/// is made only when elevated; without elevation the system scope reports
/// a skip, never a failure.
pub fn compose_write_result(
    is_admin: bool,
    user: Result<(), String>,
    system: Option<Result<(), String>>,
) -> (r: RustupEnvWriteResult)
    requires
        system is Some <==> is_admin,
    ensures
        ({
            let m = spec_write_result(is_admin, user, system);
            outcome_model(r.user) == m.0 && outcome_model(r.system) == m.1
        }),
{
    let user_outcome = attempt_outcome(user);
    let system_outcome = match system {
        Some(res) => attempt_outcome(res),
        None => RustupEnvWriteOutcome { ok: true, error: None, skipped: true },
    };
    RustupEnvWriteResult { user: user_outcome, system: system_outcome }
}

/// What one bulk registry write reported for both scopes.
#[derive(Clone, Debug)]
pub struct EnvWriteBulk {
    pub user_ok: bool,
    pub user_error: Option<String>,
    pub system_ok: bool,
    pub system_error: Option<String>,
}

/// Both scopes' outcomes from one elevated bulk write: each scope as
/// reported, or both failed with the call's own error.
pub open spec fn spec_bulk_write_result(outcome: Result<EnvWriteBulk, String>) -> (
    OutcomeModel,
    OutcomeModel,
) {
    match outcome {
        Result::Ok(b) => (
            OutcomeModel { ok: b.user_ok, error: opt_view(b.user_error), skipped: false },
            OutcomeModel { ok: b.system_ok, error: opt_view(b.system_error), skipped: false },
        ),
        Result::Err(e) => (
            OutcomeModel { ok: false, error: Option::Some(e@), skipped: false },
            OutcomeModel { ok: false, error: Option::Some(e@), skipped: false },
        ),
    }
}

/// Composes the outcomes of one elevated bulk write, whose scopes succeed
/// or fail independently.
pub fn compose_bulk_write_result(outcome: Result<EnvWriteBulk, String>) -> (r: RustupEnvWriteResult)
    ensures
        ({
            let m = spec_bulk_write_result(outcome);
            outcome_model(r.user) == m.0 && outcome_model(r.system) == m.1
        }),
{
    match outcome {
        Ok(b) => RustupEnvWriteResult {
            user: RustupEnvWriteOutcome { ok: b.user_ok, error: b.user_error, skipped: false },
            system: RustupEnvWriteOutcome {
                ok: b.system_ok,
                error: b.system_error,
                skipped: false,
            },
        },
        Err(e) => {
            let e2 = e.clone();
            RustupEnvWriteResult {
                user: RustupEnvWriteOutcome { ok: false, error: Some(e), skipped: false },
                system: RustupEnvWriteOutcome { ok: false, error: Some(e2), skipped: false },
            }
        },
    }
}

/// Whether a write took effect anywhere: the user write succeeded, or the
/// system write succeeded and was actually attempted. Only then are the
/// process's own variables refreshed.
pub open spec fn spec_write_applied(user: OutcomeModel, system: OutcomeModel) -> bool {
    user.ok || (system.ok && !system.skipped)
}

/// Whether the write took effect in some scope.
pub fn write_applied(r: &RustupEnvWriteResult) -> (b: bool)
    ensures
        b == spec_write_applied(outcome_model(r.user), outcome_model(r.system)),
{
    r.user.ok || (r.system.ok && !r.system.skipped)
}

/// Law: partial elevation. Without elevation the user scope is attempted
/// and reported as it went, while the system scope reports a skip —
/// `ok` with `skipped` set and no error — and no system attempt is made.
pub proof fn lemma_partial_elevation(user: Result<(), String>)
    ensures
        ({
            let m = spec_write_result(false, user, Option::None);
            m.0 == spec_attempt_outcome(user) && m.1.ok && m.1.skipped && m.1.error is None && (
            user is Ok ==> m.0.ok)
        }),
{
}

} // verus!
