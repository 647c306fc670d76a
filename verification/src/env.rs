//! Environment variables of node processes: the check of what a goal asks
//! for, and the variables that the daemon adds of its own.
use crate::order::has_text;
use crate::text::{
    has_char, is_capital_of, lemma_raised, raised, str_eq, texts, to_upper, trim, trimmed,
};
use vstd::prelude::*;
use vstd::string::*;

verus! {

/// The key under which a node finds the container runtime.
pub const PEPPY_APPTAINER_BIN_ENV_VAR: &'static str = "PEPPY_APPTAINER_BIN";

/// The key under which a node finds its own name.
pub const PEPPY_NODE_NAME_ENV_VAR: &'static str = "PEPPY_NODE_NAME";

/// The key under which a node finds its own tag.
pub const PEPPY_NODE_TAG_ENV_VAR: &'static str = "PEPPY_NODE_TAG";

/// The language a node is written in.
#[derive(Clone, Copy, Debug, PartialEq, Eq, Structural)]
pub enum PeppygenLanguage {
    Rust,
    Python,
}

/// Why a goal's environment is refused.
#[derive(Debug, PartialEq, Eq)]
pub enum EnvError {
    /// A key or a value that no process environment can hold.
    InvalidEnvVar(String),
    /// A key that a goal may not set, in capitals.
    ForbiddenEnvVar(String),
}

/// The text of an `EnvError`, and whether it is a forbidden key.
pub struct EnvProblem {
    pub forbidden: bool,
    pub text: Seq<char>,
}

impl View for EnvError {
    type V = EnvProblem;

    open spec fn view(&self) -> EnvProblem {
        match self {
            EnvError::InvalidEnvVar(text) => EnvProblem { forbidden: false, text: text@ },
            EnvError::ForbiddenEnvVar(key) => EnvProblem { forbidden: true, text: key@ },
        }
    }
}

/// What is wrong with one variable, where anything is: the key is taken
/// without the white space around it.
pub open spec fn env_problem(
    key: Seq<char>,
    value: Seq<char>,
    forbidden: Seq<Seq<char>>,
) -> Option<EnvProblem> {
    let name = trimmed(key);
    if name.len() == 0 {
        Some(EnvProblem { forbidden: false, text: "empty key"@ })
    } else if name.contains('=') {
        Some(EnvProblem { forbidden: false, text: "key '"@ + name + "' contains '='"@ })
    } else if name.contains('\0') {
        Some(EnvProblem { forbidden: false, text: "key '"@ + name + "' contains a NUL byte"@ })
    } else if value.contains('\0') {
        Some(
            EnvProblem {
                forbidden: false,
                text: "value for key '"@ + name + "' contains a NUL byte"@,
            },
        )
    } else if forbidden.contains(raised(name)) {
        Some(EnvProblem { forbidden: true, text: raised(name) })
    } else {
        None
    }
}

/// Checks one variable; its key without the white space around it.
fn check_env_var(key: &str, value: &str, forbidden: &Vec<String>) -> (r: Result<String, EnvError>)
    ensures
        match r {
            Ok(name) => env_problem(key@, value@, texts(forbidden@)) is None && name@ == trimmed(
                key@,
            ),
            Err(e) => env_problem(key@, value@, texts(forbidden@)) == Some(e@),
        },
{
    let name = trim(key);
    if name.as_str().is_empty() {
        return Err(EnvError::InvalidEnvVar("empty key".to_owned()));
    }
    if has_char(name.as_str(), '=') {
        let mut text: String = "key '".to_owned();
        text.append(name.as_str());
        text.append("' contains '='");
        return Err(EnvError::InvalidEnvVar(text));
    }
    if has_char(name.as_str(), '\0') {
        let mut text: String = "key '".to_owned();
        text.append(name.as_str());
        text.append("' contains a NUL byte");
        return Err(EnvError::InvalidEnvVar(text));
    }
    if has_char(value, '\0') {
        let mut text: String = "value for key '".to_owned();
        text.append(name.as_str());
        text.append("' contains a NUL byte");
        return Err(EnvError::InvalidEnvVar(text));
    }
    let normalized = to_upper(name.as_str());
    if has_text(forbidden, normalized.as_str()) {
        return Err(EnvError::ForbiddenEnvVar(normalized));
    }
    Ok(name)
}

/// Checks the environment that a goal asks for, refusing the first variable
/// that cannot be set or is in `forbidden`. Keys come back without the white
/// space around them.
pub fn validate_goal_env_vars(
    env_vars: &Vec<(String, String)>,
    forbidden: &Vec<String>,
) -> (r: Result<Vec<(String, String)>, EnvError>)
    ensures
        match r {
            Ok(checked) => checked@.len() == env_vars@.len() && forall|k: int|
                0 <= k < env_vars@.len() ==> env_problem(
                    (#[trigger] env_vars@[k]).0@,
                    env_vars@[k].1@,
                    texts(forbidden@),
                ) is None && checked@[k].0@ == trimmed(env_vars@[k].0@) && checked@[k].1@
                    == env_vars@[k].1@,
            Err(e) => exists|i: int|
                0 <= i < env_vars@.len() && env_problem(
                    (#[trigger] env_vars@[i]).0@,
                    env_vars@[i].1@,
                    texts(forbidden@),
                ) == Some(e@) && forall|k: int|
                    0 <= k < i ==> env_problem(
                        (#[trigger] env_vars@[k]).0@,
                        env_vars@[k].1@,
                        texts(forbidden@),
                    ) is None,
        },
{
    let mut checked: Vec<(String, String)> = Vec::new();
    let mut i: usize = 0;
    while i < env_vars.len()
        invariant
            i <= env_vars@.len(),
            checked@.len() == i,
            forall|k: int|
                0 <= k < i ==> env_problem(
                    (#[trigger] env_vars@[k]).0@,
                    env_vars@[k].1@,
                    texts(forbidden@),
                ) is None && checked@[k].0@ == trimmed(env_vars@[k].0@) && checked@[k].1@
                    == env_vars@[k].1@,
        decreases env_vars.len() - i,
    {
        match check_env_var(env_vars[i].0.as_str(), env_vars[i].1.as_str(), forbidden) {
            Ok(name) => {
                checked.push((name, env_vars[i].1.clone()));
            },
            Err(e) => {
                proof {
                    let entry = env_vars@[i as int];
                }
                return Err(e);
            },
        }
        i += 1;
    }
    Ok(checked)
}

/// Whether an environment sets `key`.
pub open spec fn sets(env: Seq<(String, String)>, key: Seq<char>) -> bool {
    exists|k: int| 0 <= k < env.len() && (#[trigger] env[k]).0@ == key
}

/// Whether an environment sets `key`.
pub fn has_env_key(env_vars: &Vec<(String, String)>, key: &str) -> (r: bool)
    ensures
        r == sets(env_vars@, key@),
{
    let mut i: usize = 0;
    while i < env_vars.len()
        invariant
            i <= env_vars@.len(),
            forall|k: int| 0 <= k < i ==> (#[trigger] env_vars@[k]).0@ != key@,
        decreases env_vars.len() - i,
    {
        if str_eq(env_vars[i].0.as_str(), key) {
            return true;
        }
        i += 1;
    }
    false
}

/// Whether `after` is `before` with `key` set to `value` at its end, or
/// `before` itself where it sets the key already.
pub open spec fn set_if_missing(
    before: Seq<(String, String)>,
    after: Seq<(String, String)>,
    key: Seq<char>,
    value: Seq<char>,
) -> bool {
    if sets(before, key) {
        after == before
    } else {
        after.len() == before.len() + 1 && after.drop_last() == before && after.last().0@ == key
            && after.last().1@ == value
    }
}

/// Sets `key` unless the environment sets it already: a value that the user
/// gave is never replaced.
pub fn push_env_if_missing(env_vars: &mut Vec<(String, String)>, key: &str, value: String)
    ensures
        set_if_missing(old(env_vars)@, final(env_vars)@, key@, value@),
{
    if !has_env_key(env_vars, key) {
        let ghost before = env_vars@;
        env_vars.push((key.to_owned(), value));
        proof {
            assert(env_vars@.drop_last() =~= before);
        }
    }
}

/// Routes the compilation of a Rust node through `sccache` where it is
/// available and the user has set no wrapper; whether it did.
pub fn inject_rust_build_env(
    env_vars: &mut Vec<(String, String)>,
    language: PeppygenLanguage,
    sccache_available: bool,
) -> (injected: bool)
    ensures
        injected == (language == PeppygenLanguage::Rust && !sets(
            old(env_vars)@,
            "RUSTC_WRAPPER"@,
        ) && sccache_available),
        injected ==> set_if_missing(
            old(env_vars)@,
            final(env_vars)@,
            "RUSTC_WRAPPER"@,
            "sccache"@,
        ),
        !injected ==> final(env_vars)@ == old(env_vars)@,
{
    if language != PeppygenLanguage::Rust {
        return false;
    }
    let injected: bool = !has_env_key(env_vars, "RUSTC_WRAPPER") && sccache_available;
    if injected {
        push_env_if_missing(env_vars, "RUSTC_WRAPPER", "sccache".to_owned());
    }
    injected
}

/// Which container runtime a node is told to use: the one that the daemon's
/// own environment names, else the one bundled with it, else the one on the
/// path.
pub fn resolve_apptainer_bin(configured: Option<String>, bundled: Option<String>) -> (r: String)
    ensures
        r@ == match configured {
            Some(value) if trimmed(value@).len() > 0 => trimmed(value@),
            _ => match bundled {
                Some(path) => path@,
                None => "apptainer"@,
            },
        },
{
    if let Some(value) = configured {
        let name = trim(value.as_str());
        if !name.as_str().is_empty() {
            return name;
        }
    }
    match bundled {
        Some(path) => path,
        None => "apptainer".to_owned(),
    }
}

/// Tells a node where the container runtime is and who it is itself, where
/// the user has not said so already.
pub fn inject_node_runtime_env(
    env_vars: &mut Vec<(String, String)>,
    apptainer_bin: String,
    node_name: &str,
    node_tag: &str,
)
    ensures
        exists|first: Seq<(String, String)>, second: Seq<(String, String)>|
            #[trigger] set_if_missing(
                old(env_vars)@,
                first,
                PEPPY_APPTAINER_BIN_ENV_VAR@,
                apptainer_bin@,
            ) && #[trigger] set_if_missing(first, second, PEPPY_NODE_NAME_ENV_VAR@, node_name@)
                && set_if_missing(
                second,
                final(env_vars)@,
                PEPPY_NODE_TAG_ENV_VAR@,
                node_tag@,
            ),
{
    push_env_if_missing(env_vars, PEPPY_APPTAINER_BIN_ENV_VAR, apptainer_bin);
    push_env_if_missing(env_vars, PEPPY_NODE_NAME_ENV_VAR, node_name.to_owned());
    push_env_if_missing(env_vars, PEPPY_NODE_TAG_ENV_VAR, node_tag.to_owned());
}

/// A key once set keeps its value, whatever is set if missing afterwards; and
/// the key that is set if missing is set afterwards.
pub proof fn setting_if_missing_keeps_what_is_set(
    before: Seq<(String, String)>,
    after: Seq<(String, String)>,
    key: Seq<char>,
    value: Seq<char>,
)
    requires
        set_if_missing(before, after, key, value),
    ensures
        sets(after, key),
        forall|k: int| 0 <= k < before.len() ==> #[trigger] after[k] == before[k],
        forall|other: Seq<char>| sets(before, other) ==> #[trigger] sets(after, other),
{
    if !sets(before, key) {
        assert(forall|k: int| 0 <= k < before.len() ==> after.drop_last()[k] == after[k]);
        assert(after[before.len() as int] == after.last());
        assert forall|other: Seq<char>| sets(before, other) implies #[trigger] sets(after, other) by {
            let k = choose|k: int| 0 <= k < before.len() && (#[trigger] before[k]).0@ == other;
            assert(after[k] == before[k]);
        }
    }
}

/// Whether a key, white space taken off, is a name that a process environment can
/// hold and that is not forbidden.
pub open spec fn is_fine_key(name: Seq<char>, forbidden: Seq<Seq<char>>) -> bool {
    &&& name.len() > 0
    &&& forall|i: int| 0 <= i < name.len() ==> #[trigger] name[i] != '=' && name[i] != '\0'
    &&& forall|f: int|
        0 <= f < forbidden.len() ==> !is_capital_of(name, #[trigger] forbidden[f])
}

/// Whether a value holds no NUL.
pub open spec fn is_fine_value(value: Seq<char>) -> bool {
    forall|i: int| 0 <= i < value.len() ==> #[trigger] value[i] != '\0'
}

/// A variable has no problem exactly where its key and its value are fine.
pub proof fn lemma_env_problem(key: Seq<char>, value: Seq<char>, forbidden: Seq<Seq<char>>)
    ensures
        env_problem(key, value, forbidden) is None <==> is_fine_key(trimmed(key), forbidden)
            && is_fine_value(value),
{
    let name = trimmed(key);
    lemma_raised(name);
    if forbidden.contains(raised(name)) {
        let f = choose|f: int| 0 <= f < forbidden.len() && forbidden[f] == raised(name);
        assert(is_capital_of(name, forbidden[f]));
    } else {
        assert forall|f: int| 0 <= f < forbidden.len() implies !is_capital_of(
            name,
            #[trigger] forbidden[f],
        ) by {
            if is_capital_of(name, forbidden[f]) {
                assert(forbidden[f] == raised(name));
            }
        }
    }
    if name.contains('=') {
        let i = choose|i: int| 0 <= i < name.len() && name[i] == '=';
        assert(!(name[i] != '='));
    }
    if name.contains('\0') {
        let i = choose|i: int| 0 <= i < name.len() && name[i] == '\0';
        assert(!(name[i] != '\0'));
    }
    if value.contains('\0') {
        let i = choose|i: int| 0 <= i < value.len() && value[i] == '\0';
        assert(!(value[i] != '\0'));
    }
    assert forall|i: int| 0 <= i < name.len() && !name.contains('=') && !name.contains(
        '\0',
    ) implies #[trigger] name[i] != '=' && name[i] != '\0' by {
        assert(name.contains(name[i]));
    }
    assert forall|i: int| 0 <= i < value.len() && !value.contains(
        '\0',
    ) implies #[trigger] value[i] != '\0' by {
        assert(value.contains(value[i]));
    }
}

/// An environment is accepted exactly where each of its variables has a fine key
/// and a fine value. It is accepted whole and in order: the values as they are, the
/// keys without the white space around them.
pub proof fn only_a_fine_environment_is_accepted(
    env_vars: Vec<(String, String)>,
    forbidden: Vec<String>,
    r: Result<Vec<(String, String)>, EnvError>,
)
    requires
        call_ensures(validate_goal_env_vars, (&env_vars, &forbidden), r),
    ensures
        r is Ok <==> forall|k: int|
            0 <= k < env_vars@.len() ==> is_fine_key(
                trimmed((#[trigger] env_vars@[k]).0@),
                texts(forbidden@),
            ) && is_fine_value(env_vars@[k].1@),
        r matches Ok(checked) ==> checked@.len() == env_vars@.len() && forall|k: int|
            0 <= k < checked@.len() ==> (#[trigger] checked@[k]).0@ == trimmed(env_vars@[k].0@)
                && checked@[k].1@ == env_vars@[k].1@ && is_fine_key(
                checked@[k].0@,
                texts(forbidden@),
            ) && is_fine_value(checked@[k].1@),
{
    assert forall|k: int| 0 <= k < env_vars@.len() implies env_problem(
        (#[trigger] env_vars@[k]).0@,
        env_vars@[k].1@,
        texts(forbidden@),
    ) is None <==> is_fine_key(trimmed(env_vars@[k].0@), texts(forbidden@)) && is_fine_value(
        env_vars@[k].1@,
    ) by {
        lemma_env_problem(env_vars@[k].0@, env_vars@[k].1@, texts(forbidden@));
    }
    if let Ok(checked) = r {
        assert forall|k: int| 0 <= k < checked@.len() implies (#[trigger] checked@[k]).0@ == trimmed(
            env_vars@[k].0@,
        ) && checked@[k].1@ == env_vars@[k].1@ && is_fine_key(checked@[k].0@, texts(forbidden@))
            && is_fine_value(checked@[k].1@) by {
            let given = env_vars@[k];
        }
    }
}

/// A node that is told where the container runtime is and who it is knows all
/// three afterwards, and whatever the user set stays as it was, in its place.
pub proof fn a_node_is_told_who_it_is(
    env_vars: &mut Vec<(String, String)>,
    apptainer_bin: String,
    node_name: &str,
    node_tag: &str,
    key: Seq<char>,
)
    requires
        call_ensures(
            inject_node_runtime_env,
            (env_vars, apptainer_bin, node_name, node_tag),
            (),
        ),
        key == PEPPY_APPTAINER_BIN_ENV_VAR@ || key == PEPPY_NODE_NAME_ENV_VAR@ || key
            == PEPPY_NODE_TAG_ENV_VAR@,
    ensures
        sets(final(env_vars)@, key),
        old(env_vars)@.len() <= final(env_vars)@.len() <= old(env_vars)@.len() + 3,
        forall|k: int|
            0 <= k < old(env_vars)@.len() ==> #[trigger] final(env_vars)@[k] == old(env_vars)@[k],
        forall|k: int|
            old(env_vars)@.len() <= k < final(env_vars)@.len() ==> {
                let added = #[trigger] final(env_vars)@[k];
                ||| added.0@ == PEPPY_APPTAINER_BIN_ENV_VAR@ && added.1@ == apptainer_bin@
                ||| added.0@ == PEPPY_NODE_NAME_ENV_VAR@ && added.1@ == node_name@
                ||| added.0@ == PEPPY_NODE_TAG_ENV_VAR@ && added.1@ == node_tag@
            },
{
    let before = old(env_vars)@;
    let after = final(env_vars)@;
    let (first, second) = choose|first: Seq<(String, String)>, second: Seq<(String, String)>|
        #[trigger] set_if_missing(before, first, PEPPY_APPTAINER_BIN_ENV_VAR@, apptainer_bin@)
            && #[trigger] set_if_missing(first, second, PEPPY_NODE_NAME_ENV_VAR@, node_name@)
            && set_if_missing(second, after, PEPPY_NODE_TAG_ENV_VAR@, node_tag@);
    setting_if_missing_keeps_what_is_set(
        before,
        first,
        PEPPY_APPTAINER_BIN_ENV_VAR@,
        apptainer_bin@,
    );
    setting_if_missing_keeps_what_is_set(first, second, PEPPY_NODE_NAME_ENV_VAR@, node_name@);
    setting_if_missing_keeps_what_is_set(second, after, PEPPY_NODE_TAG_ENV_VAR@, node_tag@);
    assert(sets(first, PEPPY_APPTAINER_BIN_ENV_VAR@));
    assert(sets(second, PEPPY_APPTAINER_BIN_ENV_VAR@));
    assert(sets(second, PEPPY_NODE_NAME_ENV_VAR@));
    assert(sets(after, PEPPY_APPTAINER_BIN_ENV_VAR@));
    assert(sets(after, PEPPY_NODE_NAME_ENV_VAR@));
    assert forall|k: int| 0 <= k < before.len() implies #[trigger] after[k] == before[k] by {
        assert(first[k] == before[k]);
        assert(second[k] == first[k]);
    }
    assert forall|k: int| before.len() <= k < after.len() implies {
        let added = #[trigger] after[k];
        ||| added.0@ == PEPPY_APPTAINER_BIN_ENV_VAR@ && added.1@ == apptainer_bin@
        ||| added.0@ == PEPPY_NODE_NAME_ENV_VAR@ && added.1@ == node_name@
        ||| added.0@ == PEPPY_NODE_TAG_ENV_VAR@ && added.1@ == node_tag@
    } by {
        if k < second.len() {
            assert(after[k] == second[k]);
            if k < first.len() {
                assert(second[k] == first[k]);
                assert(first[k] == first.last());
            } else {
                assert(second[k] == second.last());
            }
        } else {
            assert(after[k] == after.last());
        }
    }
}

/// Only the compilation of a Rust node goes through `sccache`, only where it is
/// available, and never in place of a wrapper that the user set.
pub proof fn a_wrapper_of_the_user_is_kept(
    env_vars: &mut Vec<(String, String)>,
    language: PeppygenLanguage,
    sccache_available: bool,
    injected: bool,
)
    requires
        call_ensures(inject_rust_build_env, (env_vars, language, sccache_available), injected),
    ensures
        injected <==> language == PeppygenLanguage::Rust && sccache_available && forall|k: int|
            0 <= k < old(env_vars)@.len() ==> (#[trigger] old(env_vars)@[k]).0@ != "RUSTC_WRAPPER"@,
        injected ==> final(env_vars)@.len() == old(env_vars)@.len() + 1 && final(env_vars)@.last().0@
            == "RUSTC_WRAPPER"@ && final(env_vars)@.last().1@ == "sccache"@,
        !injected ==> final(env_vars)@ == old(env_vars)@,
        forall|k: int|
            0 <= k < old(env_vars)@.len() ==> #[trigger] final(env_vars)@[k] == old(env_vars)@[k],
{
    if injected {
        setting_if_missing_keeps_what_is_set(
            old(env_vars)@,
            final(env_vars)@,
            "RUSTC_WRAPPER"@,
            "sccache"@,
        );
    }
}

/// The container runtime is the one that is configured, where the setting is not blank,
/// else the bundled one, else the one on the path; it is never blank where the bundled
/// one is not.
pub proof fn a_configured_runtime_comes_first(
    configured: Option<String>,
    bundled: Option<String>,
    r: String,
)
    requires
        call_ensures(resolve_apptainer_bin, (configured, bundled), r),
    ensures
        configured matches Some(value) ==> (trimmed(value@).len() > 0 ==> r@ == trimmed(value@)),
        !(configured matches Some(value) && trimmed(value@).len() > 0) ==> (bundled matches Some(
            path,
        ) ==> r@ == path@),
        !(configured matches Some(value) && trimmed(value@).len() > 0) && bundled is None ==> r@
            == "apptainer"@,
{
}

} // verus!
