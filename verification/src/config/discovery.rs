//! The rules of configuration discovery that do not touch the file system.
//!
//! Search order (first match wins, no merging): the `LOGICSHELL_CONFIG`
//! override, which must be absolute; `.logicshell.toml` in the working
//! directory or an ancestor; `config.toml`, then the legacy
//! `.logicshell.toml`, under `<config dir>/logicshell`; built-in defaults.
//! Probing the file system for the candidates is the host's job; which
//! candidate wins is decided here.

use vstd::prelude::*;
use crate::error::LogicShellError;
use crate::text::{append, owned};

verus! {

/// The base of the user configuration directory.
#[derive(Debug, Clone, PartialEq, Eq)]
pub enum ConfigDirBase {
    /// `$XDG_CONFIG_HOME` itself.
    Xdg(String),
    /// `$HOME`, under which `.config` is the configuration directory.
    Home(String),
}

/// The message for a relative `LOGICSHELL_CONFIG`.
pub open spec fn relative_override_message(val: Seq<char>) -> Seq<char> {
    "LOGICSHELL_CONFIG must be an absolute path, got: "@ + val
}

/// The configuration directory base: a non-empty `XDG_CONFIG_HOME` wins,
/// otherwise `HOME` when set, otherwise none.
pub fn config_dir_base(xdg_config_home: Option<&str>, home: Option<&str>) -> (r: Option<ConfigDirBase>)
    ensures
        (xdg_config_home matches Some(x) && x@.len() > 0) ==> (r matches Some(
            ConfigDirBase::Xdg(d),
        ) && d@ == xdg_config_home->0@),
        !(xdg_config_home matches Some(x) && x@.len() > 0) ==> match home {
            Some(h) => r matches Some(ConfigDirBase::Home(d)) && d@ == h@,
            None => r is None,
        },
{
    if let Some(x) = xdg_config_home {
        if !x.is_empty() {
            return Some(ConfigDirBase::Xdg(owned(x)));
        }
    }
    match home {
        Some(h) => Some(ConfigDirBase::Home(owned(h))),
        None => None,
    }
}

/// The `LOGICSHELL_CONFIG` override: taken as given when it is an absolute
/// path, a configuration error naming it otherwise.
pub fn env_override(val: &str, is_absolute: bool) -> (r: Result<String, LogicShellError>)
    ensures
        is_absolute ==> (r matches Ok(p) && p@ == val@),
        !is_absolute ==> (r matches Err(e) && e is Config && e.detail()
            == relative_override_message(val@)),
{
    if is_absolute {
        Ok(owned(val))
    } else {
        let mut m = owned("LOGICSHELL_CONFIG must be an absolute path, got: ");
        append(&mut m, val);
        Err(LogicShellError::Config(m))
    }
}

/// Where the configuration comes from.
#[derive(Debug, Clone, PartialEq, Eq)]
pub enum ConfigSource {
    /// The `LOGICSHELL_CONFIG` path.
    Override(String),
    /// `.logicshell.toml` in the `n`-th directory walking up from the
    /// working directory (0 is the working directory itself).
    Ancestor(usize),
    /// `config.toml` under `<config dir>/logicshell`.
    UserConfig,
    /// The legacy `.logicshell.toml` under `<config dir>/logicshell`.
    UserLegacy,
    /// No file: the built-in defaults apply.
    Defaults,
}

/// Index of the first `true` in `v`.
pub open spec fn first_true(v: Seq<bool>) -> Option<int>
    decreases v.len(),
{
    if v.len() == 0 {
        None
    } else if v[0] {
        Some(0)
    } else {
        match first_true(v.drop_first()) {
            Some(k) => Some(k + 1),
            None => None,
        }
    }
}

/// The file that applies when no override is set, given which candidates
/// exist: the nearest ancestor holding `.logicshell.toml`, then the user's
/// `config.toml`, then the legacy file, else the defaults.
pub open spec fn searched_source(ancestor_has_file: Seq<bool>, user_config: bool, user_legacy: bool) -> ConfigSource {
    match first_true(ancestor_has_file) {
        Some(i) => ConfigSource::Ancestor(i as usize),
        None => if user_config {
            ConfigSource::UserConfig
        } else if user_legacy {
            ConfigSource::UserLegacy
        } else {
            ConfigSource::Defaults
        },
    }
}

/// Picks the configuration source in the search order, first match winning:
/// the `LOGICSHELL_CONFIG` override (rejected unless absolute), then the
/// candidates probed by the host: `ancestor_has_file[n]` says whether the
/// `n`-th directory up from the working directory holds `.logicshell.toml`,
/// `user_config` and `user_legacy` whether the two files under
/// `<config dir>/logicshell` exist (false when there is no config dir).
pub fn choose_config_source(
    logicshell_config: Option<&str>,
    override_is_absolute: bool,
    ancestor_has_file: &Vec<bool>,
    user_config: bool,
    user_legacy: bool,
) -> (r: Result<ConfigSource, LogicShellError>)
    ensures
        logicshell_config matches Some(v) ==> {
            &&& override_is_absolute ==> (r matches Ok(ConfigSource::Override(p)) && p@ == v@)
            &&& !override_is_absolute ==> (r matches Err(e) && e is Config && e.detail()
                == relative_override_message(v@))
        },
        logicshell_config is None ==> (r matches Ok(s) && s == searched_source(
            ancestor_has_file@,
            user_config,
            user_legacy,
        )),
{
    if let Some(val) = logicshell_config {
        return match env_override(val, override_is_absolute) {
            Ok(p) => Ok(ConfigSource::Override(p)),
            Err(e) => Err(e),
        };
    }
    let mut i: usize = 0;
    while i < ancestor_has_file.len()
        invariant
            i <= ancestor_has_file@.len(),
            logicshell_config is None,
            forall|j: int| 0 <= j < i ==> !ancestor_has_file@[j],
        decreases ancestor_has_file.len() - i,
    {
        if ancestor_has_file[i] {
            proof {
                lemma_first_true(ancestor_has_file@, i as int);
            }
            return Ok(ConfigSource::Ancestor(i));
        }
        i += 1;
    }
    proof {
        lemma_first_true(ancestor_has_file@, i as int);
    }
    if user_config {
        Ok(ConfigSource::UserConfig)
    } else if user_legacy {
        Ok(ConfigSource::UserLegacy)
    } else {
        Ok(ConfigSource::Defaults)
    }
}

/// `first_true` names the first `true`.
pub proof fn lemma_first_true(v: Seq<bool>, k: int)
    requires
        0 <= k <= v.len(),
        forall|j: int| 0 <= j < k ==> !v[j],
    ensures
        k < v.len() && v[k] ==> first_true(v) == Some(k),
        k == v.len() ==> first_true(v) is None,
    decreases k,
{
    if k > 0 {
        assert forall|j: int| 0 <= j < k - 1 implies !v.drop_first()[j] by {
            assert(v.drop_first()[j] == v[j + 1]);
        }
        lemma_first_true(v.drop_first(), k - 1);
    }
}

} // verus!
