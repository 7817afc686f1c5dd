//! Where a registry's authentication token comes from.

use vstd::prelude::*;

use crate::domain::{string_eq, PromoteError};
use crate::text::{cat, cat3, replace_char, replace_char_exec, to_uppercase, uppercase};
use crate::toml_doc::{
    strs_view, toml_error, toml_error_of, toml_node, toml_node_at, NodeView, TomlNode,
};

verus! {

/// The environment variable that holds a registry's token:
/// `CARGO_REGISTRIES_<NAME>_TOKEN`, the name upper-cased with `-` as `_`.
pub open spec fn spec_env_var_name(registry_name: Seq<char>) -> Seq<char> {
    "CARGO_REGISTRIES_"@ + replace_char(uppercase(registry_name), '-', '_') + "_TOKEN"@
}

/// See [`spec_env_var_name`].
pub fn env_var_name(registry_name: &str) -> (r: String)
    ensures
        r@ == spec_env_var_name(registry_name@),
{
    let up = to_uppercase(registry_name);
    let norm = replace_char_exec(up.as_str(), '-', '_');
    cat3("CARGO_REGISTRIES_", norm.as_str(), "_TOKEN")
}

/// A value that is set and not empty.
pub open spec fn non_empty(v: Option<Seq<char>>) -> bool {
    v matches Some(s) && s.len() > 0
}

/// The token the environment gives: `CARGO_REGISTRIES_<NAME>_TOKEN`
/// (`by_name`), then, for `crates-io`, `CARGO_REGISTRY_TOKEN`
/// (`registry_token`); empty values do not count.
pub open spec fn spec_env_token(
    registry_name: Seq<char>,
    by_name: Option<Seq<char>>,
    registry_token: Option<Seq<char>>,
) -> Option<Seq<char>> {
    if non_empty(by_name) {
        by_name
    } else if registry_name == "crates-io"@ && non_empty(registry_token) {
        registry_token
    } else {
        None
    }
}

/// The token a credentials file gives a registry:
/// `[registries.<name>].token`.
pub open spec fn spec_file_token(registry_name: Seq<char>, contents: Seq<char>) -> Option<Seq<char>> {
    match toml_node_at(contents, seq!["registries"@, registry_name, "token"@]) {
        NodeView::Str(t) => Some(t),
        _ => None,
    }
}

/// Resolve a registry's token: from the environment first, else from
/// the credentials file (`credentials`: `None` where there is no file;
/// `shown_path` is how its path is shown in messages).
pub fn resolve_token(
    registry_name: &str,
    by_name: Option<String>,
    registry_token: Option<String>,
    credentials: Option<Result<String, PromoteError>>,
    shown_path: &str,
) -> (r: Result<Option<String>, PromoteError>)
    ensures
        spec_env_token(
            registry_name@,
            crate::toml_doc::opt_view(by_name),
            crate::toml_doc::opt_view(registry_token),
        ) matches Some(t) ==> (r matches Ok(Some(s)) && s@ == t),
        spec_env_token(
            registry_name@,
            crate::toml_doc::opt_view(by_name),
            crate::toml_doc::opt_view(registry_token),
        ) is None ==> match credentials {
            None => r matches Ok(None),
            Some(Err(e)) => r == Err::<Option<String>, PromoteError>(e),
            Some(Ok(c)) => match toml_error_of(c@) {
                Some(m) => (r matches Err(PromoteError::Other(x)) && x@ == "invalid TOML in "@
                    + shown_path@ + ": "@ + m),
                None => (r matches Ok(t) && crate::toml_doc::opt_view(t) == spec_file_token(
                    registry_name@,
                    c@,
                )),
            },
        },
{
    proof {
        reveal_strlit("crates-io");
    }
    match by_name {
        Some(v) => {
            if !v.as_str().is_empty() {
                return Ok(Some(v));
            }
        },
        None => {},
    }
    if crate::domain::string_eq(&crate::text::owned("crates-io"), registry_name) {
        match registry_token {
            Some(v) => {
                if !v.as_str().is_empty() {
                    return Ok(Some(v));
                }
            },
            None => {},
        }
    }
    let contents = match credentials {
        None => {
            return Ok(None);
        },
        Some(Err(e)) => {
            return Err(e);
        },
        Some(Ok(c)) => c,
    };
    match toml_error(contents.as_str()) {
        Some(m) => {
            let a = cat3("invalid TOML in ", shown_path, ": ");
            return Err(PromoteError::Other(cat(a.as_str(), m.as_str())));
        },
        None => {},
    }
    let path = vec![
        crate::text::owned("registries"),
        crate::text::owned(registry_name),
        crate::text::owned("token"),
    ];
    assert(strs_view(path@) =~= seq!["registries"@, registry_name@, "token"@]);
    match toml_node(contents.as_str(), &path) {
        TomlNode::Str(t) => Ok(Some(t)),
        _ => Ok(None),
    }
}

} // verus!
