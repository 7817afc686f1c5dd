//! Registry listings: the URLs a registry is asked at, its answers, and
//! the `Authorization` header it gets.

use vstd::prelude::*;

use crate::config::opt_str_view;
use crate::domain::{CrateInfo, PromoteError, Registry};
use crate::text::{cat, cat3, has_prefix, owned, starts_with};
use crate::toml_doc::{opt_view, strs_view};

verus! {

/// A registry answer, reduced to what the library reads from it.
#[derive(Debug)]
pub enum Listing {
    /// Not JSON; the parser's message.
    Invalid(String),
    /// JSON, but no array where the entries should be.
    NotArray,
    /// The entries: each one's name and version fields, where strings.
    Entries(Vec<(Option<String>, Option<String>)>),
}

/// The view of a [`Listing`].
pub enum ListingView {
    Invalid(Seq<char>),
    NotArray,
    Entries(Seq<(Option<Seq<char>>, Option<Seq<char>>)>),
}

/// The views of listing entries.
pub open spec fn entries_view(v: Seq<(Option<String>, Option<String>)>) -> Seq<
    (Option<Seq<char>>, Option<Seq<char>>),
> {
    v.map_values(|e: (Option<String>, Option<String>)| (opt_view(e.0), opt_view(e.1)))
}

impl View for Listing {
    type V = ListingView;

    open spec fn view(&self) -> ListingView {
        match self {
            Listing::Invalid(m) => ListingView::Invalid(m@),
            Listing::NotArray => ListingView::NotArray,
            Listing::Entries(v) => ListingView::Entries(entries_view(v@)),
        }
    }
}

/// What `serde_json` finds in a body: the array at `path` (following
/// object keys by indexing), with each element's `name_field` and
/// `version_field` strings.
pub uninterp spec fn json_listing_of(
    body: Seq<u8>,
    path: Seq<Seq<char>>,
    name_field: Seq<char>,
    version_field: Seq<char>,
) -> ListingView;

/// Parses a body with `serde_json::from_slice` into a `Value`, follows
/// `path` by indexing (`value["key"]`, `Null` where absent), and reads
/// the array there: each element's two fields (indexing, then `as_str`).
#[verifier::external_body]
pub(crate) fn json_listing(body: &[u8], path: &Vec<String>, name_field: &str, version_field: &str) -> (r:
    Listing)
    ensures
        r@ == json_listing_of(body@, strs_view(path@), name_field@, version_field@),
{
    let doc: serde_json::Value = match serde_json::from_slice(body) {
        Ok(v) => v,
        Err(e) => return Listing::Invalid(e.to_string()),
    };
    let mut cur = &doc;
    for key in path.iter() {
        cur = &cur[key.as_str()];
    }
    let Some(items) = cur.as_array() else { return Listing::NotArray };
    Listing::Entries(items.iter().map(|c| (c[name_field].as_str().map(String::from), c[version_field].as_str().map(String::from))).collect())
}

/// A field of an entry, `?` where missing.
pub open spec fn field_or_unknown(f: Option<Seq<char>>) -> Seq<char> {
    match f {
        Some(s) => s,
        None => "?"@,
    }
}

/// The crates a listing names.
pub open spec fn listed_crates(es: Seq<(Option<Seq<char>>, Option<Seq<char>>)>) -> Seq<
    (Seq<char>, Seq<char>),
> {
    es.map_values(
        |e: (Option<Seq<char>>, Option<Seq<char>>)| (field_or_unknown(e.0), field_or_unknown(e.1)),
    )
}

/// The name and latest version of each crate.
pub open spec fn infos_view(v: Seq<CrateInfo>) -> Seq<(Seq<char>, Seq<char>)> {
    v.map_values(|c: CrateInfo| (c.name@, c.max_version@))
}

/// The crates of a registry's answer; a body that is not JSON, or has
/// no array where expected (`not_array`), is a failed query.
pub fn crates_from_listing(registry_name: &str, listing: Listing, not_array: &str) -> (r: Result<
    Vec<CrateInfo>,
    PromoteError,
>)
    ensures
        match listing@ {
            ListingView::Invalid(m) => r matches Err(PromoteError::QueryFailed { registry, reason })
                && registry@ == registry_name@ && reason@ == "invalid JSON: "@ + m,
            ListingView::NotArray => r matches Err(PromoteError::QueryFailed { registry, reason })
                && registry@ == registry_name@ && reason@ == not_array@,
            ListingView::Entries(es) => r matches Ok(v) && infos_view(v@) == listed_crates(es),
        },
{
    match listing {
        Listing::Invalid(m) => Err(
            PromoteError::QueryFailed {
                registry: owned(registry_name),
                reason: cat("invalid JSON: ", m.as_str()),
            },
        ),
        Listing::NotArray => Err(
            PromoteError::QueryFailed { registry: owned(registry_name), reason: owned(not_array) },
        ),
        Listing::Entries(es) => {
            let ghost ev = entries_view(es@);
            let mut v: Vec<CrateInfo> = Vec::new();
            let mut i: usize = 0;
            while i < es.len()
                invariant
                    i <= es@.len(),
                    ev == entries_view(es@),
                    ev.len() == es@.len(),
                    v@.len() == i,
                    infos_view(v@) == listed_crates(ev.subrange(0, i as int)),
                decreases es@.len() - i,
            {
                let name = match &es[i].0 {
                    Some(s) => s.clone(),
                    None => owned("?"),
                };
                let max_version = match &es[i].1 {
                    Some(s) => s.clone(),
                    None => owned("?"),
                };
                let ghost before = v@;
                assert(ev[i as int] == (opt_view(es@[i as int].0), opt_view(es@[i as int].1)));
                assert(name@ == field_or_unknown(ev[i as int].0));
                let ghost name_view = name@;
                assert(max_version@ == field_or_unknown(ev[i as int].1));
                v.push(CrateInfo { name, max_version });
                assert forall|k: int| 0 <= k < i + 1 implies #[trigger] infos_view(v@)[k]
                    == listed_crates(ev.subrange(0, i + 1))[k] by {
                    assert(before.len() == i);
                    if k < i {
                        assert(v@[k] == before[k]);
                        assert(infos_view(before)[k] == listed_crates(ev.subrange(0, i as int))[k]);
                        assert(ev.subrange(0, i + 1)[k] == ev.subrange(0, i as int)[k]);
                    } else {
                        assert(ev.subrange(0, i + 1)[k] == ev[i as int]);
                        assert(v@[k].name@ == name_view);
                    }
                }
                assert(infos_view(v@) =~= listed_crates(ev.subrange(0, i + 1)));
                i = i + 1;
            }
            assert(ev.subrange(0, es@.len() as int) =~= ev);
            Ok(v)
        },
    }
}

/// The API URL of a registry, or the failed query when it has none.
pub fn require_api_url<'a>(registry: &'a Registry, reason: &str) -> (r: Result<
    &'a str,
    PromoteError,
>)
    ensures
        registry.api_url matches Some(u) ==> (r matches Ok(s) && s@ == u@),
        registry.api_url is None ==> (r matches Err(PromoteError::QueryFailed { registry: n, reason: m })
            && n@ == registry.name@ && m@ == reason@),
{
    match &registry.api_url {
        Some(u) => Ok(u.as_str()),
        None => Err(
            PromoteError::QueryFailed { registry: registry.name.clone(), reason: owned(reason) },
        ),
    }
}

/// The crates of a Gitea registry's answer to `<api_url>/api/v1/crates`:
/// the array under `crates`.
pub fn gitea_crates(registry: &Registry, body: &[u8]) -> (r: Result<Vec<CrateInfo>, PromoteError>)
    ensures
        match json_listing_of(body@, seq!["crates"@], "name"@, "max_version"@) {
            ListingView::Invalid(m) => r matches Err(PromoteError::QueryFailed { registry: n, reason })
                && n@ == registry.name@ && reason@ == "invalid JSON: "@ + m,
            ListingView::NotArray => r matches Err(PromoteError::QueryFailed { registry: n, reason })
                && n@ == registry.name@ && reason@ == "unexpected response format"@,
            ListingView::Entries(es) => r matches Ok(v) && infos_view(v@) == listed_crates(es),
        },
{
    let path = vec![owned("crates")];
    assert(strs_view(path@) =~= seq!["crates"@]);
    let listing = json_listing(body, &path, "name", "max_version");
    crates_from_listing(registry.name.as_str(), listing, "unexpected response format")
}

/// The crates of a GitHub packages answer: the array the body is.
pub fn github_crates(registry: &Registry, body: &[u8]) -> (r: Result<Vec<CrateInfo>, PromoteError>)
    ensures
        match json_listing_of(body@, Seq::empty(), "name"@, "version"@) {
            ListingView::Invalid(m) => r matches Err(PromoteError::QueryFailed { registry: n, reason })
                && n@ == registry.name@ && reason@ == "invalid JSON: "@ + m,
            ListingView::NotArray => r matches Err(PromoteError::QueryFailed { registry: n, reason })
                && n@ == registry.name@ && reason@ == "expected JSON array from GitHub packages API"@,
            ListingView::Entries(es) => r matches Ok(v) && infos_view(v@) == listed_crates(es),
        },
{
    let path: Vec<String> = Vec::new();
    assert(strs_view(path@) =~= Seq::<Seq<char>>::empty());
    let listing = json_listing(body, &path, "name", "version");
    crates_from_listing(
        registry.name.as_str(),
        listing,
        "expected JSON array from GitHub packages API",
    )
}

/// The URL that answers whether `name@version` is in a Gitea registry.
pub fn crate_exists_url(api_url: &str, name: &str, version: &str) -> (r: String)
    ensures
        r@ == api_url@ + "/"@ + name@ + "/"@ + version@,
{
    let a = cat3(api_url, "/", name);
    cat3(a.as_str(), "/", version)
}

/// The URL that lists a Gitea registry's crates.
pub fn crates_list_url(api_url: &str) -> (r: String)
    ensures
        r@ == api_url@ + "/api/v1/crates"@,
{
    cat(api_url, "/api/v1/crates")
}

/// `str::trim`.
pub uninterp spec fn trimmed(s: Seq<char>) -> Seq<char>;

/// `str::trim`: the text without leading and trailing whitespace.
#[verifier::external_body]
fn trim(s: &str) -> (r: &str)
    ensures
        r@ == trimmed(s@),
{
    s.trim()
}

/// Whether the HTTP status a registry answered (curl's `%{http_code}`)
/// says the version is there.
pub fn found_status(code: &str) -> (r: bool)
    ensures
        r == (trimmed(code@) == "200"@),
{
    crate::domain::string_eq(&owned(trim(code)), "200")
}

/// An `Authorization` header for a token; a token that already carries
/// its `Bearer ` (or `bearer `) prefix is used as it is.
pub open spec fn spec_auth_header(token: Seq<char>) -> Seq<char> {
    if has_prefix(token, "Bearer "@) || has_prefix(token, "bearer "@) {
        "Authorization: "@ + token
    } else {
        "Authorization: Bearer "@ + token
    }
}

/// See [`spec_auth_header`].
pub fn auth_header(token: &str) -> (r: String)
    ensures
        r@ == spec_auth_header(token@),
{
    if starts_with(token, "Bearer ") || starts_with(token, "bearer ") {
        cat("Authorization: ", token)
    } else {
        cat("Authorization: Bearer ", token)
    }
}

/// A token given with its `Bearer ` prefix gets the same header as the
/// bare token: the prefix is never doubled.
pub proof fn lemma_prefixed_token_same_header(token: Seq<char>)
    requires
        !has_prefix(token, "Bearer "@),
        !has_prefix(token, "bearer "@),
    ensures
        spec_auth_header("Bearer "@ + token) == spec_auth_header(token),
{
    reveal_strlit("Bearer ");
    reveal_strlit("Authorization: ");
    reveal_strlit("Authorization: Bearer ");
    let t = "Bearer "@ + token;
    assert(t.subrange(0, 7) =~= "Bearer "@);
    assert("Authorization: "@ + t =~= "Authorization: Bearer "@ + token);
}

} // verus!
