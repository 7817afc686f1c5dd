//! A registry query that remembers listings.

use vstd::cell::invcell::InvCell;
use vstd::predicate::Predicate;
use vstd::prelude::*;

use crate::domain::traits::RegistryQuery;
use crate::domain::{CrateInfo, PromoteError, Registry};
use crate::strmap::StrMap;

verus! {

/// `v` is a listing `inner` can give for a registry named `name`.
pub open spec fn inner_listing<Q: RegistryQuery>(inner: Q, name: Seq<char>, v: Vec<CrateInfo>) -> bool {
    exists|reg: Registry, w: Vec<CrateInfo>|
        reg.name@ == name && w@ == v@ && #[trigger] inner.listed(reg, Ok::<Vec<CrateInfo>, PromoteError>(w))
}

/// What the cache may hold: under each registry name, a listing the
/// inner query gave for a registry of that name.
pub struct InnerListings<Q> {
    pub inner: Q,
}

impl<Q: RegistryQuery> Predicate<StrMap<Vec<CrateInfo>>> for InnerListings<Q> {
    open spec fn predicate(&self, v: StrMap<Vec<CrateInfo>>) -> bool {
        forall|k: Seq<char>| v.has(k) ==> inner_listing(self.inner, k, #[trigger] v.value_of(k))
    }
}

/// Clones a list of crate infos element by element.
pub fn clone_infos(v: &Vec<CrateInfo>) -> (r: Vec<CrateInfo>)
    ensures
        r@ == v@,
{
    let mut r: Vec<CrateInfo> = Vec::new();
    let mut i: usize = 0;
    while i < v.len()
        invariant
            i <= v@.len(),
            r@ == v@.subrange(0, i as int),
        decreases v@.len() - i,
    {
        r.push(v[i].clone());
        assert(r@ =~= v@.subrange(0, i + 1));
        i = i + 1;
    }
    assert(v@.subrange(0, v@.len() as int) =~= v@);
    r
}

/// Decorator: caches `list_crates` results per registry name, so that
/// repeated listings within a run are answered from memory.
/// `crate_exists` goes to the inner query unchanged: a listing gives only
/// each crate's latest version, so it cannot say whether an older one
/// exists.
pub struct CachingRegistryQuery<Q: RegistryQuery> {
    inner: Q,
    cache: InvCell<StrMap<Vec<CrateInfo>>, InnerListings<Q>>,
}

impl<Q: RegistryQuery> CachingRegistryQuery<Q> {
    #[verifier::type_invariant]
    spec fn cache_holds_inner_listings(self) -> bool {
        self.cache.predicate() == InnerListings { inner: self.inner }
    }

    /// A cache in front of `inner`, empty at first.
    pub fn new(inner: Q) -> (r: Self)
        ensures
            r.inner() == inner,
    {
        let empty: StrMap<Vec<CrateInfo>> = StrMap::new();
        let ghost pred = InnerListings { inner };
        assert(pred.predicate(empty));
        CachingRegistryQuery { inner, cache: InvCell::new(empty, Ghost(pred)) }
    }

    /// The query the cache stands in front of.
    pub closed spec fn inner(self) -> Q {
        self.inner
    }

    /// The query the cache stands in front of.
    pub fn inner_query(&self) -> (r: &Q)
        ensures
            *r == self.inner(),
    {
        &self.inner
    }

    /// The cached listing of a registry, else the inner query's answer,
    /// which is remembered when it succeeds.
    fn get_or_fetch(&self, registry: &Registry) -> (r: Result<Vec<CrateInfo>, PromoteError>)
        ensures
            self.cached_listed(*registry, r),
    {
        proof {
            use_type_invariant(self);
        }
        let empty: StrMap<Vec<CrateInfo>> = StrMap::new();
        assert(self.cache.inv(empty));
        let map = self.cache.replace(empty);
        let cached = match map.get(registry.name.as_str()) {
            Some(v) => {
                let c = clone_infos(v);
                assert(inner_listing(self.inner, registry.name@, map.value_of(registry.name@)));
                Some(c)
            },
            None => None,
        };
        let _ = self.cache.replace(map);
        if let Some(v) = cached {
            return Ok(v);
        }
        let result = match self.inner.list_crates(registry) {
            Ok(v) => v,
            Err(e) => {
                return Err(e);
            },
        };
        let empty2: StrMap<Vec<CrateInfo>> = StrMap::new();
        assert(self.cache.inv(empty2));
        let mut map = self.cache.replace(empty2);
        let copy = clone_infos(&result);
        let ghost old_map = map;
        map.insert(registry.name.clone(), copy);
        proof {
            assert(self.inner.listed(*registry, Ok::<Vec<CrateInfo>, PromoteError>(result)));
            assert(inner_listing(self.inner, registry.name@, copy));
            assert forall|k: Seq<char>| map.has(k) implies inner_listing(
                self.inner,
                k,
                #[trigger] map.value_of(k),
            ) by {
                if k != registry.name@ {
                    assert(old_map.has(k));
                    assert(inner_listing(self.inner, k, old_map.value_of(k)));
                }
            }
        }
        let _ = self.cache.replace(map);
        Ok(result)
    }

    /// What listing through the cache answers: the inner query's error,
    /// or a listing the inner query gave for a registry of the same name
    /// (now or on an earlier call).
    pub open spec fn cached_listed(self, registry: Registry, r: Result<Vec<CrateInfo>, PromoteError>) -> bool {
        match r {
            Ok(v) => inner_listing(self.inner(), registry.name@, v),
            Err(e) => self.inner().listed(registry, r),
        }
    }
}

impl<Q: RegistryQuery> RegistryQuery for CachingRegistryQuery<Q> {
    open spec fn listed(&self, registry: Registry, r: Result<Vec<CrateInfo>, PromoteError>) -> bool {
        self.cached_listed(registry, r)
    }

    open spec fn exists_answer(
        &self,
        registry: Registry,
        name: Seq<char>,
        version: Seq<char>,
        r: Result<bool, PromoteError>,
    ) -> bool {
        self.inner().exists_answer(registry, name, version, r)
    }

    fn list_crates(&self, registry: &Registry) -> (r: Result<Vec<CrateInfo>, PromoteError>) {
        self.get_or_fetch(registry)
    }

    fn crate_exists(&self, registry: &Registry, name: &str, version: &str) -> (r: Result<
        bool,
        PromoteError,
    >) {
        self.inner.crate_exists(registry, name, version)
    }
}

} // verus!
