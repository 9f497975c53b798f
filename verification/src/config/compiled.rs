//! `CompiledConfig` — the validated, indexed form the router and compiler
//! read on every intent, produced by `Config::compile`.

use vstd::prelude::*;

use crate::config::config_file::{resolves, Config, SUPPORTED_VERSION};
use crate::config::errors::{ConfigError, ConfigErrorView};
use crate::config::routing::RoutingRule;
use crate::config::source::SourceConfig;
use crate::entity::{first_unknown_key, lemma_first_unknown_key_skip, lookup_field, Entity, EntityBinding, EntityField};
use crate::strmap::StrMap;

verus! {

/// A validated, indexed view of the config.
#[derive(Debug)]
pub struct CompiledConfig {
    /// All sources, keyed by name.
    pub sources: StrMap<SourceConfig>,
    /// All entities, keyed by name.
    pub entities: StrMap<Entity>,
    /// Bindings grouped by entity name, each group in declaration order.
    pub bindings_by_entity: StrMap<Vec<EntityBinding>>,
    /// Routing rules in declared order.
    pub routing: Vec<RoutingRule>,
}

impl CompiledConfig {
    /// The bindings of an entity, in declared order (empty when none).
    pub open spec fn spec_bindings_for(&self, name: Seq<char>) -> Seq<EntityBinding> {
        match self.bindings_by_entity.spec_get(name) {
            Some(v) => v@,
            None => Seq::empty(),
        }
    }

    /// Look up the named source.
    pub fn source(&self, name: &str) -> (r: Option<&SourceConfig>)
        ensures
            match r {
                Some(s) => self.sources.spec_get(name@) == Some(*s),
                None => self.sources.spec_get(name@) is None,
            },
    {
        self.sources.get(name)
    }

    /// Look up the named entity.
    pub fn entity(&self, name: &str) -> (r: Option<&Entity>)
        ensures
            match r {
                Some(e) => self.entities.spec_get(name@) == Some(*e),
                None => self.entities.spec_get(name@) is None,
            },
    {
        self.entities.get(name)
    }

    /// All bindings for an entity, in declared order.
    pub fn bindings_for_entity(&self, name: &str) -> (r: &[EntityBinding])
        ensures
            r@ == self.spec_bindings_for(name@),
    {
        match self.bindings_by_entity.get(name) {
            Some(v) => v.as_slice(),
            None => &[],
        }
    }
}

/// What is wrong with a binding, if anything: an unknown entity, an unknown
/// source, or (first, in key order) a field-map key the entity lacks.
pub open spec fn binding_error(b: EntityBinding, c: Config) -> Option<ConfigErrorView> {
    if !c.entities.has_key(b.entity@) {
        Some(ConfigErrorView::UnknownEntityInBinding(b.entity@))
    } else if !c.sources.has_key(b.source@) {
        Some(ConfigErrorView::UnknownSourceInBinding(b.source@))
    } else {
        match first_unknown_key(b.field_map.mapping.keys(), c.entities.spec_get(b.entity@)->0.fields@) {
            Some(f) => Some(ConfigErrorView::UnknownFieldInBinding(b.entity@, f)),
            None => None,
        }
    }
}

/// The error of the first faulty binding.
pub open spec fn first_binding_error(bs: Seq<EntityBinding>, c: Config) -> Option<ConfigErrorView>
    decreases bs.len(),
{
    if bs.len() == 0 {
        None
    } else {
        match binding_error(bs[0], c) {
            Some(e) => Some(e),
            None => first_binding_error(bs.drop_first(), c),
        }
    }
}

/// What is wrong with a routing rule, if anything.
pub open spec fn route_error(r: RoutingRule, c: Config) -> Option<ConfigErrorView> {
    if !c.entities.has_key(r.when.entity@) {
        Some(ConfigErrorView::UnknownEntityInRoute(r.when.entity@))
    } else if !c.sources.has_key(r.target@) {
        Some(ConfigErrorView::UnknownTargetInRoute(r.target@))
    } else {
        None
    }
}

/// The error of the first faulty routing rule.
pub open spec fn first_route_error(rs: Seq<RoutingRule>, c: Config) -> Option<ConfigErrorView>
    decreases rs.len(),
{
    if rs.len() == 0 {
        None
    } else {
        match route_error(rs[0], c) {
            Some(e) => Some(e),
            None => first_route_error(rs.drop_first(), c),
        }
    }
}

/// Why a config does not compile, if it does not: the version, then the
/// bindings in order, then the routing rules in order.
pub open spec fn compile_failure(c: Config) -> Option<ConfigErrorView> {
    if c.version != SUPPORTED_VERSION {
        Some(ConfigErrorView::UnsupportedVersion(c.version, SUPPORTED_VERSION))
    } else {
        match first_binding_error(c.bindings@, c) {
            Some(e) => Some(e),
            None => first_route_error(c.routing@, c),
        }
    }
}

/// The bindings of `bs` for entity `k`, in order.
pub open spec fn group_of(bs: Seq<EntityBinding>, k: Seq<char>) -> Seq<EntityBinding>
    decreases bs.len(),
{
    if bs.len() == 0 {
        Seq::empty()
    } else if bs.last().entity@ == k {
        group_of(bs.drop_last(), k).push(bs.last())
    } else {
        group_of(bs.drop_last(), k)
    }
}

proof fn lemma_first_binding_error_skip(bs: Seq<EntityBinding>, c: Config, i: int)
    requires
        0 <= i <= bs.len(),
        forall|j: int| 0 <= j < i ==> binding_error(#[trigger] bs[j], c) is None,
    ensures
        first_binding_error(bs, c) == first_binding_error(bs.skip(i), c),
    decreases i,
{
    if i > 0 {
        assert(binding_error(bs[0], c) is None);
        assert forall|j: int| 0 <= j < i - 1 implies binding_error(#[trigger] bs.drop_first()[j], c) is None by {
            assert(bs.drop_first()[j] == bs[j + 1]);
        }
        lemma_first_binding_error_skip(bs.drop_first(), c, i - 1);
        assert(bs.drop_first().skip(i - 1) =~= bs.skip(i));
    } else {
        assert(bs.skip(0) =~= bs);
    }
}

proof fn lemma_first_route_error_skip(rs: Seq<RoutingRule>, c: Config, i: int)
    requires
        0 <= i <= rs.len(),
        forall|j: int| 0 <= j < i ==> route_error(#[trigger] rs[j], c) is None,
    ensures
        first_route_error(rs, c) == first_route_error(rs.skip(i), c),
    decreases i,
{
    if i > 0 {
        assert(route_error(rs[0], c) is None);
        assert forall|j: int| 0 <= j < i - 1 implies route_error(#[trigger] rs.drop_first()[j], c) is None by {
            assert(rs.drop_first()[j] == rs[j + 1]);
        }
        lemma_first_route_error_skip(rs.drop_first(), c, i - 1);
        assert(rs.drop_first().skip(i - 1) =~= rs.skip(i));
    } else {
        assert(rs.skip(0) =~= rs);
    }
}

impl Config {
    /// Validate the configuration and index it for runtime use.
    ///
    /// The version must be `SUPPORTED_VERSION`; every binding must name a
    /// declared entity and source and map only declared fields; every
    /// routing rule must name a declared entity and target a declared
    /// source. The first violation, in that order, is the error.
    pub fn compile(self) -> (r: Result<CompiledConfig, ConfigError>)
        ensures
            match compile_failure(self) {
                Some(e) => r matches Err(err) && err@ == e,
                None => r matches Ok(cc) && {
                    &&& cc.sources == self.sources
                    &&& cc.routing == self.routing
                    &&& resolves(cc.entities, self.entities)
                    &&& forall|k: Seq<char>| #[trigger] cc.bindings_by_entity.has_key(k) == (group_of(self.bindings@, k).len() > 0)
                    &&& forall|k: Seq<char>| #[trigger] cc.spec_bindings_for(k) == group_of(self.bindings@, k)
                },
            },
    {
        let ghost c = self;
        if self.version != SUPPORTED_VERSION {
            return Err(ConfigError::UnsupportedVersion { found: self.version, supported: SUPPORTED_VERSION });
        }
        let entities = self.entities_resolved();
        let Config { version: _, sources, entities: _, bindings, routing } = self;
        let ghost all = bindings@;
        let mut rest = bindings;
        let mut groups: StrMap<Vec<EntityBinding>> = StrMap::new();
        let ghost mut i: int = 0;
        while rest.len() > 0
            invariant
                c == self,
                c.version == SUPPORTED_VERSION,
                c.sources == sources,
                c.bindings@ == all,
                resolves(entities, c.entities),
                0 <= i <= all.len(),
                rest@ == all.skip(i),
                forall|j: int| 0 <= j < i ==> binding_error(#[trigger] all[j], c) is None,
                forall|k: Seq<char>| #[trigger] groups.has_key(k) == (group_of(all.take(i), k).len() > 0),
                forall|k: Seq<char>| #[trigger] groups.has_key(k) ==> groups.spec_get(k)->0@ == group_of(all.take(i), k),
            decreases rest.len(),
        {
            let binding = rest.remove(0);
            assert(binding == all[i]);
            assert(all.skip(i)[0] == all[i]);
            assert(all.skip(i).len() > 0);
            let entity = match entities.get(binding.entity.as_str()) {
                Some(e) => e,
                None => {
                    proof {
                        lemma_first_binding_error_skip(all, c, i);
                    }
                    return Err(ConfigError::UnknownEntityInBinding(binding.entity.clone()));
                },
            };
            if !sources.contains_key(binding.source.as_str()) {
                proof {
                    lemma_first_binding_error_skip(all, c, i);
                }
                return Err(ConfigError::UnknownSourceInBinding(binding.source.clone()));
            }
            let ghost fields = c.entities.spec_get(binding.entity@)->0.fields@;
            assert(entities.has_key(binding.entity@));
            assert(entity.fields@ == fields);
            let m = binding.field_map.mapping.len();
            let mut j: usize = 0;
            while j < m
                invariant
                    c == self,
                    c.version == SUPPORTED_VERSION,
                    c.bindings@ == all,
                    0 <= i < all.len(),
                    binding == all[i],
                    forall|q: int| 0 <= q < i ==> binding_error(#[trigger] all[q], c) is None,
                    all.skip(i)[0] == all[i],
                    entities.spec_get(binding.entity@) is Some,
                    c.entities.has_key(binding.entity@),
                    c.sources == sources,
                    sources.has_key(binding.source@),
                    fields == c.entities.spec_get(binding.entity@)->0.fields@,
                    m == binding.field_map.mapping.spec_len(),
                    j <= m,
                    entity.fields@ == fields,
                    forall|q: int| 0 <= q < j ==> lookup_field(fields, #[trigger] binding.field_map.mapping.keys()[q]) is Some,
                decreases m - j,
            {
                let (logical, _) = binding.field_map.mapping.entry_at(j);
                if entity.field(logical.as_str()).is_none() {
                    proof {
                        let ks = binding.field_map.mapping.keys();
                        assert(ks[j as int] == logical@);
                        lemma_first_unknown_key_skip(ks, fields, j as int);
                        assert(ks.skip(j as int)[0] == ks[j as int]);
                        assert(lookup_field(fields, logical@) is None);
                        assert(first_unknown_key(ks, fields) == Some(logical@));
                        assert(binding_error(all[i], c) == Some(ConfigErrorView::UnknownFieldInBinding(binding.entity@, logical@)));
                        lemma_first_binding_error_skip(all, c, i);
                        assert(first_binding_error(all, c) == binding_error(all[i], c));
                    }
                    return Err(ConfigError::UnknownFieldInBinding {
                        entity: binding.entity.clone(),
                        field: logical.clone(),
                    });
                }
                j = j + 1;
            }
            proof {
                lemma_first_unknown_key_skip(binding.field_map.mapping.keys(), fields, m as int);
                assert(binding_error(all[i], c) is None);
            }
            let key = binding.entity.clone();
            let key2 = binding.entity.clone();
            let ghost before = groups;
            let ghost bk = binding.entity@;
            let prev = groups.insert(key, Vec::new());
            let mut group = match prev {
                Some(g) => g,
                None => Vec::new(),
            };
            group.push(binding);
            groups.insert(key2, group);
            proof {
                let t = all.take(i + 1);
                assert(t.drop_last() =~= all.take(i));
                assert(t.last() == all[i]);
                assert forall|k: Seq<char>| #[trigger] groups.has_key(k) == (group_of(t, k).len() > 0) by {
                    if k == bk {
                        assert(group_of(t, k).len() > 0);
                    } else {
                        assert(group_of(t, k) == group_of(all.take(i), k));
                    }
                }
                assert forall|k: Seq<char>| #[trigger] groups.has_key(k) implies groups.spec_get(k)->0@ == group_of(t, k) by {
                    if k != bk {
                        assert(group_of(t, k) == group_of(all.take(i), k));
                    }
                }
            }
            proof {
                i = i + 1;
            }
        }
        proof {
            assert(all.take(all.len() as int) =~= all);
            assert(all.skip(i).len() == 0);
            lemma_first_binding_error_skip(all, c, i);
        }
        let n = routing.len();
        let mut q: usize = 0;
        while q < n
            invariant
                c == self,
                n == routing@.len(),
                c.routing == routing,
                c.sources == sources,
                c.version == SUPPORTED_VERSION,
                first_binding_error(c.bindings@, c) is None,
                resolves(entities, c.entities),
                q <= n,
                forall|j: int| 0 <= j < q ==> route_error(#[trigger] routing@[j], c) is None,
            decreases n - q,
        {
            let rule = &routing[q];
            assert(routing@.skip(q as int)[0] == routing@[q as int]);
            assert(routing@.skip(q as int).len() > 0);
            if !entities.contains_key(rule.when.entity.as_str()) {
                proof {
                    lemma_first_route_error_skip(routing@, c, q as int);
                }
                return Err(ConfigError::UnknownEntityInRoute(rule.when.entity.clone()));
            }
            if !sources.contains_key(rule.target.as_str()) {
                proof {
                    lemma_first_route_error_skip(routing@, c, q as int);
                }
                return Err(ConfigError::UnknownTargetInRoute(rule.target.clone()));
            }
            q = q + 1;
        }
        proof {
            lemma_first_route_error_skip(routing@, c, n as int);
            assert(routing@.skip(n as int).len() == 0);
        }
        let cc = CompiledConfig { sources, entities, bindings_by_entity: groups, routing };
        proof {
            assert forall|k: Seq<char>| #[trigger] cc.spec_bindings_for(k) == group_of(all, k) by {
                if !cc.bindings_by_entity.has_key(k) {
                    assert(group_of(all, k).len() == 0);
                    assert(group_of(all, k) =~= Seq::<EntityBinding>::empty());
                }
            }
        }
        Ok(cc)
    }
}

proof fn lemma_no_unknown_key(keys: Seq<Seq<char>>, fields: Seq<EntityField>)
    requires
        first_unknown_key(keys, fields) is None,
    ensures
        forall|j: int| 0 <= j < keys.len() ==> lookup_field(fields, #[trigger] keys[j]) is Some,
    decreases keys.len(),
{
    if keys.len() > 0 {
        lemma_no_unknown_key(keys.drop_first(), fields);
        assert forall|j: int| 0 <= j < keys.len() implies lookup_field(fields, #[trigger] keys[j]) is Some by {
            if j > 0 {
                assert(keys[j] == keys.drop_first()[j - 1]);
            }
        }
    }
}

proof fn lemma_no_binding_error(bs: Seq<EntityBinding>, c: Config)
    requires
        first_binding_error(bs, c) is None,
    ensures
        forall|i: int| 0 <= i < bs.len() ==> binding_error(#[trigger] bs[i], c) is None,
    decreases bs.len(),
{
    if bs.len() > 0 {
        lemma_no_binding_error(bs.drop_first(), c);
        assert forall|i: int| 0 <= i < bs.len() implies binding_error(#[trigger] bs[i], c) is None by {
            if i > 0 {
                assert(bs[i] == bs.drop_first()[i - 1]);
            }
        }
    }
}

proof fn lemma_no_route_error(rs: Seq<RoutingRule>, c: Config)
    requires
        first_route_error(rs, c) is None,
    ensures
        forall|i: int| 0 <= i < rs.len() ==> route_error(#[trigger] rs[i], c) is None,
    decreases rs.len(),
{
    if rs.len() > 0 {
        lemma_no_route_error(rs.drop_first(), c);
        assert forall|i: int| 0 <= i < rs.len() implies route_error(#[trigger] rs[i], c) is None by {
            if i > 0 {
                assert(rs[i] == rs.drop_first()[i - 1]);
            }
        }
    }
}

/// A configuration that compiles is referentially consistent: every
/// binding names a declared entity and a declared source and maps only
/// fields its entity declares, and every routing rule names a declared
/// entity and targets a declared source.
pub proof fn lemma_compiled_config_consistent(c: Config)
    requires
        compile_failure(c) is None,
    ensures
        forall|i: int|
            0 <= i < c.bindings@.len() ==> {
                let b = #[trigger] c.bindings@[i];
                &&& c.entities.has_key(b.entity@)
                &&& c.sources.has_key(b.source@)
                &&& forall|k: Seq<char>|
                    #[trigger] b.field_map.mapping.has_key(k) ==> lookup_field(
                        c.entities.spec_get(b.entity@)->0.fields@,
                        k,
                    ) is Some
            },
        forall|i: int|
            0 <= i < c.routing@.len() ==> {
                let r = #[trigger] c.routing@[i];
                &&& c.entities.has_key(r.when.entity@)
                &&& c.sources.has_key(r.target@)
            },
{
    lemma_no_binding_error(c.bindings@, c);
    lemma_no_route_error(c.routing@, c);
    assert forall|i: int| 0 <= i < c.bindings@.len() implies {
        let b = #[trigger] c.bindings@[i];
        &&& c.entities.has_key(b.entity@)
        &&& c.sources.has_key(b.source@)
        &&& forall|k: Seq<char>|
            #[trigger] b.field_map.mapping.has_key(k) ==> lookup_field(
                c.entities.spec_get(b.entity@)->0.fields@,
                k,
            ) is Some
    } by {
        let b = c.bindings@[i];
        assert(binding_error(b, c) is None);
        let keys = b.field_map.mapping.keys();
        let fields = c.entities.spec_get(b.entity@)->0.fields@;
        lemma_no_unknown_key(keys, fields);
        assert forall|k: Seq<char>| #[trigger] b.field_map.mapping.has_key(k) implies lookup_field(fields, k) is Some by {
            let j = choose|j: int| 0 <= j < keys.len() && keys[j] == k;
            assert(lookup_field(fields, keys[j]) is Some);
        }
    }
    assert forall|i: int| 0 <= i < c.routing@.len() implies {
        let r = #[trigger] c.routing@[i];
        &&& c.entities.has_key(r.when.entity@)
        &&& c.sources.has_key(r.target@)
    } by {
        assert(route_error(c.routing@[i], c) is None);
    }
}

} // verus!
