//! The top-level YAML configuration.

use vstd::prelude::*;

use crate::config::routing::RoutingRule;
use crate::config::source::SourceConfig;
use crate::entity::{clone_fields, Entity, EntityBinding, EntityField};
use crate::strmap::StrMap;

verus! {

/// The config-file version this library reads.
pub const SUPPORTED_VERSION: u32 = 1;

/// Top-level configuration.
#[derive(Debug)]
pub struct Config {
    /// Schema version of the file; must equal `SUPPORTED_VERSION`.
    pub version: u32,
    /// Named sources.
    pub sources: StrMap<SourceConfig>,
    /// Named entities (the name is the map key).
    pub entities: StrMap<EntityFromYaml>,
    /// Entity → source bindings, in declared order.
    pub bindings: Vec<EntityBinding>,
    /// Routing rules, in declared order (first match wins).
    pub routing: Vec<RoutingRule>,
}

/// The YAML shape of an entity: its field list (the name is the map key).
#[derive(Debug)]
pub struct EntityFromYaml {
    /// Field declarations.
    pub fields: Vec<EntityField>,
}

/// `entities` holds, under each key of `yaml`, the entity of that name with
/// the declared fields, and nothing else.
pub open spec fn resolves(entities: StrMap<Entity>, yaml: StrMap<EntityFromYaml>) -> bool {
    &&& forall|k: Seq<char>| #[trigger] entities.has_key(k) == yaml.has_key(k)
    &&& forall|k: Seq<char>|
        #[trigger] yaml.has_key(k) ==> (entities.spec_get(k) matches Some(e) && e.name@ == k && e.fields@
            == yaml.spec_get(k)->0.fields@)
}

impl Config {
    /// Build the entities from the YAML shape, naming each after its key.
    pub fn entities_resolved(&self) -> (r: StrMap<Entity>)
        ensures
            resolves(r, self.entities),
    {
        let mut out: StrMap<Entity> = StrMap::new();
        let n = self.entities.len();
        let mut i: usize = 0;
        while i < n
            invariant
                n == self.entities.spec_len(),
                i <= n,
                crate::strmap::keys_sorted(self.entities.keys()),
                forall|k: Seq<char>|
                    #[trigger] out.has_key(k) == (exists|j: int| 0 <= j < i && self.entities.keys()[j] == k),
                forall|j: int|
                    0 <= j < i ==> (out.spec_get(#[trigger] self.entities.keys()[j]) matches Some(e)
                        && e.name@ == self.entities.keys()[j] && e.fields@
                        == self.entities.values()[j].fields@),
            decreases n - i,
        {
            let (name, body) = self.entities.entry_at(i);
            let ghost before = out;
            out.insert(name.clone(), Entity { name: name.clone(), fields: clone_fields(&body.fields) });
            proof {
                assert(self.entities.keys()[i as int] == name@);
                assert forall|j: int| 0 <= j < i implies self.entities.keys()[j] != name@ by {
                    assert(crate::text::seq_less(self.entities.keys()[j], self.entities.keys()[i as int]));
                    crate::text::lemma_less_irreflexive(name@);
                }
                assert forall|k: Seq<char>| #[trigger] out.has_key(k) == (exists|j: int| 0 <= j < i + 1 && self.entities.keys()[j] == k) by {
                    if k != name@ {
                        if exists|j: int| 0 <= j < i + 1 && self.entities.keys()[j] == k {
                            let j = choose|j: int| 0 <= j < i + 1 && self.entities.keys()[j] == k;
                            assert(0 <= j < i && self.entities.keys()[j] == k);
                        }
                    } else {
                        assert(0 <= i < i + 1 && self.entities.keys()[i as int] == k);
                    }
                }
            }
            i = i + 1;
        }
        proof {
            assert forall|k: Seq<char>| #[trigger] out.has_key(k) == self.entities.has_key(k) by {
                if self.entities.has_key(k) {
                    let j = choose|j: int| 0 <= j < self.entities.keys().len() && self.entities.keys()[j] == k;
                    assert(0 <= j < n && self.entities.keys()[j] == k);
                }
                if out.has_key(k) {
                    let j = choose|j: int| 0 <= j < n && self.entities.keys()[j] == k;
                    assert(self.entities.keys().contains(k));
                }
            }
            assert forall|k: Seq<char>| #[trigger] self.entities.has_key(k) implies (out.spec_get(k) matches Some(e) && e.name@ == k && e.fields@
                == self.entities.spec_get(k)->0.fields@) by {
                let j = choose|j: int| 0 <= j < self.entities.keys().len() && self.entities.keys()[j] == k;
                self.entities.lemma_get_by_index(j);
            }
        }
        out
    }
}

} // verus!
