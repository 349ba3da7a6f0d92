//! Organs: named collections of tissues.
use crate::model::tissue::{TissueConfig, TissueType};
use crate::shared::lookup::{first_index, lemma_first_index_is, lemma_first_index_none};
use vstd::prelude::*;

verus! {

/// The kind of an organ.
#[derive(Clone, Copy, Debug, PartialEq, Eq, Hash, Structural)]
pub enum OrganType {
    Stem,
    Root,
    Leaf,
}

/// The configuration of an organ: one configuration for each kind of tissue
/// that it has. Where a kind occurs twice, the first entry counts.
#[derive(Clone, Debug)]
pub struct OrganConfig {
    pub tissues: Vec<(TissueType, TissueConfig)>,
}

/// An organ.
#[derive(Clone, Debug)]
pub struct Organ {
    pub kind: OrganType,
    pub config: OrganConfig,
}

/// The kinds of tissue of the entries, in their order.
pub open spec fn tissue_kinds(tissues: Seq<(TissueType, TissueConfig)>) -> Seq<TissueType> {
    Seq::new(tissues.len(), |i: int| tissues[i].0)
}

/// The configuration that the entries hold for a kind of tissue: that of
/// the first entry for the kind.
pub open spec fn tissue_config_of(
    tissues: Seq<(TissueType, TissueConfig)>,
    kind: TissueType,
) -> Option<TissueConfig> {
    match first_index(tissue_kinds(tissues), kind) {
        Some(index) => Some(tissues[index].1),
        None => None,
    }
}

impl OrganConfig {
    /// A configuration without tissues.
    pub fn new() -> (config: OrganConfig)
        ensures
            config.tissues@.len() == 0,
    {
        OrganConfig { tissues: Vec::new() }
    }

    /// The position of the first entry for a kind of tissue.
    pub fn position_of(&self, kind: TissueType) -> (found: Option<usize>)
        ensures
            match found {
                Some(index) => first_index(tissue_kinds(self.tissues@), kind) == Some(index as int)
                    && index < self.tissues@.len(),
                None => first_index(tissue_kinds(self.tissues@), kind) is None,
            },
    {
        let n: usize = self.tissues.len();
        let mut i: usize = 0;
        while i < n
            invariant
                n == self.tissues@.len(),
                i <= n,
                forall|k: int| 0 <= k < i ==> tissue_kinds(self.tissues@)[k] != kind,
            decreases n - i,
        {
            if self.tissues[i].0 == kind {
                proof {
                    lemma_first_index_is(tissue_kinds(self.tissues@), kind, i as int);
                }
                return Some(i);
            }
            i = i + 1;
        }
        proof {
            lemma_first_index_none(tissue_kinds(self.tissues@), kind);
        }
        None
    }

    /// This configuration with the entry at `index` replaced.
    pub fn with_entry(&self, index: usize, entry: (TissueType, TissueConfig)) -> (config:
        OrganConfig)
        requires
            index < self.tissues@.len(),
        ensures
            config.tissues@ == self.tissues@.update(index as int, entry),
    {
        let n: usize = self.tissues.len();
        let mut tissues: Vec<(TissueType, TissueConfig)> = Vec::new();
        let mut i: usize = 0;
        while i < n
            invariant
                n == self.tissues@.len(),
                i <= n,
                index < n,
                tissues@ == self.tissues@.update(index as int, entry).subrange(0, i as int),
            decreases n - i,
        {
            if i == index {
                tissues.push(entry);
            } else {
                tissues.push(self.tissues[i]);
            }
            proof {
                assert(tissues@ =~= self.tissues@.update(index as int, entry).subrange(0, i + 1));
            }
            i = i + 1;
        }
        proof {
            assert(tissues@ =~= self.tissues@.update(index as int, entry));
        }
        OrganConfig { tissues }
    }

    /// The configuration of a kind of tissue, if the organ has one.
    pub fn tissue_config(&self, kind: TissueType) -> (config: Option<TissueConfig>)
        ensures
            config == tissue_config_of(self.tissues@, kind),
    {
        match self.position_of(kind) {
            Some(index) => Some(self.tissues[index].1),
            None => None,
        }
    }
}

impl Organ {
    pub fn new(kind: OrganType, config: OrganConfig) -> (organ: Organ)
        ensures
            organ.kind == kind,
            organ.config == config,
    {
        Organ { kind, config }
    }
}

} // verus!
