//! Species: the configuration of every organ of a kind of plant.
use crate::model::organ::{tissue_config_of, tissue_kinds, OrganConfig, OrganType};
use crate::model::tissue::{TissueConfig, TissueType};
use crate::shared::lookup::{first_index, lemma_first_index_is, lemma_first_index_none};
use vstd::prelude::*;

verus! {

/// The name of a species.
#[derive(Clone, Copy, Debug)]
pub struct SpeciesId(pub &'static str);

/// The configuration of a species: one configuration for each kind of organ
/// that it has. Where a kind occurs twice, the first entry counts.
#[derive(Clone, Debug)]
pub struct SpeciesConfig {
    pub organs: Vec<(OrganType, OrganConfig)>,
}

/// A species with the marks that tell whether its configuration was changed
/// by the user or in its file.
#[derive(Clone, Debug)]
pub struct Species {
    pub id: SpeciesId,
    pub changed_from_ui: bool,
    pub changed_from_file: bool,
    pub config: SpeciesConfig,
}

/// The kinds of organ of the entries, in their order.
pub open spec fn organ_kinds(organs: Seq<(OrganType, OrganConfig)>) -> Seq<OrganType> {
    Seq::new(organs.len(), |i: int| organs[i].0)
}

/// The configuration that a species has for a kind of tissue in a kind of
/// organ: that of the first entry for the tissue within the first entry for
/// the organ.
pub open spec fn species_config(
    config: SpeciesConfig,
    organ_type: OrganType,
    tissue_type: TissueType,
) -> Option<TissueConfig> {
    match first_index(organ_kinds(config.organs@), organ_type) {
        Some(index) => tissue_config_of(config.organs@[index].1.tissues@, tissue_type),
        None => None,
    }
}

/// The species called Arabidopsis thaliana.
pub fn arabidopsis_id() -> (id: SpeciesId)
    ensures
        id.0@ == "Arabidopsis thaliana"@,
{
    SpeciesId("Arabidopsis thaliana")
}

impl SpeciesConfig {
    /// The position of the first entry for a kind of organ.
    pub fn position_of(&self, kind: OrganType) -> (found: Option<usize>)
        ensures
            match found {
                Some(index) => first_index(organ_kinds(self.organs@), kind) == Some(index as int)
                    && index < self.organs@.len(),
                None => first_index(organ_kinds(self.organs@), kind) is None,
            },
    {
        let n: usize = self.organs.len();
        let mut i: usize = 0;
        while i < n
            invariant
                n == self.organs@.len(),
                i <= n,
                forall|k: int| 0 <= k < i ==> organ_kinds(self.organs@)[k] != kind,
            decreases n - i,
        {
            if self.organs[i].0 == kind {
                proof {
                    lemma_first_index_is(organ_kinds(self.organs@), kind, i as int);
                }
                return Some(i);
            }
            i = i + 1;
        }
        proof {
            lemma_first_index_none(organ_kinds(self.organs@), kind);
        }
        None
    }
}

impl Species {
    /// A species as it is read from its configuration, unchanged.
    pub fn new(id: SpeciesId, config: SpeciesConfig) -> (species: Species)
        ensures
            species.id == id,
            species.config == config,
            !species.changed_from_ui,
            !species.changed_from_file,
    {
        Species { id, config, changed_from_file: false, changed_from_ui: false }
    }

    /// Takes over a configuration that was read anew.
    pub fn update_config(&mut self, config: SpeciesConfig)
        ensures
            final(self).config == config,
            final(self).id == old(self).id,
            final(self).changed_from_ui == old(self).changed_from_ui,
            final(self).changed_from_file == old(self).changed_from_file,
    {
        self.config = config;
    }

    /// The configuration of a kind of organ, if the species has one.
    pub fn organ_config(&self, organ_type: OrganType) -> (config: Option<&OrganConfig>)
        ensures
            match first_index(organ_kinds(self.config.organs@), organ_type) {
                Some(index) => config == Some(&self.config.organs@[index].1),
                None => config is None,
            },
    {
        match self.config.position_of(organ_type) {
            Some(index) => Some(&self.config.organs[index].1),
            None => None,
        }
    }

    /// The configuration of a kind of tissue in a kind of organ, if the
    /// species has one.
    pub fn tissue_config(&self, organ_type: OrganType, tissue_type: TissueType) -> (config: Option<
        TissueConfig,
    >)
        ensures
            config == species_config(self.config, organ_type, tissue_type),
    {
        match self.config.position_of(organ_type) {
            Some(o) => self.config.organs[o].1.tissue_config(tissue_type),
            None => None,
        }
    }

    /// Replaces the configuration of a kind of tissue in a kind of organ.
    /// Returns whether the species has such a configuration; if not, nothing
    /// changes.
    pub fn set_tissue_config(
        &mut self,
        organ_type: OrganType,
        tissue_type: TissueType,
        new_config: TissueConfig,
    ) -> (replaced: bool)
        ensures
            final(self).id == old(self).id,
            final(self).changed_from_ui == old(self).changed_from_ui,
            final(self).changed_from_file == old(self).changed_from_file,
            replaced == species_config(old(self).config, organ_type, tissue_type) is Some,
            replaced ==> species_config(final(self).config, organ_type, tissue_type) == Some(
                new_config,
            ) && organ_kinds(final(self).config.organs@) == organ_kinds(old(self).config.organs@),
            !replaced ==> final(self).config == old(self).config,
    {
        match self.config.position_of(organ_type) {
            Some(o) => {
                match self.config.organs[o].1.position_of(tissue_type) {
                    Some(t) => {
                        let kind: OrganType = self.config.organs[o].0;
                        let organ: OrganConfig = self.config.organs[o].1.with_entry(
                            t,
                            (tissue_type, new_config),
                        );
                        let ghost before = self.config.organs@;
                        self.config.organs.set(o, (kind, organ));
                        proof {
                            crate::shared::lookup::lemma_first_index_found(
                                tissue_kinds(before[o as int].1.tissues@),
                                tissue_type,
                            );
                            crate::shared::lookup::lemma_first_index_found(
                                organ_kinds(before),
                                organ_type,
                            );
                            assert(organ_kinds(self.config.organs@) =~= organ_kinds(before));
                            assert(tissue_kinds(organ.tissues@) =~= tissue_kinds(
                                before[o as int].1.tissues@,
                            ));
                        }
                        true
                    },
                    None => false,
                }
            },
            None => false,
        }
    }
}

} // verus!
