//! The state of the application: what the user looks at, how fast the
//! simulation runs, how far it has come, and the species that is simulated.
use crate::engine::cell_events::{
    find_organ, find_tissue, models, organ_ids, tissue_ids, CellRecord, OrganRecord, TissueModel,
    TissueRecord,
};
use crate::model::cell::{Cell, GrowthFactors};
use crate::model::organ::{OrganConfig, OrganType};
use crate::model::species::{organ_kinds, species_config, Species, SpeciesConfig};
use crate::model::tissue::{Tissue, TissueConfig, TissueType};
use crate::shared::fixed::{fixed_mul, in_limit, lemma_mul_bound, mul_fixed, LIMIT, SCALE};
use crate::shared::lookup::first_index;
use vstd::prelude::*;

verus! {

/// The notice that the user looks at another level.
#[derive(Clone, Copy, Debug, PartialEq, Eq, Structural)]
pub struct ApplicationStateChanged {}

/// What the user looks at.
#[derive(Clone, Copy, Debug, PartialEq, Eq, Structural)]
pub enum Level {
    Cells,
    Tissues,
}

/// The state of a running simulation.
#[derive(Clone, Copy, Debug, PartialEq, Eq, Structural)]
pub struct RunningState {
    pub level: Level,
    /// How many seconds of the simulation pass in one second.
    pub speed: i64,
}

/// The state of the application.
#[derive(Clone, Copy, Debug, PartialEq, Eq, Structural)]
pub enum ApplicationState {
    Running(RunningState),
}

/// The clock of the simulation.
#[derive(Clone, Copy, Debug, PartialEq, Eq, Structural)]
pub struct SimulationTime {
    /// The time since the simulation began.
    pub elapsed: i64,
    /// The length of the last step.
    pub delta_secs: i64,
}

/// The species that is simulated.
#[derive(Clone, Debug)]
pub struct PlantState(pub Species);

/// The other level.
pub open spec fn other_level(level: Level) -> Level {
    match level {
        Level::Cells => Level::Tissues,
        Level::Tissues => Level::Cells,
    }
}

impl Default for ApplicationState {
    /// A simulation that shows cells and runs at the speed of the clock.
    fn default() -> (state: ApplicationState)
        ensures
            state == ApplicationState::Running(RunningState { level: Level::Cells, speed: SCALE }),
    {
        ApplicationState::Running(RunningState { level: Level::Cells, speed: SCALE })
    }
}

impl Default for SimulationTime {
    /// The clock at the beginning.
    fn default() -> (time: SimulationTime)
        ensures
            time == (SimulationTime { elapsed: 0, delta_secs: 0 }),
    {
        SimulationTime { elapsed: 0, delta_secs: 0 }
    }
}

impl ApplicationState {
    /// A simulation that shows cells and runs at the speed of the clock.
    pub fn new() -> (state: ApplicationState)
        ensures
            state == ApplicationState::Running(RunningState { level: Level::Cells, speed: SCALE }),
    {
        ApplicationState::Running(RunningState { level: Level::Cells, speed: SCALE })
    }

    /// The level that the user looks at.
    pub fn level(&self) -> (level: Level)
        ensures
            *self matches ApplicationState::Running(running) && level == running.level,
    {
        match self {
            ApplicationState::Running(running) => running.level,
        }
    }
}

/// Switches between the levels when the tabulator key has just been
/// pressed, and gives notice of it.
pub fn handle_tab_to_switch_modes(tab_just_pressed: bool, state: &mut ApplicationState) -> (notice:
    Option<ApplicationStateChanged>)
    ensures
        tab_just_pressed ==> notice == Some(ApplicationStateChanged {  }) && (*old(state)
            matches ApplicationState::Running(before) && *final(state) == ApplicationState::Running(
            RunningState { level: other_level(before.level), speed: before.speed },
        )),
        !tab_just_pressed ==> notice is None && *final(state) == *old(state),
{
    if tab_just_pressed {
        match state {
            ApplicationState::Running(running) => {
                let level: Level = match running.level {
                    Level::Cells => Level::Tissues,
                    Level::Tissues => Level::Cells,
                };
                *state = ApplicationState::Running(RunningState { level, speed: running.speed });
            },
        }
        Some(ApplicationStateChanged {  })
    } else {
        None
    }
}

/// The clock after a frame that took `frame_secs`: the step is the frame's
/// length times the speed, and the elapsed time grows by the step.
pub open spec fn advanced(time: SimulationTime, frame_secs: i64, speed: i64) -> SimulationTime {
    SimulationTime {
        elapsed: (time.elapsed + mul_fixed(frame_secs as int, speed as int)) as i64,
        delta_secs: mul_fixed(frame_secs as int, speed as int) as i64,
    }
}

/// The clock can be advanced: the frame's length, the speed, the step and
/// the elapsed time afterwards are all within the limit.
pub open spec fn can_advance(time: SimulationTime, frame_secs: i64, speed: i64) -> bool {
    &&& in_limit(frame_secs as int)
    &&& in_limit(speed as int)
    &&& in_limit(mul_fixed(frame_secs as int, speed as int))
    &&& in_limit(time.elapsed + mul_fixed(frame_secs as int, speed as int))
}

/// Advances the clock of the simulation by one frame. Returns whether it
/// did; the clock stays as it is where it would leave the limit.
pub fn update_simulation_time(
    frame_secs: i64,
    state: &ApplicationState,
    sim_time: &mut SimulationTime,
) -> (advanced_clock: bool)
    ensures
        *state matches ApplicationState::Running(running) && {
            &&& advanced_clock == can_advance(*old(sim_time), frame_secs, running.speed)
            &&& advanced_clock ==> *final(sim_time) == advanced(
                *old(sim_time),
                frame_secs,
                running.speed,
            )
            &&& !advanced_clock ==> *final(sim_time) == *old(sim_time)
        },
{
    match state {
        ApplicationState::Running(running) => {
            let speed: i64 = running.speed;
            if frame_secs < -LIMIT || frame_secs > LIMIT || speed < -LIMIT || speed > LIMIT {
                return false;
            }
            proof {
                lemma_mul_bound(
                    frame_secs as int,
                    speed as int,
                    1_000_000_000_000,
                    1_000_000_000_000,
                );
            }
            let step: i128 = fixed_mul(frame_secs as i128, speed as i128);
            let limit: i128 = LIMIT as i128;
            if step < -limit || step > limit {
                return false;
            }
            let elapsed: i128 = sim_time.elapsed as i128 + step;
            if elapsed < -limit || elapsed > limit {
                return false;
            }
            sim_time.delta_secs = step as i64;
            sim_time.elapsed = elapsed as i64;
            true
        },
    }
}

impl PlantState {
    /// The name of the species.
    pub fn name(&self) -> (name: &'static str)
        ensures
            name@ == self.0.id.0@,
    {
        self.0.id.0
    }

    pub fn changed_from_ui(&self) -> (changed: bool)
        ensures
            changed == self.0.changed_from_ui,
    {
        self.0.changed_from_ui
    }

    pub fn set_changed_from_ui(&mut self, value: bool)
        ensures
            final(self).0 == (Species { changed_from_ui: value, ..old(self).0 }),
    {
        self.0.changed_from_ui = value;
    }

    pub fn changed_from_file(&self) -> (changed: bool)
        ensures
            changed == self.0.changed_from_file,
    {
        self.0.changed_from_file
    }

    pub fn set_changed_from_file(&mut self, value: bool)
        ensures
            final(self).0 == (Species { changed_from_file: value, ..old(self).0 }),
    {
        self.0.changed_from_file = value;
    }

    /// The configuration of a kind of organ, if the species has one.
    pub fn organ_config(&self, organ_type: &OrganType) -> (config: Option<&OrganConfig>)
        ensures
            match first_index(organ_kinds(self.0.config.organs@), *organ_type) {
                Some(index) => config == Some(&self.0.config.organs@[index].1),
                None => config is None,
            },
    {
        self.0.organ_config(*organ_type)
    }

    /// The configuration of a kind of tissue in a kind of organ, if the
    /// species has one.
    pub fn tissue_config(&self, organ_type: &OrganType, tissue_type: &TissueType) -> (config:
        Option<TissueConfig>)
        ensures
            config == species_config(self.0.config, *organ_type, *tissue_type),
    {
        self.0.tissue_config(*organ_type, *tissue_type)
    }
}

/// The configuration that a tissue gets when the species's configuration
/// has changed: what the species has for the tissue's kind in the kind of
/// the tissue's organ; what the tissue has, where the organ is not known or
/// the species has nothing for it.
pub open spec fn refreshed_config(
    tissue: TissueModel,
    organs: Seq<OrganRecord>,
    species: Species,
) -> TissueConfig {
    match first_index(organ_ids(organs), tissue.organ_ref) {
        Some(o) => match species_config(species.config, organs[o].organ.kind, tissue.kind) {
            Some(config) => config,
            None => tissue.config,
        },
        None => tissue.config,
    }
}

/// The cell living by the configuration of its tissue, if the tissue is
/// known; else as it is.
pub open spec fn refreshed_cell(record: CellRecord, tissues: Seq<TissueModel>) -> CellRecord {
    match first_index(tissue_ids(tissues), record.cell.tissue) {
        Some(t) => CellRecord {
            cell: Cell {
                tissue_config: tissues[t].config,
                growth_factors: GrowthFactors {
                    size_threshold: tissues[t].config.max_cell_volume,
                    ..record.cell.growth_factors
                },
                ..record.cell
            },
            ..record
        },
        None => record,
    }
}

/// Gives every tissue the configuration that the species has for it.
pub fn refresh_tissues(species: &Species, organs: &Vec<OrganRecord>, tissues: &mut Vec<TissueRecord>)
    ensures
        final(tissues)@.len() == old(tissues)@.len(),
        forall|i: int|
            0 <= i < old(tissues)@.len() ==> (#[trigger] models(final(tissues)@)[i]) == (TissueModel {
                config: refreshed_config(models(old(tissues)@)[i], organs@, *species),
                ..models(old(tissues)@)[i]
            }),
{
    let n: usize = tissues.len();
    let mut i: usize = 0;
    while i < n
        invariant
            n == tissues@.len(),
            n == old(tissues)@.len(),
            i <= n,
            forall|k: int|
                0 <= k < i ==> (#[trigger] models(tissues@)[k]) == (TissueModel {
                    config: refreshed_config(models(old(tissues)@)[k], organs@, *species),
                    ..models(old(tissues)@)[k]
                }),
            forall|k: int| i <= k < n ==> (#[trigger] models(tissues@)[k]) == models(old(tissues)@)[k],
        decreases n - i,
    {
        let ghost before = models(tissues@);
        let kind: TissueType = tissues[i].tissue.kind;
        let organ_ref: u64 = tissues[i].tissue.organ_ref;
        let found: Option<TissueConfig> = match find_organ(organs, organ_ref) {
            Some(o) => species.tissue_config(organs[o].organ.kind, kind),
            None => None,
        };
        match found {
            Some(config) => {
                let record: TissueRecord = TissueRecord {
                    id: tissues[i].id,
                    tissue: Tissue {
                        kind,
                        organ_ref,
                        cell_refs: tissues[i].tissue.cell_refs.clone(),
                        config,
                    },
                };
                tissues.set(i, record);
            },
            None => {},
        }
        proof {
            assert(before[i as int] == models(old(tissues)@)[i as int]);
            assert forall|k: int| 0 <= k < i + 1 implies (#[trigger] models(tissues@)[k])
                == (TissueModel {
                config: refreshed_config(models(old(tissues)@)[k], organs@, *species),
                ..models(old(tissues)@)[k]
            }) by {
                if k < i {
                    assert(models(tissues@)[k] == before[k]);
                }
            }
            assert forall|k: int| i + 1 <= k < n implies (#[trigger] models(tissues@)[k]) == models(
                old(tissues)@,
            )[k] by {
                assert(models(tissues@)[k] == before[k]);
            }
        }
        i = i + 1;
    }
}

/// Lets every cell live by the configuration of its tissue.
pub fn refresh_cells(tissues: &Vec<TissueRecord>, cells: &mut Vec<CellRecord>)
    ensures
        final(cells)@.len() == old(cells)@.len(),
        forall|i: int|
            0 <= i < old(cells)@.len() ==> (#[trigger] final(cells)@[i]) == refreshed_cell(
                old(cells)@[i],
                models(tissues@),
            ),
{
    let n: usize = cells.len();
    let mut i: usize = 0;
    while i < n
        invariant
            n == cells@.len(),
            n == old(cells)@.len(),
            i <= n,
            forall|k: int|
                0 <= k < i ==> (#[trigger] cells@[k]) == refreshed_cell(
                    old(cells)@[k],
                    models(tissues@),
                ),
            forall|k: int| i <= k < n ==> (#[trigger] cells@[k]) == old(cells)@[k],
        decreases n - i,
    {
        let record: CellRecord = cells[i];
        match find_tissue(tissues, record.cell.tissue) {
            Some(t) => {
                let mut cell: Cell = record.cell;
                cell.update_tissue_config(tissues[t].tissue.config);
                cells.set(i, CellRecord { id: record.id, cell, info: record.info });
            },
            None => {},
        }
        i = i + 1;
    }
}

/// Takes note that the configuration of the species has changed, in its
/// file or by the user: takes over the configuration that was read anew
/// from the file, if the file has changed and one is given, clears the mark,
/// and passes the configuration on to the tissues and from there to the
/// cells. Returns whether there was a change to take note of; if not,
/// nothing happens.
pub fn update_plant_state(
    plant_state: &mut PlantState,
    reloaded: Option<SpeciesConfig>,
    organs: &Vec<OrganRecord>,
    tissues: &mut Vec<TissueRecord>,
    cells: &mut Vec<CellRecord>,
) -> (changed: bool)
    ensures
        changed == (old(plant_state).0.changed_from_file || old(plant_state).0.changed_from_ui),
        final(plant_state).0.id == old(plant_state).0.id,
        !changed ==> final(plant_state).0 == old(plant_state).0 && final(tissues)@ == old(tissues)@ && final(cells)@ == old(cells)@,
        changed ==> {
            &&& final(plant_state).0.changed_from_file == false
            &&& final(plant_state).0.changed_from_ui == (old(plant_state).0.changed_from_file
                && old(plant_state).0.changed_from_ui)
            &&& final(plant_state).0.config == (if old(plant_state).0.changed_from_file
                && reloaded is Some {
                reloaded->0
            } else {
                old(plant_state).0.config
            })
            &&& final(tissues)@.len() == old(tissues)@.len()
            &&& final(cells)@.len() == old(cells)@.len()
            &&& forall|i: int|
                0 <= i < old(tissues)@.len() ==> (#[trigger] models(final(tissues)@)[i])
                    == (TissueModel {
                    config: refreshed_config(
                        models(old(tissues)@)[i],
                        organs@,
                        final(plant_state).0,
                    ),
                    ..models(old(tissues)@)[i]
                })
            &&& forall|i: int|
                0 <= i < old(cells)@.len() ==> (#[trigger] final(cells)@[i]) == refreshed_cell(
                    old(cells)@[i],
                    models(final(tissues)@),
                )
        },
{
    if !(plant_state.changed_from_file() || plant_state.changed_from_ui()) {
        return false;
    }
    if plant_state.changed_from_file() {
        match reloaded {
            Some(config) => {
                plant_state.0.update_config(config);
            },
            None => {},
        }
        plant_state.set_changed_from_file(false);
    } else {
        plant_state.set_changed_from_ui(false);
    }
    refresh_tissues(&plant_state.0, organs, tissues);
    refresh_cells(tissues, cells);
    true
}

} // verus!
