//! Selection: which cells and tissues the user has picked, and in which
//! colour a cell is drawn for it.
use crate::engine::state::{ApplicationState, Level};
use vstd::prelude::*;

verus! {

/// Whether a cell or a tissue is selected.
#[derive(Clone, Copy, Debug, PartialEq, Eq, Structural)]
pub struct Selected(pub bool);

/// The request to toggle the selection of a cell.
#[derive(Clone, Copy, Debug, PartialEq, Eq, Structural)]
pub struct SelectCellEvent {
    pub target_cell: u64,
}

/// The request to toggle the selection of a tissue.
#[derive(Clone, Copy, Debug, PartialEq, Eq, Structural)]
pub struct SelectTissueEvent {
    pub target_tissue: u64,
}

/// What a click on a cell asks for.
#[derive(Clone, Copy, Debug, PartialEq, Eq, Structural)]
pub enum Selection {
    Cell(SelectCellEvent),
    Tissue(SelectTissueEvent),
}

/// The material in which a cell is drawn.
#[derive(Clone, Copy, Debug, PartialEq, Eq, Structural)]
pub enum Material {
    /// The material of a cell that is not selected.
    Plain,
    /// The material of a selected cell.
    Highlighted,
    /// The material of the cell under the pointer.
    Hovered,
}

/// The material that shows whether something is selected.
pub open spec fn material_of(selected: bool) -> Material {
    if selected {
        Material::Highlighted
    } else {
        Material::Plain
    }
}

/// What counts for the drawing of a cell: its own selection where the user
/// looks at cells, the selection of its tissue where the user looks at
/// tissues.
pub open spec fn shown_selection(level: Level, cell: Selected, tissue: Selected) -> bool {
    match level {
        Level::Cells => cell.0,
        Level::Tissues => tissue.0,
    }
}

/// Turns a click on a cell into a request: to select the cell where the
/// user looks at cells, to select the cell's tissue where the user looks at
/// tissues.
pub fn selection_on_mouse_released(state: &ApplicationState, cell: u64, tissue: u64) -> (request:
    Selection)
    ensures
        *state matches ApplicationState::Running(running) && request == (match running.level {
            Level::Cells => Selection::Cell(SelectCellEvent { target_cell: cell }),
            Level::Tissues => Selection::Tissue(SelectTissueEvent { target_tissue: tissue }),
        }),
{
    match state.level() {
        Level::Cells => Selection::Cell(SelectCellEvent { target_cell: cell }),
        Level::Tissues => Selection::Tissue(SelectTissueEvent { target_tissue: tissue }),
    }
}

/// Toggles the selection of a cell. Returns the material in which the cell
/// is to be drawn from now on, if the user looks at cells; else the drawing
/// stays as it is.
pub fn handle_select_cell_event(selected: &mut Selected, state: &ApplicationState) -> (material:
    Option<Material>)
    ensures
        final(selected).0 == !old(selected).0,
        *state matches ApplicationState::Running(running) && material == (match running.level {
            Level::Cells => Some(material_of(final(selected).0)),
            Level::Tissues => None,
        }),
{
    selected.0 = !selected.0;
    match state.level() {
        Level::Cells => Some(pick_material(selected.0)),
        Level::Tissues => None,
    }
}

/// Toggles the selection of a tissue. Returns the material in which the
/// cells of the tissue are to be drawn from now on, if the user looks at
/// tissues; else the drawing stays as it is.
pub fn handle_select_tissue_event(selected: &mut Selected, state: &ApplicationState) -> (material:
    Option<Material>)
    ensures
        final(selected).0 == !old(selected).0,
        *state matches ApplicationState::Running(running) && material == (match running.level {
            Level::Tissues => Some(material_of(final(selected).0)),
            Level::Cells => None,
        }),
{
    selected.0 = !selected.0;
    match state.level() {
        Level::Tissues => Some(pick_material(selected.0)),
        Level::Cells => None,
    }
}

/// The material in which a cell is drawn after the user has changed the
/// level: that of its own selection or of its tissue's, as the level says.
/// A cell whose tissue is not known keeps its material where the user looks
/// at tissues.
pub fn handle_application_state_changed_event(
    state: &ApplicationState,
    cell: &Selected,
    tissue: Option<&Selected>,
) -> (material: Option<Material>)
    ensures
        *state matches ApplicationState::Running(running) && material == (match running.level {
            Level::Cells => Some(material_of(cell.0)),
            Level::Tissues => match tissue {
                Some(selected) => Some(material_of(selected.0)),
                None => None,
            },
        }),
{
    match state.level() {
        Level::Cells => Some(pick_material(cell.0)),
        Level::Tissues => match tissue {
            Some(selected) => Some(pick_material(selected.0)),
            None => None,
        },
    }
}

/// The material of a cell when the pointer reaches or leaves it: one of the
/// two given, as the selection that counts at the level says.
pub fn update_material_on(
    on_selected_material: Material,
    on_not_selected_material: Material,
    state: &ApplicationState,
    cell: &Selected,
    tissue: &Selected,
) -> (material: Material)
    ensures
        *state matches ApplicationState::Running(running) && material == (if shown_selection(
            running.level,
            *cell,
            *tissue,
        ) {
            on_selected_material
        } else {
            on_not_selected_material
        }),
{
    let selected: bool = match state.level() {
        Level::Cells => cell.0,
        Level::Tissues => tissue.0,
    };
    if selected {
        on_selected_material
    } else {
        on_not_selected_material
    }
}

/// Picks the material that shows whether something is selected.
pub fn pick_material(selected: bool) -> (material: Material)
    ensures
        material == material_of(selected),
{
    if selected {
        Material::Highlighted
    } else {
        Material::Plain
    }
}

} // verus!
