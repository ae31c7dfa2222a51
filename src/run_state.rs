use vstd::prelude::*;
use crate::components::Entity;
use crate::map::Point;
use crate::state::{MainMenuSelection, RunState};

verus! {

/// What the input and menu layer reported for this frame.
#[derive(Clone, Copy, Debug, PartialEq, Eq, Structural)]
pub enum FrameEvent {
    /// Nothing was chosen.
    Idle,
    /// The main menu's highlight moved.
    MenuMoved { selected: MainMenuSelection },
    /// A main menu option was confirmed.
    MenuChosen { selected: MainMenuSelection },
    /// The game-over screen was dismissed.
    Acknowledged,
    /// The player's input asked for this run state.
    Input { next: RunState },
    /// A menu was closed without a choice.
    Cancelled,
    /// An item was picked from a menu; `ranged` holds its range if it needs a target.
    ItemChosen { item: Entity, ranged: Option<i32> },
    /// A tile was picked while targeting.
    TargetChosen { target: Point },
}

/// What has to be done for a transition besides changing the run state.
#[derive(Clone, Copy, Debug, PartialEq, Eq, Structural)]
pub enum FrameAction {
    Nothing,
    RunSystems,
    ResetWorld,
    LoadSave,
    WriteSave,
    Quit,
    DescendLevel,
    UseItem { item: Entity, target: Option<Point> },
    DropItem { item: Entity },
    RemoveItem { item: Entity },
}

/// The menu event for choosing `item`: it carries the item's range when the
/// item must be aimed.
pub fn item_chosen(ecs: &crate::ecs::World, item: Entity) -> (ev: FrameEvent)
    requires
        item < ecs.entities@.len(),
    ensures
        ev == (FrameEvent::ItemChosen {
            item,
            ranged: match ecs.entities@[item as int].ranged {
                Some(r) => Some(r.range),
                None => None,
            },
        }),
{
    let ranged = match ecs.entities[item].ranged {
        Some(r) => Some(r.range),
        None => None,
    };
    FrameEvent::ItemChosen { item, ranged }
}

/// The transition table of the run state.
pub open spec fn transition(s: RunState, ev: FrameEvent) -> (RunState, FrameAction) {
    match s {
        RunState::MainMenu { .. } => match ev {
            FrameEvent::MenuMoved { selected } => (
                RunState::MainMenu { menu_selection: selected },
                FrameAction::Nothing,
            ),
            FrameEvent::MenuChosen { selected } => match selected {
                MainMenuSelection::NewGame => (RunState::PreRun, FrameAction::ResetWorld),
                MainMenuSelection::LoadGame => (RunState::AwaitingInput, FrameAction::LoadSave),
                MainMenuSelection::Quit => (s, FrameAction::Quit),
            },
            _ => (s, FrameAction::Nothing),
        },
        RunState::GameOver => match ev {
            FrameEvent::Acknowledged => (
                RunState::MainMenu { menu_selection: MainMenuSelection::NewGame },
                FrameAction::ResetWorld,
            ),
            _ => (s, FrameAction::Nothing),
        },
        RunState::SaveGame => (
            RunState::MainMenu { menu_selection: MainMenuSelection::LoadGame },
            FrameAction::WriteSave,
        ),
        RunState::PreRun => (RunState::AwaitingInput, FrameAction::RunSystems),
        RunState::AwaitingInput => match ev {
            FrameEvent::Input { next } => (next, FrameAction::Nothing),
            _ => (s, FrameAction::Nothing),
        },
        RunState::PlayerTurn => (RunState::MonsterTurn, FrameAction::RunSystems),
        RunState::MonsterTurn => (RunState::AwaitingInput, FrameAction::RunSystems),
        RunState::ShowInventory => match ev {
            FrameEvent::Cancelled => (RunState::AwaitingInput, FrameAction::Nothing),
            FrameEvent::ItemChosen { item, ranged } => match ranged {
                Some(range) => (RunState::ShowTargeting { range, item }, FrameAction::Nothing),
                None => (RunState::PlayerTurn, FrameAction::UseItem { item, target: None }),
            },
            _ => (s, FrameAction::Nothing),
        },
        RunState::ShowDropItem => match ev {
            FrameEvent::Cancelled => (RunState::AwaitingInput, FrameAction::Nothing),
            FrameEvent::ItemChosen { item, .. } => (
                RunState::PlayerTurn,
                FrameAction::DropItem { item },
            ),
            _ => (s, FrameAction::Nothing),
        },
        RunState::ShowRemoveItem => match ev {
            FrameEvent::Cancelled => (RunState::AwaitingInput, FrameAction::Nothing),
            FrameEvent::ItemChosen { item, .. } => (
                RunState::PlayerTurn,
                FrameAction::RemoveItem { item },
            ),
            _ => (s, FrameAction::Nothing),
        },
        RunState::ShowTargeting { item, .. } => match ev {
            FrameEvent::Cancelled => (RunState::AwaitingInput, FrameAction::Nothing),
            FrameEvent::TargetChosen { target } => (
                RunState::PlayerTurn,
                FrameAction::UseItem { item, target: Some(target) },
            ),
            _ => (s, FrameAction::Nothing),
        },
        RunState::NextLevel => (RunState::PreRun, FrameAction::DescendLevel),
    }
}

/// Advances the run state by one frame.
pub fn next_run_state(s: RunState, ev: FrameEvent) -> (r: (RunState, FrameAction))
    ensures
        r == transition(s, ev),
{
    match s {
        RunState::MainMenu { .. } => match ev {
            FrameEvent::MenuMoved { selected } => (
                RunState::MainMenu { menu_selection: selected },
                FrameAction::Nothing,
            ),
            FrameEvent::MenuChosen { selected } => match selected {
                MainMenuSelection::NewGame => (RunState::PreRun, FrameAction::ResetWorld),
                MainMenuSelection::LoadGame => (RunState::AwaitingInput, FrameAction::LoadSave),
                MainMenuSelection::Quit => (s, FrameAction::Quit),
            },
            _ => (s, FrameAction::Nothing),
        },
        RunState::GameOver => match ev {
            FrameEvent::Acknowledged => (
                RunState::MainMenu { menu_selection: MainMenuSelection::NewGame },
                FrameAction::ResetWorld,
            ),
            _ => (s, FrameAction::Nothing),
        },
        RunState::SaveGame => (
            RunState::MainMenu { menu_selection: MainMenuSelection::LoadGame },
            FrameAction::WriteSave,
        ),
        RunState::PreRun => (RunState::AwaitingInput, FrameAction::RunSystems),
        RunState::AwaitingInput => match ev {
            FrameEvent::Input { next } => (next, FrameAction::Nothing),
            _ => (s, FrameAction::Nothing),
        },
        RunState::PlayerTurn => (RunState::MonsterTurn, FrameAction::RunSystems),
        RunState::MonsterTurn => (RunState::AwaitingInput, FrameAction::RunSystems),
        RunState::ShowInventory => match ev {
            FrameEvent::Cancelled => (RunState::AwaitingInput, FrameAction::Nothing),
            FrameEvent::ItemChosen { item, ranged } => match ranged {
                Some(range) => (RunState::ShowTargeting { range, item }, FrameAction::Nothing),
                None => (RunState::PlayerTurn, FrameAction::UseItem { item, target: None }),
            },
            _ => (s, FrameAction::Nothing),
        },
        RunState::ShowDropItem => match ev {
            FrameEvent::Cancelled => (RunState::AwaitingInput, FrameAction::Nothing),
            FrameEvent::ItemChosen { item, .. } => (
                RunState::PlayerTurn,
                FrameAction::DropItem { item },
            ),
            _ => (s, FrameAction::Nothing),
        },
        RunState::ShowRemoveItem => match ev {
            FrameEvent::Cancelled => (RunState::AwaitingInput, FrameAction::Nothing),
            FrameEvent::ItemChosen { item, .. } => (
                RunState::PlayerTurn,
                FrameAction::RemoveItem { item },
            ),
            _ => (s, FrameAction::Nothing),
        },
        RunState::ShowTargeting { item, .. } => match ev {
            FrameEvent::Cancelled => (RunState::AwaitingInput, FrameAction::Nothing),
            FrameEvent::TargetChosen { target } => (
                RunState::PlayerTurn,
                FrameAction::UseItem { item, target: Some(target) },
            ),
            _ => (s, FrameAction::Nothing),
        },
        RunState::NextLevel => (RunState::PreRun, FrameAction::DescendLevel),
    }
}

} // verus!
