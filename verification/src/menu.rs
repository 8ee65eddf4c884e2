//! The menu-driven controller: the main-menu selection and the state
//! machine that each sub-menu loop follows. All decisions are made here,
//! from the line the user typed; rendering and reading stay with the
//! caller.

use vstd::prelude::*;
use crate::store::{BillStore, has_name, spec_add, spec_remove};
use crate::store::str_eq;
use crate::amount::{clamped_cents, parse_amount};

verus! {

/// A main-menu action.
#[derive(Debug, PartialEq, Eq, Structural)]
pub enum Menu {
    AddBills,
    ViewBills,
    RemoveBills,
    UpdateBills,
    Total,
    Invalid,
}

/// The action a main-menu line selects: a number or its keyword synonym;
/// anything else is `Invalid`.
pub open spec fn spec_select(l: Seq<char>) -> Menu {
    if l == "add"@ || l == "1"@ {
        Menu::AddBills
    } else if l == "view"@ || l == "2"@ {
        Menu::ViewBills
    } else if l == "remove"@ || l == "3"@ {
        Menu::RemoveBills
    } else if l == "update"@ || l == "4"@ {
        Menu::UpdateBills
    } else if l == "total"@ || l == "5"@ {
        Menu::Total
    } else {
        Menu::Invalid
    }
}

impl Menu {
    /// Map a line of input to the main-menu action it selects.
    pub fn select(buffer: &str) -> (r: Option<Menu>)
        ensures
            r == Some(spec_select(buffer@)),
    {
        if str_eq(buffer, "add") || str_eq(buffer, "1") {
            Some(Menu::AddBills)
        } else if str_eq(buffer, "view") || str_eq(buffer, "2") {
            Some(Menu::ViewBills)
        } else if str_eq(buffer, "remove") || str_eq(buffer, "3") {
            Some(Menu::RemoveBills)
        } else if str_eq(buffer, "update") || str_eq(buffer, "4") {
            Some(Menu::UpdateBills)
        } else if str_eq(buffer, "total") || str_eq(buffer, "5") {
            Some(Menu::Total)
        } else {
            Some(Menu::Invalid)
        }
    }
}

/// The main-menu action for a line read from the user: the selected action
/// when the read succeeded, `Invalid` when it did not.
pub fn input(read_ok: bool, buffer: &str) -> (m: Menu)
    ensures
        m == if read_ok {
            spec_select(buffer@)
        } else {
            Menu::Invalid
        },
{
    if read_ok {
        match Menu::select(buffer) {
            Some(m) => m,
            None => Menu::Invalid,
        }
    } else {
        Menu::Invalid
    }
}

/// Whether a line asks to leave the current sub-menu.
pub open spec fn is_exit_word(l: Seq<char>) -> bool {
    l == "exit"@ || l == "back"@
}

/// Decide whether a line is the literal `exit` or `back`.
pub fn exit_word(line: &str) -> (r: bool)
    ensures
        r == is_exit_word(line@),
{
    str_eq(line, "exit") || str_eq(line, "back")
}

/// Where the interactive session stands: the main menu, or one prompt of
/// one sub-menu. Prompts that follow an earlier answer carry it along.
pub enum State {
    /// Awaiting a main-menu selection.
    MainMenu,
    /// Adding: awaiting the bill name.
    AddingName,
    /// Adding: awaiting the amount for the name already given.
    AddingAmount { name: String },
    /// Viewing: awaiting the word that returns to the main menu.
    Viewing,
    /// Removing: awaiting the name to delete.
    Removing,
    /// Updating: awaiting the name of the bill to change.
    UpdatingTarget,
    /// Updating: awaiting the new name for the bill found.
    UpdatingName { target: String },
    /// Updating: awaiting the new amount; the replacement happens then.
    UpdatingAmount { target: String, new_name: String },
}

/// What the caller should report after a step, besides showing the next
/// prompt.
#[derive(Debug, PartialEq, Eq, Structural)]
pub enum Effect {
    /// Nothing to report.
    Quiet,
    /// An unrecognized main-menu selection.
    InvalidChoice,
    /// An unrecognized line where only `exit` or `back` is accepted.
    InvalidInput,
    /// The bill asked for does not exist.
    NotFound,
}

/// One step of the session: from the current state and one line of input,
/// mutate the store as the sub-menus prescribe and move to the next state.
///
/// At the first prompt of every sub-menu, `exit` and `back` return to the
/// main menu and the store is untouched. Later prompts of a sub-menu take
/// the line as an answer, as the original flows do: a name may be the word
/// `exit` itself, and an amount line is always parsed.
pub fn step(st: State, line: &str, store: &mut BillStore) -> (r: (State, Effect))
    requires
        old(store).wf(),
    ensures
        final(store).wf(),
        (match st {
            State::MainMenu => {
                &&& final(store).entries() == old(store).entries()
                &&& (match spec_select(line@) {
                    Menu::AddBills => r == (State::AddingName, Effect::Quiet),
                    Menu::ViewBills => r == (State::Viewing, Effect::Quiet),
                    Menu::RemoveBills => r == (State::Removing, Effect::Quiet),
                    Menu::UpdateBills => r == (State::UpdatingTarget, Effect::Quiet),
                    Menu::Total => r == (State::Viewing, Effect::Quiet),
                    Menu::Invalid => r == (State::MainMenu, Effect::InvalidChoice),
                })
            },
            State::AddingName => {
                &&& final(store).entries() == old(store).entries()
                &&& if is_exit_word(line@) {
                    r == (State::MainMenu, Effect::Quiet)
                } else {
                    &&& r.0 matches State::AddingAmount { name } && name@ == line@
                    &&& r.1 == Effect::Quiet
                }
            },
            State::AddingAmount { name } => {
                &&& final(store).entries() == spec_add(
                    old(store).entries(),
                    name@,
                    clamped_cents(line@),
                )
                &&& r == (State::AddingName, Effect::Quiet)
            },
            State::Viewing => {
                &&& final(store).entries() == old(store).entries()
                &&& if is_exit_word(line@) {
                    r == (State::MainMenu, Effect::Quiet)
                } else {
                    r == (State::Viewing, Effect::InvalidInput)
                }
            },
            State::Removing => {
                &&& if is_exit_word(line@) {
                    &&& final(store).entries() == old(store).entries()
                    &&& r == (State::MainMenu, Effect::Quiet)
                } else {
                    &&& final(store).entries() == spec_remove(old(store).entries(), line@)
                    &&& r == (State::Removing, Effect::Quiet)
                }
            },
            State::UpdatingTarget => {
                &&& final(store).entries() == old(store).entries()
                &&& if is_exit_word(line@) {
                    r == (State::MainMenu, Effect::Quiet)
                } else if has_name(old(store).entries(), line@) {
                    &&& r.0 matches State::UpdatingName { target } && target@ == line@
                    &&& r.1 == Effect::Quiet
                } else {
                    r == (State::UpdatingTarget, Effect::NotFound)
                }
            },
            State::UpdatingName { target } => {
                &&& final(store).entries() == old(store).entries()
                &&& r.0 matches State::UpdatingAmount { target: t, new_name } && t@ == target@
                    && new_name@ == line@
                &&& r.1 == Effect::Quiet
            },
            State::UpdatingAmount { target, new_name } => {
                &&& final(store).entries() == spec_add(
                    spec_remove(old(store).entries(), target@),
                    new_name@,
                    clamped_cents(line@),
                )
                &&& r == (State::UpdatingTarget, Effect::Quiet)
            },
        }),
{
    match st {
        State::MainMenu => {
            let m = match Menu::select(line) {
                Some(m) => m,
                None => Menu::Invalid,
            };
            match m {
                Menu::AddBills => (State::AddingName, Effect::Quiet),
                Menu::ViewBills => (State::Viewing, Effect::Quiet),
                Menu::RemoveBills => (State::Removing, Effect::Quiet),
                Menu::UpdateBills => (State::UpdatingTarget, Effect::Quiet),
                Menu::Total => (State::Viewing, Effect::Quiet),
                Menu::Invalid => (State::MainMenu, Effect::InvalidChoice),
            }
        },
        State::AddingName => {
            if exit_word(line) {
                (State::MainMenu, Effect::Quiet)
            } else {
                (State::AddingAmount { name: String::from_str(line) }, Effect::Quiet)
            }
        },
        State::AddingAmount { name } => {
            let amount = parse_amount(line);
            store.add(name, amount);
            (State::AddingName, Effect::Quiet)
        },
        State::Viewing => {
            if exit_word(line) {
                (State::MainMenu, Effect::Quiet)
            } else {
                (State::Viewing, Effect::InvalidInput)
            }
        },
        State::Removing => {
            if exit_word(line) {
                (State::MainMenu, Effect::Quiet)
            } else {
                store.remove(line);
                (State::Removing, Effect::Quiet)
            }
        },
        State::UpdatingTarget => {
            if exit_word(line) {
                (State::MainMenu, Effect::Quiet)
            } else if store.contains(line) {
                (State::UpdatingName { target: String::from_str(line) }, Effect::Quiet)
            } else {
                (State::UpdatingTarget, Effect::NotFound)
            }
        },
        State::UpdatingName { target } => {
            (
                State::UpdatingAmount { target, new_name: String::from_str(line) },
                Effect::Quiet,
            )
        },
        State::UpdatingAmount { target, new_name } => {
            let amount = parse_amount(line);
            store.remove(target.as_str());
            store.add(new_name, amount);
            (State::UpdatingTarget, Effect::Quiet)
        },
    }
}

} // verus!
