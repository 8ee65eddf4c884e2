//! The fixed screen texts. Each menu heading and prompt is produced here,
//! exactly; printing them is the caller's business.

use vstd::prelude::*;

verus! {

/// A fixed piece of screen text.
pub enum Text {
    /// The main menu with its numbered actions.
    Main,
    /// The heading of the viewing screen.
    View,
    /// The heading of the adding screen.
    Add,
    /// The heading of the removal screen.
    Remove,
    /// The prompt asking which bill to update.
    Update,
    /// The heading of the update screen.
    UpdateBill,
    /// The prompt for a bill's new name.
    UpdateName,
    /// The prompt for a bill's new amount.
    UpdateAmount,
    /// The prompt for a bill's name.
    ViewName,
    /// The prompt for a bill's amount.
    ViewAmount,
    /// How to get back to the main menu.
    Instructions,
    /// A spacer line.
    Empty,
}

/// The characters of each piece of screen text.
pub open spec fn spec_render(t: Text) -> Seq<char> {
    match t {
        Text::Main => (
        "== Manage Bills ==\n   1. Add bills\n   2. View bills\n   3. Remove bills\n   4. Update bills\n   5. Total bills\n \nEnter selection:")@,
        Text::View => "== View Bills =="@,
        Text::Add => "== Add Bills =="@,
        Text::Remove => "== Remove Bill =="@,
        Text::Update => "Which bill do you want to update?"@,
        Text::UpdateBill => "== Update Bill =="@,
        Text::UpdateName => " Update Name "@,
        Text::UpdateAmount => " Update Amount "@,
        Text::ViewName => "Enter bill name:"@,
        Text::ViewAmount => "Enter bill amount:"@,
        Text::Instructions => "> Main Menu: 'exit' or 'back'"@,
        Text::Empty => " "@,
    }
}

impl Text {
    /// The text of this screen piece.
    pub fn render(&self) -> (r: &'static str)
        ensures
            r@ == spec_render(*self),
    {
        match self {
            Text::Main => "== Manage Bills ==\n   1. Add bills\n   2. View bills\n   3. Remove bills\n   4. Update bills\n   5. Total bills\n \nEnter selection:",
            Text::View => "== View Bills ==",
            Text::Add => "== Add Bills ==",
            Text::Remove => "== Remove Bill ==",
            Text::Update => "Which bill do you want to update?",
            Text::UpdateBill => "== Update Bill ==",
            Text::UpdateName => " Update Name ",
            Text::UpdateAmount => " Update Amount ",
            Text::ViewName => "Enter bill name:",
            Text::ViewAmount => "Enter bill amount:",
            Text::Instructions => "> Main Menu: 'exit' or 'back'",
            Text::Empty => " ",
        }
    }
}

} // verus!
