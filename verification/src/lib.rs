pub mod amount;
pub mod menu;
pub mod store;
pub mod text;
