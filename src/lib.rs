pub mod bus;
pub mod deps;
pub mod events;
pub mod history;
pub mod instance;
pub mod marker;
pub mod monitor;
pub mod ports;
pub mod registry;
pub mod restore;
pub mod ring;
pub mod state;
pub mod supervisor;
