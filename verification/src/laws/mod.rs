//! What the parts promise, as laws over the models that the contracts speak of.
pub mod beginnings;
pub mod breaking;
pub mod changes;
pub mod client;
pub mod collecting;
pub mod conversing;
pub mod delegation;
pub mod describing;
pub mod details;
pub mod markup;
pub mod planning;
pub mod prompting;
pub mod routines;
pub mod running;
pub mod screen;
pub mod sessions;
pub mod settings;
pub mod showing;
pub mod streaming;
pub mod tables;
pub mod tasks;
pub mod texts;
pub mod turns;
pub mod viewing;
