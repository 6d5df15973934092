//! What holds of the operations, told by what goes in and what comes out.
pub mod casts;
pub mod commands;
pub mod devices;
pub mod displays;
pub mod elisp;
pub mod focus;
pub mod frames;
pub mod input;
pub mod keys;
pub mod layers;
pub mod layout;
pub mod outputs;
pub mod placement;
pub mod session;
pub mod text;
pub mod windows;
