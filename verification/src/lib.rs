//! Finds the working directory that best represents the focused window's
//! application: a step-by-step query of the display server for the owning
//! process, and a walk of that process's descendants.

pub mod children;
pub mod cwd;
pub mod ending;
pub mod fidelity;
pub mod focus;
pub mod resolver;
pub mod tree;
pub mod walk;
pub mod walker;
pub mod wire;
