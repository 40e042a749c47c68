//! The verified core of the Scaloscope audio plugin and its standalone launcher.

pub mod text;
pub mod gui;
pub mod launch;
pub mod selection;
