pub mod alias;
pub mod coord;
pub mod effect;
pub mod number;
pub mod panel;
pub mod pattern;
pub mod plugin;
pub mod settings;
pub mod text;
