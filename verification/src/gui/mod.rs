//! The monitoring dashboard's model: price charts per token, the selected
//! token, and the control panel's decisions. Drawing it is left to a GUI
//! toolkit.

pub mod monitoring_gui;
