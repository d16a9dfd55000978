use vstd::prelude::*;

pub mod base_laws;
pub mod cli;
pub mod clock;
pub mod clock_laws;
pub mod config;
pub mod control_laws;
pub mod display;
pub mod ha_ws;
pub mod iotawatt;
pub mod json;
pub mod laws;
pub mod light_laws;
pub mod link_laws;
pub mod map;
pub mod meter_laws;
pub mod model_laws;
pub mod mqtt_light;
pub mod number;
pub mod pane_laws;
pub mod preview;
pub mod screen;
pub mod screen_laws;
pub mod setup_laws;
pub mod text;
pub mod time;
pub mod types;
pub mod ui;

verus! {

} // verus!
