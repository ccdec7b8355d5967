//! HamHawk core: the verified logic of an internet-SDR monitoring workstation.

pub mod adpcm;
pub mod alerts;
pub mod keyboard;
pub mod logbook;
pub mod kiwi;
pub mod model;
pub mod modes;
pub mod openwebrx;
pub mod owrx_adpcm;
pub mod paths;
pub mod pool;
pub mod routing;
pub mod segment;
pub mod settings;
pub mod source;
pub mod store;
pub mod tap;
pub mod text;
pub mod validate;
