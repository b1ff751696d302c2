//! Process configuration: where the samples are taken and where they are
//! stored.
use crate::ieee::Ieee64;
use vstd::prelude::*;

verus! {

/// The coordinates that the remote source is asked about.
#[derive(Clone, Copy, Debug, PartialEq, Eq, Structural)]
pub struct LocationConfig {
    pub latitude: Ieee64,
    pub longitude: Ieee64,
}

/// The relational store to write to.
#[derive(Clone, Debug)]
pub struct DBConfig {
    pub db_url: String,
}

/// The whole configuration, read once at startup.
#[derive(Clone, Debug)]
pub struct AppConfig {
    pub location: LocationConfig,
    pub database: DBConfig,
}

} // verus!
