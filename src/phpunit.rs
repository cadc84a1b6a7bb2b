//! Records of a PHPUnit coverage report (build environment and test
//! results). Reading such reports is not part of the reconciliation engine.

use vstd::prelude::*;

verus! {

#[derive(Clone, Debug)]
pub struct Runtime {
    pub name: String,
    pub version: String,
    pub url: String,
}

#[derive(Clone, Debug)]
pub struct Driver {
    pub name: String,
    pub version: String,
}

#[derive(Clone, Debug)]
pub struct Build {
    pub time: String,
    pub phpunit: String,
    pub coverage: String,
    pub runtime: Runtime,
    pub driver: Driver,
}

#[derive(Clone, Debug)]
pub struct Test {
    pub name: String,
    pub size: String,
    pub result: String,
    pub status: String,
}

} // verus!
