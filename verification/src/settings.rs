use vstd::prelude::*;

verus! {

/// Connection settings for the storage layer; they are read from the
/// process environment outside the verified core and handed in as plain
/// strings.
#[derive(Debug, Clone)]
pub struct Config {
    pub database_url: String,
    pub rust_log: String,
}

} // verus!
