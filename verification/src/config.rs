use vstd::prelude::*;

verus! {

/// Where the service listens and which database it uses.
#[derive(Debug)]
pub struct Config {
    pub server_address: String,
    pub database_url: String,
}

} // verus!
