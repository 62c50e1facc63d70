//! Removing the container.

use crate::config::{ConfigView, LazyConfig};
use vstd::prelude::*;

verus! {

/// The engine's arguments for removing the configured container.
pub open spec fn removal(config: ConfigView) -> Seq<Seq<char>> {
    seq!["rm"@, config.name]
}

/// The arguments with which the engine removes the configured container.
pub fn run(config: &LazyConfig) -> (args: Vec<String>)
    ensures
        args.deep_view() == removal(config@),
{
    let mut args: Vec<String> = Vec::new();
    args.push("rm".to_owned());
    args.push(config.name.clone());
    proof {
        assert(args.deep_view() =~= removal(config@));
    }
    args
}

} // verus!
