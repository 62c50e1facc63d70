//! Starting the container: the engine is asked for the image first, and the
//! container is started only where the image exists.

use crate::config::{ConfigView, LazyConfig};
use vstd::prelude::*;

verus! {

/// The engine's arguments for listing the ids of the images that match the
/// configured reference.
pub open spec fn image_query(config: ConfigView) -> Seq<Seq<char>> {
    seq!["images"@, "-q"@, config.image]
}

/// The engine's arguments for starting the container: interactive, with a
/// terminal, detached and named. The environment file is handed on where one is
/// configured and exists.
pub open spec fn start_arguments(config: ConfigView, env_file_exists: bool) -> Seq<Seq<char>> {
    if config.env.len() > 0 && env_file_exists {
        seq!["run"@, "-itd"@, "--name"@, config.name, "--env-file"@, config.env, config.image]
    } else {
        seq!["run"@, "-itd"@, "--name"@, config.name, config.image]
    }
}

/// The engine's arguments for listing the running containers.
pub open spec fn listing() -> Seq<Seq<char>> {
    seq!["ps"@]
}

/// The arguments with which the engine lists the images that match the
/// configured reference.
pub fn query(config: &LazyConfig) -> (args: Vec<String>)
    ensures
        args.deep_view() == image_query(config@),
{
    let mut args: Vec<String> = Vec::new();
    args.push("images".to_owned());
    args.push("-q".to_owned());
    args.push(config.image.clone());
    proof {
        assert(args.deep_view() =~= image_query(config@));
    }
    args
}

/// The arguments with which the engine starts the container, given whether
/// the configured environment file exists.
pub fn run(config: &LazyConfig, env_file_exists: bool) -> (args: Vec<String>)
    ensures
        args.deep_view() == start_arguments(config@, env_file_exists),
{
    let mut args: Vec<String> = Vec::new();
    args.push("run".to_owned());
    args.push("-itd".to_owned());
    args.push("--name".to_owned());
    args.push(config.name.clone());
    if config.env.as_str().unicode_len() > 0 && env_file_exists {
        args.push("--env-file".to_owned());
        args.push(config.env.clone());
    }
    args.push(config.image.clone());
    proof {
        assert(args.deep_view() =~= start_arguments(config@, env_file_exists));
    }
    args
}

/// The arguments with which the engine lists the running containers.
pub fn list() -> (args: Vec<String>)
    ensures
        args.deep_view() == listing(),
{
    let mut args: Vec<String> = Vec::new();
    args.push("ps".to_owned());
    proof {
        assert(args.deep_view() =~= listing());
    }
    args
}

} // verus!
