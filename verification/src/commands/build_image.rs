//! Building the image, from the configured Dockerfile or, where there is none,
//! from the default one handed to the engine on its standard input.

use crate::config::{ConfigView, LazyConfig};
use crate::utils::{dockerfile_template, lazy_dockerfile};
use vstd::prelude::*;

verus! {

/// The engine's arguments for a build. Without a Dockerfile on disk the engine
/// is told to read one from its standard input (`-`).
pub open spec fn build_arguments(config: ConfigView, dockerfile_exists: bool) -> Seq<Seq<char>> {
    seq![
        "build"@,
        "-f"@,
        if dockerfile_exists {
            config.dockerfile
        } else {
            "-"@
        },
        "-t"@,
        config.image,
        "."@,
    ]
}

/// What the engine gets on its standard input for a build: nothing where the
/// Dockerfile exists, the default Dockerfile where it does not.
pub open spec fn build_input(config: ConfigView, dockerfile_exists: bool) -> Option<Seq<char>> {
    if dockerfile_exists {
        None
    } else {
        Some(dockerfile_template(config.image))
    }
}

/// The arguments and the standard input with which the engine builds the
/// image, given whether the configured Dockerfile exists.
pub fn run(config: &LazyConfig, dockerfile_exists: bool) -> (r: (Vec<String>, Option<String>))
    ensures
        r.0.deep_view() == build_arguments(config@, dockerfile_exists),
        r.1.deep_view() == build_input(config@, dockerfile_exists),
{
    let mut args: Vec<String> = Vec::new();
    args.push("build".to_owned());
    args.push("-f".to_owned());
    let input = if dockerfile_exists {
        args.push(config.dockerfile.clone());
        None
    } else {
        args.push("-".to_owned());
        Some(lazy_dockerfile(config.image.as_str()))
    };
    args.push("-t".to_owned());
    args.push(config.image.clone());
    args.push(".".to_owned());
    proof {
        assert(args.deep_view() =~= build_arguments(config@, dockerfile_exists));
    }
    (args, input)
}

} // verus!
