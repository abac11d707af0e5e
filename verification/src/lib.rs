//! Burns Traditional Chinese subtitles into a video with ffmpeg: the
//! configuration, the subtitle wrapping and rendering, the tool discovery
//! and managed downloads, and the burn pipeline as a state machine.
pub mod text;

pub mod chars;
pub mod wrap;
pub mod config;
pub mod subtitle;
pub mod paths;
pub mod ffmpeg;
pub mod managed;
pub mod platform;
pub mod pipeline;
pub mod archive;

use vstd::prelude::*;

use crate::config::{config_spec, AppConfig, Cli, ConfigError};
use crate::managed::{PACKAGE_NAME, PACKAGE_VERSION};
use crate::pipeline::{initial, wf, Pipeline};

verus! {

/// What a run of the program does.
pub enum Launch {
    /// Print this version line and stop.
    ShowVersion(String),
    /// Burn subtitles by driving this pipeline.
    Burn(Pipeline),
}

/// The version line: the package name and version.
pub open spec fn version_line() -> Seq<char> {
    PACKAGE_NAME@ + " "@ + PACKAGE_VERSION@
}

/// Starts a run from the parsed arguments, the environment pairs (the style
/// variables and the variables that locate the cache directory), and the
/// operating system and architecture names of `std::env::consts`: the
/// version, or the pipeline of the configured burn, or the configuration
/// error.
pub fn run(cli: &Cli, env: Vec<(String, String)>, os: &str, arch: &str) -> (r: Result<
    Launch,
    ConfigError,
>)
    ensures
        cli.version ==> {
            &&& r matches Ok(Launch::ShowVersion(line))
            &&& line@ == version_line()
        },
        !cli.version ==> match config_spec(*cli, env@) {
            Ok(c) => {
                &&& r matches Ok(Launch::Burn(p))
                &&& p@ == initial(
                    c,
                    crate::ffmpeg::detect_spec(os@, arch@),
                    env@,
                    crate::platform::open_command_for(os@),
                )
                &&& wf(p@)
            },
            Err(e) => r matches Err(x) && x@ == e,
        },
{
    if cli.version {
        let mut v = crate::text::chars_of(PACKAGE_NAME);
        crate::text::push_str(&mut v, " ");
        crate::text::push_str(&mut v, PACKAGE_VERSION);
        return Ok(Launch::ShowVersion(crate::text::string_of(v.as_slice())));
    }
    match AppConfig::from_env_map(cli, &env) {
        Ok(config) => Ok(Launch::Burn(Pipeline::new(config, os, arch, env))),
        Err(e) => Err(e),
    }
}

} // verus!
