//! Command-line inputs and environment-driven style settings.
use vstd::prelude::*;

use crate::paths::{last_separator_of, lemma_last_separator, name_start};
use crate::text::{
    chars_of, parse_u32, parse_u32_chars, push_all, push_str, rfind, rfind_char, string_of,
    trim, trim_bounds,
};

verus! {

pub const FONT_NAME_KEY: &'static str = "FONT_NAME";
pub const FONT_DIR_KEY: &'static str = "FONT_DIR";
pub const FONT_SIZE_KEY: &'static str = "FONT_SIZE";
pub const MARGIN_V_KEY: &'static str = "MARGIN_V";
pub const OUTLINE_SIZE_KEY: &'static str = "OUTLINE_SIZE";
pub const SHADOW_SIZE_KEY: &'static str = "SHADOW_SIZE";

pub const DEFAULT_FONT_NAME: &'static str = "LINE Seed TW_OTF Regular";
pub const DEFAULT_FONT_DIR: &'static str = "/Library/Fonts";

/// The suffix that replaces the video's extension in the default output path.
pub const DEFAULT_OUTPUT_SUFFIX: &'static str = ".zh-tw.burned.mp4";

/// Parsed command-line arguments.
#[derive(Clone, Debug, PartialEq, Eq)]
pub struct Cli {
    pub version: bool,
    pub force: bool,
    pub open: bool,
    pub video: Option<String>,
    pub subtitle: Option<String>,
    pub output: Option<String>,
}

/// Subtitle style settings; `None` sizes are derived from the video height.
#[derive(Clone, Debug, PartialEq, Eq)]
pub struct StyleConfig {
    pub font_name: String,
    pub font_dir: String,
    pub font_size: Option<u32>,
    pub margin_v: Option<u32>,
    pub outline_size: Option<u32>,
    pub shadow_size: Option<u32>,
}

/// Everything one burn needs.
#[derive(Clone, Debug, PartialEq, Eq)]
pub struct AppConfig {
    pub video: String,
    pub subtitle: String,
    pub output: String,
    pub overwrite_output: bool,
    pub open_output: bool,
    pub style: StyleConfig,
}

/// Why a configuration could not be built.
#[derive(Clone, Debug, PartialEq, Eq)]
pub enum ConfigError {
    MissingVideo,
    MissingSubtitle,
    /// An environment variable that must be an unsigned integer is not one.
    InvalidNumber { key: String, value: String },
}

/// The mathematical value of a style configuration.
pub struct StyleModel {
    pub font_name: Seq<char>,
    pub font_dir: Seq<char>,
    pub font_size: Option<u32>,
    pub margin_v: Option<u32>,
    pub outline_size: Option<u32>,
    pub shadow_size: Option<u32>,
}

impl View for StyleConfig {
    type V = StyleModel;

    open spec fn view(&self) -> StyleModel {
        StyleModel {
            font_name: self.font_name@,
            font_dir: self.font_dir@,
            font_size: self.font_size,
            margin_v: self.margin_v,
            outline_size: self.outline_size,
            shadow_size: self.shadow_size,
        }
    }
}

/// The mathematical value of a configuration.
pub struct ConfigModel {
    pub video: Seq<char>,
    pub subtitle: Seq<char>,
    pub output: Seq<char>,
    pub overwrite_output: bool,
    pub open_output: bool,
    pub style: StyleModel,
}

impl View for AppConfig {
    type V = ConfigModel;

    open spec fn view(&self) -> ConfigModel {
        ConfigModel {
            video: self.video@,
            subtitle: self.subtitle@,
            output: self.output@,
            overwrite_output: self.overwrite_output,
            open_output: self.open_output,
            style: self.style@,
        }
    }
}

/// The mathematical value of a configuration error.
pub enum ConfigErrorModel {
    MissingVideo,
    MissingSubtitle,
    InvalidNumber { key: Seq<char>, value: Seq<char> },
}

impl View for ConfigError {
    type V = ConfigErrorModel;

    open spec fn view(&self) -> ConfigErrorModel {
        match self {
            ConfigError::MissingVideo => ConfigErrorModel::MissingVideo,
            ConfigError::MissingSubtitle => ConfigErrorModel::MissingSubtitle,
            ConfigError::InvalidNumber { key, value } => ConfigErrorModel::InvalidNumber {
                key: key@,
                value: value@,
            },
        }
    }
}

// ---------------------------------------------------------------------------
// Environment lookups
// ---------------------------------------------------------------------------

/// The value of `key` in the environment pairs; a later pair overrides an
/// earlier one with the same key.
pub open spec fn env_get(env: Seq<(String, String)>, key: Seq<char>) -> Option<Seq<char>>
    decreases env.len(),
{
    if env.len() == 0 {
        None
    } else if env.last().0@ == key {
        Some(env.last().1@)
    } else {
        env_get(env.drop_last(), key)
    }
}

/// The value of `key` unless it is missing or blank.
pub open spec fn env_string(env: Seq<(String, String)>, key: Seq<char>) -> Option<Seq<char>> {
    match env_get(env, key) {
        Some(v) => if trim(v).len() > 0 {
            Some(v)
        } else {
            None
        },
        None => None,
    }
}

/// The unsigned integer value of `key`, `Ok(None)` if it is missing or blank,
/// and an error if it is set to something else.
pub open spec fn env_u32(env: Seq<(String, String)>, key: Seq<char>) -> Result<
    Option<u32>,
    ConfigErrorModel,
> {
    match env_string(env, key) {
        Some(raw) => match parse_u32(raw) {
            Some(n) => Ok(Some(n)),
            None => Err(ConfigErrorModel::InvalidNumber { key, value: raw }),
        },
        None => Ok(None),
    }
}

/// The value of `key` in the environment pairs (see `env_get`).
pub fn env_lookup(env: &Vec<(String, String)>, key: &str) -> (r: Option<Vec<char>>)
    ensures
        r matches Some(v) ==> env_get(env@, key@) == Some(v@),
        r is None ==> env_get(env@, key@) is None,
{
    let k = chars_of(key);
    let mut j = env.len();
    assert(env@.take(env@.len() as int) == env@);
    while j > 0
        invariant
            j <= env@.len(),
            k@ == key@,
            env_get(env@, key@) == env_get(env@.take(j as int), key@),
        decreases j,
    {
        let (name, value) = &env[j - 1];
        let nv = chars_of(name.as_str());
        assert(env@.take(j as int).last() == env@[j - 1]);
        if crate::text::chars_eq(nv.as_slice(), k.as_slice()) {
            return Some(chars_of(value.as_str()));
        }
        assert(env@.take(j as int).drop_last() == env@.take(j - 1));
        j = j - 1;
    }
    None
}

/// The value of `key` unless it is missing or blank.
pub fn env_string_of(env: &Vec<(String, String)>, key: &str) -> (r: Option<Vec<char>>)
    ensures
        r matches Some(v) ==> env_string(env@, key@) == Some(v@),
        r is None ==> env_string(env@, key@) is None,
{
    match env_lookup(env, key) {
        Some(v) => {
            let (a, b) = trim_bounds(v.as_slice());
            if b > a {
                Some(v)
            } else {
                None
            }
        },
        None => None,
    }
}

/// The unsigned integer value of `key` (see `env_u32`).
pub fn env_u32_of(env: &Vec<(String, String)>, key: &str) -> (r: Result<Option<u32>, ConfigError>)
    ensures
        r matches Ok(x) ==> env_u32(env@, key@) == Ok::<Option<u32>, ConfigErrorModel>(x),
        r matches Err(e) ==> env_u32(env@, key@) == Err::<Option<u32>, ConfigErrorModel>(e@),
{
    match env_string_of(env, key) {
        Some(raw) => match parse_u32_chars(raw.as_slice()) {
            Some(n) => Ok(Some(n)),
            None => Err(
                ConfigError::InvalidNumber {
                    key: key.to_owned(),
                    value: string_of(raw.as_slice()),
                },
            ),
        },
        None => Ok(None),
    }
}

// ---------------------------------------------------------------------------
// Building the configuration
// ---------------------------------------------------------------------------

/// The style settings that the environment pairs give.
pub open spec fn style_spec(env: Seq<(String, String)>) -> Result<StyleModel, ConfigErrorModel> {
    let font_name = match env_string(env, FONT_NAME_KEY@) {
        Some(v) => v,
        None => DEFAULT_FONT_NAME@,
    };
    let font_dir = match env_string(env, FONT_DIR_KEY@) {
        Some(v) => v,
        None => DEFAULT_FONT_DIR@,
    };
    match (
        env_u32(env, FONT_SIZE_KEY@),
        env_u32(env, MARGIN_V_KEY@),
        env_u32(env, OUTLINE_SIZE_KEY@),
        env_u32(env, SHADOW_SIZE_KEY@),
    ) {
        (Err(e), _, _, _) => Err(e),
        (Ok(_), Err(e), _, _) => Err(e),
        (Ok(_), Ok(_), Err(e), _) => Err(e),
        (Ok(_), Ok(_), Ok(_), Err(e)) => Err(e),
        (Ok(font_size), Ok(margin_v), Ok(outline_size), Ok(shadow_size)) => Ok(
            StyleModel { font_name, font_dir, font_size, margin_v, outline_size, shadow_size },
        ),
    }
}

impl StyleConfig {
    /// Reads the style settings from the environment pairs: blank values
    /// count as unset, names fall back to the defaults, sizes must be
    /// unsigned integers.
    pub fn from_env_map(env: &Vec<(String, String)>) -> (r: Result<StyleConfig, ConfigError>)
        ensures
            r matches Ok(s) ==> style_spec(env@) == Ok::<StyleModel, ConfigErrorModel>(s@),
            r matches Err(e) ==> style_spec(env@) == Err::<StyleModel, ConfigErrorModel>(e@),
    {
        let font_name = match env_string_of(env, FONT_NAME_KEY) {
            Some(v) => string_of(v.as_slice()),
            None => DEFAULT_FONT_NAME.to_owned(),
        };
        let font_dir = match env_string_of(env, FONT_DIR_KEY) {
            Some(v) => string_of(v.as_slice()),
            None => DEFAULT_FONT_DIR.to_owned(),
        };
        let font_size = match env_u32_of(env, FONT_SIZE_KEY) {
            Ok(x) => x,
            Err(e) => return Err(e),
        };
        let margin_v = match env_u32_of(env, MARGIN_V_KEY) {
            Ok(x) => x,
            Err(e) => return Err(e),
        };
        let outline_size = match env_u32_of(env, OUTLINE_SIZE_KEY) {
            Ok(x) => x,
            Err(e) => return Err(e),
        };
        let shadow_size = match env_u32_of(env, SHADOW_SIZE_KEY) {
            Ok(x) => x,
            Err(e) => return Err(e),
        };
        Ok(StyleConfig { font_name, font_dir, font_size, margin_v, outline_size, shadow_size })
    }
}

/// The default output path: in the video's directory, the video's file
/// stem followed by `.zh-tw.burned.mp4`. The stem is the last component
/// without its extension: everything before the last `'.'` of that
/// component, or the whole component when its only `'.'` leads it or it has
/// none. Both `/` and `\` end a directory.
pub open spec fn default_output(video: Seq<char>) -> Seq<char> {
    let start = name_start(video, true);
    let name = video.subrange(start, video.len() as int);
    let stem = match rfind(name, '.') {
        Some(i) if i > 0 => video.take(start + i),
        _ => video,
    };
    stem + DEFAULT_OUTPUT_SUFFIX@
}

/// The default output path for `video` (see `default_output`).
pub fn default_output_path(video: &str) -> (r: String)
    ensures
        r@ == default_output(video@),
{
    let v = chars_of(video);
    let vlen = v.len();
    proof {
        lemma_last_separator(v@, true);
    }
    let start: usize = match last_separator_of(v.as_slice(), true) {
        Some(i) => {
            assert(i < vlen);
            i + 1
        },
        None => 0,
    };
    let name = crate::text::slice_to_vec(v.as_slice(), start, v.len());
    let mut out: Vec<char> = Vec::new();
    match rfind_char(name.as_slice(), '.') {
        Some(i) => {
            proof {
                crate::text::lemma_rfind(name@, '.');
            }
            if i > 0 {
                assert(v@.subrange(0, (start + i) as int) == v@.take((start + i) as int));
                push_all(&mut out, &v.as_slice()[0..start + i]);
            } else {
                push_all(&mut out, v.as_slice());
            }
        },
        None => push_all(&mut out, v.as_slice()),
    }
    push_str(&mut out, DEFAULT_OUTPUT_SUFFIX);
    string_of(out.as_slice())
}

/// The configuration that the arguments and environment pairs give.
pub open spec fn config_spec(cli: Cli, env: Seq<(String, String)>) -> Result<
    ConfigModel,
    ConfigErrorModel,
> {
    match (cli.video, cli.subtitle) {
        (None, _) => Err(ConfigErrorModel::MissingVideo),
        (Some(_), None) => Err(ConfigErrorModel::MissingSubtitle),
        (Some(video), Some(subtitle)) => match style_spec(env) {
            Err(e) => Err(e),
            Ok(style) => Ok(
                ConfigModel {
                    video: video@,
                    subtitle: subtitle@,
                    output: match cli.output {
                        Some(o) => o@,
                        None => default_output(video@),
                    },
                    overwrite_output: cli.force,
                    open_output: cli.open,
                    style,
                },
            ),
        },
    }
}

impl AppConfig {
    /// Builds the configuration from the arguments and the environment pairs.
    pub fn from_env_map(cli: &Cli, env: &Vec<(String, String)>) -> (r: Result<AppConfig, ConfigError>)
        ensures
            r matches Ok(c) ==> config_spec(*cli, env@) == Ok::<ConfigModel, ConfigErrorModel>(c@),
            r matches Err(e) ==> config_spec(*cli, env@) == Err::<ConfigModel, ConfigErrorModel>(e@),
    {
        let video = match &cli.video {
            Some(v) => v.clone(),
            None => return Err(ConfigError::MissingVideo),
        };
        let subtitle = match &cli.subtitle {
            Some(s) => s.clone(),
            None => return Err(ConfigError::MissingSubtitle),
        };
        let output = match &cli.output {
            Some(o) => o.clone(),
            None => default_output_path(video.as_str()),
        };
        let style = match StyleConfig::from_env_map(env) {
            Ok(s) => s,
            Err(e) => return Err(e),
        };
        Ok(
            AppConfig {
                video,
                subtitle,
                output,
                overwrite_output: cli.force,
                open_output: cli.open,
                style,
            },
        )
    }
}

impl ConfigError {
    /// The message that describes the error.
    pub fn message(&self) -> (r: String)
        ensures
            r@ == config_error_message(self@),
    {
        match self {
            ConfigError::MissingVideo => "video input is required unless --version is used".to_owned(),
            ConfigError::MissingSubtitle => "subtitle input is required unless --version is used".to_owned(),
            ConfigError::InvalidNumber { key, .. } => {
                let mut out = chars_of(key.as_str());
                push_str(&mut out, " must be an unsigned integer");
                string_of(out.as_slice())
            },
        }
    }
}

/// The message that describes a configuration error.
pub open spec fn config_error_message(e: ConfigErrorModel) -> Seq<char> {
    match e {
        ConfigErrorModel::MissingVideo => "video input is required unless --version is used"@,
        ConfigErrorModel::MissingSubtitle => "subtitle input is required unless --version is used"@,
        ConfigErrorModel::InvalidNumber { key, .. } => key + " must be an unsigned integer"@,
    }
}

/// Why `s` is not an unsigned 32-bit integer, in the words of the standard
/// library's integer parser.
pub open spec fn parse_failure_reason(s: Seq<char>) -> Seq<char> {
    let d = crate::text::unsigned_digits(s);
    if s.len() == 0 {
        "cannot parse integer from empty string"@
    } else if d.len() > 0 && crate::text::all_digits(d) {
        "number too large to fit in target type"@
    } else {
        "invalid digit found in string"@
    }
}

/// The message of a configuration error followed by its cause, as the
/// program reports it.
pub open spec fn config_error_report(e: ConfigErrorModel) -> Seq<char> {
    match e {
        ConfigErrorModel::InvalidNumber { value, .. } => config_error_message(e) + ": "@
            + parse_failure_reason(value),
        _ => config_error_message(e),
    }
}

impl ConfigError {
    /// The message followed by its cause (see `config_error_report`).
    pub fn report(&self) -> (r: String)
        ensures
            r@ == config_error_report(self@),
    {
        let m = self.message();
        match self {
            ConfigError::InvalidNumber { value, .. } => {
                let v = chars_of(value.as_str());
                let mut out = chars_of(m.as_str());
                push_str(&mut out, ": ");
                let start: usize = if v.len() > 0 && v[0] == '+' {
                    1
                } else {
                    0
                };
                let mut all = start < v.len();
                let mut i = start;
                while i < v.len()
                    invariant
                        start <= i <= v@.len(),
                        all == (start < v@.len() && forall|k: int|
                            start <= k < i ==> crate::text::is_digit(#[trigger] v@[k])),
                    decreases v@.len() - i,
                {
                    if !('0' <= v[i] && v[i] <= '9') {
                        all = false;
                    }
                    i = i + 1;
                }
                proof {
                    let d = crate::text::unsigned_digits(v@);
                    assert(d == v@.subrange(start as int, v@.len() as int));
                    if all {
                        assert forall|k: int| 0 <= k < d.len() implies crate::text::is_digit(#[trigger] d[k]) by {
                            assert(d[k] == v@[k + start]);
                        }
                    } else if d.len() > 0 {
                        let k = choose|k: int| start <= k < v@.len() && !crate::text::is_digit(v@[k]);
                        assert(!crate::text::is_digit(d[k - start]));
                    }
                }
                if v.len() == 0 {
                    push_str(&mut out, "cannot parse integer from empty string");
                } else if all {
                    push_str(&mut out, "number too large to fit in target type");
                } else {
                    push_str(&mut out, "invalid digit found in string");
                }
                string_of(out.as_slice())
            },
            _ => m,
        }
    }
}

/// The output path: a path given on the command line is used exactly as it
/// is, and the default path next to the video only when none is given.
/// Giving an output path never decides whether the configuration is
/// accepted.
pub proof fn lemma_output_choice(cli: Cli, env: Seq<(String, String)>)
    ensures
        config_spec(cli, env) matches Ok(c) ==> (cli.output matches Some(o) ==> c.output == o@),
        config_spec(cli, env) matches Ok(c) ==> (cli.output is None ==> c.output == default_output(
            cli.video->0@,
        )),
        config_spec(cli, env) is Ok <==> config_spec(Cli { output: None, ..cli }, env) is Ok,
        forall|o: String|
            #[trigger] config_spec(Cli { output: Some(o), ..cli }, env) matches Ok(c) ==> c.output == o@,
{
}

/// The configuration takes the video and subtitle paths as given, the
/// `--force` and `--open` switches as they are, and the style of the
/// environment; a missing video is reported before a missing subtitle,
/// and both before a bad style setting.
pub proof fn lemma_config_fields(cli: Cli, env: Seq<(String, String)>)
    ensures
        cli.video is None ==> config_spec(cli, env) == Err::<ConfigModel, ConfigErrorModel>(
            ConfigErrorModel::MissingVideo,
        ),
        cli.video is Some && cli.subtitle is None ==> config_spec(cli, env) == Err::<
            ConfigModel,
            ConfigErrorModel,
        >(ConfigErrorModel::MissingSubtitle),
        cli.video is Some && cli.subtitle is Some ==> (config_spec(cli, env) is Ok <==> style_spec(env) is Ok),
        config_spec(cli, env) matches Ok(c) ==> {
            &&& c.video == cli.video->0@
            &&& c.subtitle == cli.subtitle->0@
            &&& c.overwrite_output == cli.force
            &&& c.open_output == cli.open
            &&& style_spec(env) == Ok::<StyleModel, ConfigErrorModel>(c.style)
        },
{
}

} // verus!
