//! Player configuration.

use crate::text::str_eq;
use vstd::prelude::*;
use vstd::string::*;

verus! {

/// Top-level player configuration.
#[derive(Debug, Clone)]
pub struct PlayerConfig {
    pub width: u32,
    pub height: u32,
    pub fps: u32,
    pub program_dir: String,
    pub port: u16,
    pub output_mode: OutputMode,
    pub output_path: String,
}

/// Where rendered frames go.
#[derive(Debug, Clone, Copy, PartialEq, Eq, Structural)]
pub enum OutputMode {
    /// Save frames as PNG files.
    Png,
    /// Render to the hardware framebuffer.
    Framebuffer,
    /// Write raw pixels to standard output.
    Raw,
}

impl Default for OutputMode {
    fn default() -> (r: OutputMode)
        ensures
            r == OutputMode::Png,
    {
        OutputMode::Png
    }
}

/// What `str::to_lowercase` makes of a text.
pub uninterp spec fn lowercase(s: Seq<char>) -> Seq<char>;

/// `str::to_lowercase`: the lower-case form of a text by the rules of
/// Unicode. The result is named, not stated.
#[verifier::external_body]
fn to_lowercase(s: &str) -> (r: String)
    ensures
        r@ == lowercase(s@),
{
    s.to_lowercase()
}

/// The output mode that a lower-case name stands for.
pub open spec fn mode_named(name: Seq<char>) -> Option<OutputMode> {
    if name == "png"@ {
        Some(OutputMode::Png)
    } else if name == "framebuffer"@ || name == "fb"@ || name == "drm"@ {
        Some(OutputMode::Framebuffer)
    } else if name == "raw"@ || name == "stdout"@ {
        Some(OutputMode::Raw)
    } else {
        None
    }
}

/// The message for a name that stands for no output mode.
pub open spec fn unknown_mode_message(name: Seq<char>) -> Seq<char> {
    "Unknown output mode: "@ + name
}

impl OutputMode {
    /// The output mode that a lower-case name stands for.
    pub fn named(name: &str) -> (r: Option<OutputMode>)
        ensures
            r == mode_named(name@),
    {
        if str_eq(name, "png") {
            Some(OutputMode::Png)
        } else if str_eq(name, "framebuffer") || str_eq(name, "fb") || str_eq(name, "drm") {
            Some(OutputMode::Framebuffer)
        } else if str_eq(name, "raw") || str_eq(name, "stdout") {
            Some(OutputMode::Raw)
        } else {
            None
        }
    }

    /// Reads an output mode from its name, in any letter case.
    pub fn parse(s: &str) -> (r: Result<OutputMode, String>)
        ensures
            match mode_named(lowercase(s@)) {
                Some(mode) => r == Ok::<OutputMode, String>(mode),
                None => r matches Err(message) && message@ == unknown_mode_message(s@),
            },
    {
        let lowered = to_lowercase(s);
        match OutputMode::named(lowered.as_str()) {
            Some(mode) => Ok(mode),
            None => {
                let mut message = "Unknown output mode: ".to_owned();
                message.append(s);
                Err(message)
            },
        }
    }
}

impl std::str::FromStr for OutputMode {
    type Err = String;

    /// Reads an output mode from its name, in any letter case: what
    /// `OutputMode::parse` gives.
    fn from_str(s: &str) -> (r: Result<OutputMode, String>)
        ensures
            match mode_named(lowercase(s@)) {
                Some(mode) => r == Ok::<OutputMode, String>(mode),
                None => r matches Err(message) && message@ == unknown_mode_message(s@),
            },
    {
        OutputMode::parse(s)
    }
}

} // verus!
