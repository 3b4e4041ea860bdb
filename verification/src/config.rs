//! What the program is started with.

use crate::catalog::WindowSize;
use crate::interval::DEFAULT_INTERVAL_MS;
use vstd::prelude::*;

verus! {

/// Width of the window where none is given, in pixels.
pub const DEFAULT_WINDOW_WIDTH: usize = 640;

/// Height of the window where none is given, in pixels.
pub const DEFAULT_WINDOW_HEIGHT: usize = 480;

/// The directory that is shown where none is given.
pub open spec fn default_directory() -> Seq<char> {
    "./photo"@
}

/// The settings of one run.
#[derive(Debug)]
pub struct Config {
    /// Size of the window; images larger than it are downsized.
    pub window: WindowSize,
    /// The directory whose images are shown.
    pub directory: String,
    /// Display time per image at startup, in milliseconds.
    pub interval_ms: u64,
}

impl Config {
    /// The settings for the values that were given, with the default in
    /// place of each that was not: a window of 640 by 480 pixels, the
    /// directory `./photo`. The interval starts at five seconds.
    pub fn resolve(
        width: Option<usize>,
        height: Option<usize>,
        directory: Option<String>,
    ) -> (config: Config)
        ensures
            config.window.0 == match width {
                Some(w) => w,
                None => DEFAULT_WINDOW_WIDTH,
            },
            config.window.1 == match height {
                Some(h) => h,
                None => DEFAULT_WINDOW_HEIGHT,
            },
            config.directory@ == match directory {
                Some(d) => d@,
                None => default_directory(),
            },
            config.interval_ms == DEFAULT_INTERVAL_MS,
    {
        let w: usize = match width {
            Some(w) => w,
            None => DEFAULT_WINDOW_WIDTH,
        };
        let h: usize = match height {
            Some(h) => h,
            None => DEFAULT_WINDOW_HEIGHT,
        };
        let directory: String = match directory {
            Some(d) => d,
            None => "./photo".to_owned(),
        };
        Config { window: WindowSize(w, h), directory, interval_ms: DEFAULT_INTERVAL_MS }
    }
}

} // verus!
