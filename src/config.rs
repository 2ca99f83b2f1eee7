//! Settings: those read from a configuration file, and those a download
//! runs with.

use vstd::prelude::*;
use vstd::string::*;

verus! {

/// The default progress bar template.
pub open spec fn default_template() -> Seq<char> {
    "{spinner:.green} [{elapsed_precise}] [{bar:40.cyan/blue}] {pos:>7}/{len:7} ({percent}%) {msg}"@
}

/// The default template of the line that announces a download.
pub open spec fn default_msg_template() -> Seq<char> {
    "{download} {url} → {output}"@
}

/// The default progress bar characters: full, partial, empty.
pub open spec fn default_bar_chars() -> Seq<char> {
    "█▌░"@
}

pub const DEFAULT_WORKERS: usize = 4;
pub const DEFAULT_BUFFER_SIZE: usize = 262144;
pub const DEFAULT_POOL_SIZE: usize = 100;
pub const DEFAULT_RETRIES: usize = 3;
pub const DEFAULT_MIN_PARALLEL_SIZE: u64 = 5242880;

fn template_text() -> (r: String)
    ensures
        r@ == default_template(),
{
    "{spinner:.green} [{elapsed_precise}] [{bar:40.cyan/blue}] {pos:>7}/{len:7} ({percent}%) {msg}".to_owned()
}

fn msg_template_text() -> (r: String)
    ensures
        r@ == default_msg_template(),
{
    "{download} {url} → {output}".to_owned()
}

fn bar_chars_text() -> (r: String)
    ensures
        r@ == default_bar_chars(),
{
    "█▌░".to_owned()
}

/// Settings of the command line tool.
#[derive(Debug, Clone)]
pub struct Config {
    pub msg_template: String,
    pub template: String,
    pub bar_chars: String,
    pub workers: usize,
    pub buffer_size: usize,
    pub pool_size: usize,
    pub retries: usize,
    pub min_parallel_size: u64,
}

/// The settings a configuration file gives; each may be missing.
#[derive(Debug, Clone)]
pub struct ConfigFile {
    pub msg_template: Option<String>,
    pub template: Option<String>,
    pub bar_chars: Option<String>,
    pub workers: Option<usize>,
    pub buffer_size: Option<usize>,
    pub pool_size: Option<usize>,
    pub retries: Option<usize>,
    pub min_parallel_size: Option<u64>,
}

/// The text `o` gives, else `d`.
pub open spec fn text_or(o: Option<String>, d: Seq<char>) -> Seq<char> {
    match o {
        Some(s) => s@,
        None => d,
    }
}

/// The number `o` gives, else `d`.
pub open spec fn number_or<T>(o: Option<T>, d: T) -> T {
    match o {
        Some(v) => v,
        None => d,
    }
}

impl Default for Config {
    fn default() -> (r: Config)
        ensures
            r.msg_template@ == default_msg_template(),
            r.template@ == default_template(),
            r.bar_chars@ == default_bar_chars(),
            r.workers == DEFAULT_WORKERS,
            r.buffer_size == DEFAULT_BUFFER_SIZE,
            r.pool_size == DEFAULT_POOL_SIZE,
            r.retries == DEFAULT_RETRIES,
            r.min_parallel_size == DEFAULT_MIN_PARALLEL_SIZE,
    {
        Config {
            msg_template: msg_template_text(),
            template: template_text(),
            bar_chars: bar_chars_text(),
            workers: DEFAULT_WORKERS,
            buffer_size: DEFAULT_BUFFER_SIZE,
            pool_size: DEFAULT_POOL_SIZE,
            retries: DEFAULT_RETRIES,
            min_parallel_size: DEFAULT_MIN_PARALLEL_SIZE,
        }
    }
}

fn text_or_default(o: Option<String>, d: String) -> (r: String)
    ensures
        r@ == text_or(o, d@),
{
    match o {
        Some(s) => s,
        None => d,
    }
}

impl Config {
    /// The settings of a configuration file, with the defaults for those it
    /// leaves out.
    pub fn from_file(file: ConfigFile) -> (r: Config)
        ensures
            r.msg_template@ == text_or(file.msg_template, default_msg_template()),
            r.template@ == text_or(file.template, default_template()),
            r.bar_chars@ == text_or(file.bar_chars, default_bar_chars()),
            r.workers == number_or(file.workers, DEFAULT_WORKERS),
            r.buffer_size == number_or(file.buffer_size, DEFAULT_BUFFER_SIZE),
            r.pool_size == number_or(file.pool_size, DEFAULT_POOL_SIZE),
            r.retries == number_or(file.retries, DEFAULT_RETRIES),
            r.min_parallel_size == number_or(file.min_parallel_size, DEFAULT_MIN_PARALLEL_SIZE),
    {
        Config {
            msg_template: text_or_default(file.msg_template, msg_template_text()),
            template: text_or_default(file.template, template_text()),
            bar_chars: text_or_default(file.bar_chars, bar_chars_text()),
            workers: match file.workers {
                Some(v) => v,
                None => DEFAULT_WORKERS,
            },
            buffer_size: match file.buffer_size {
                Some(v) => v,
                None => DEFAULT_BUFFER_SIZE,
            },
            pool_size: match file.pool_size {
                Some(v) => v,
                None => DEFAULT_POOL_SIZE,
            },
            retries: match file.retries {
                Some(v) => v,
                None => DEFAULT_RETRIES,
            },
            min_parallel_size: match file.min_parallel_size {
                Some(v) => v,
                None => DEFAULT_MIN_PARALLEL_SIZE,
            },
        }
    }
}

/// Settings of a download engine.
#[derive(Debug, Clone)]
pub struct DownloadConfig {
    /// Chunks fetched side by side per file.
    pub workers: usize,
    /// Whether partial files are continued rather than fetched again.
    pub continue_download: bool,
    /// Whether a desktop notification reports each outcome.
    pub notify: bool,
    /// Progress bar template.
    pub template: String,
    /// Template of the line that announces a download.
    pub msg_template: String,
    /// Progress bar characters: full, partial, empty.
    pub chars: String,
    /// Size of each write to disk, in bytes.
    pub buffer_size: usize,
    /// Idle connections kept per host.
    pub pool_size: usize,
    /// Attempts per file.
    pub retries: usize,
    /// Size at or below which a file is fetched in one piece.
    pub min_parallel_size: u64,
    /// Files downloaded at once; computed from `workers` when absent.
    pub max_concurrent_files: Option<usize>,
}

/// Files downloaded at once when no limit is set:
/// `min(8, max(1, 16 / max(1, workers)))`.
pub open spec fn auto_concurrent_files(workers: usize) -> int {
    let w: int = if workers >= 1 { workers as int } else { 1 };
    let n: int = if 16int / w >= 1 { 16int / w } else { 1 };
    if n < 8 { n } else { 8 }
}

impl Default for DownloadConfig {
    fn default() -> (r: DownloadConfig)
        ensures
            r.workers == DEFAULT_WORKERS,
            !r.continue_download,
            !r.notify,
            r.template@ == default_template(),
            r.msg_template@ == default_msg_template(),
            r.chars@ == default_bar_chars(),
            r.buffer_size == DEFAULT_BUFFER_SIZE,
            r.pool_size == DEFAULT_POOL_SIZE,
            r.retries == DEFAULT_RETRIES,
            r.min_parallel_size == DEFAULT_MIN_PARALLEL_SIZE,
            r.max_concurrent_files is None,
    {
        DownloadConfig {
            workers: DEFAULT_WORKERS,
            continue_download: false,
            notify: false,
            template: template_text(),
            msg_template: msg_template_text(),
            chars: bar_chars_text(),
            buffer_size: DEFAULT_BUFFER_SIZE,
            pool_size: DEFAULT_POOL_SIZE,
            retries: DEFAULT_RETRIES,
            min_parallel_size: DEFAULT_MIN_PARALLEL_SIZE,
            max_concurrent_files: None,
        }
    }
}

impl DownloadConfig {
    /// How many files of a batch are downloaded at once: the limit set, or
    /// else one computed from the workers per file, so that about sixteen
    /// chunks are in flight and never more than eight files.
    pub fn max_concurrent(&self) -> (r: usize)
        ensures
            r == match self.max_concurrent_files {
                Some(n) => n as int,
                None => auto_concurrent_files(self.workers),
            },
    {
        match self.max_concurrent_files {
            Some(n) => n,
            None => {
                let w: usize = if self.workers >= 1 { self.workers } else { 1 };
                let n: usize = if 16 / w >= 1 { 16 / w } else { 1 };
                if n < 8 { n } else { 8 }
            },
        }
    }
}

} // verus!
