//! The rules by which the server's configuration is assembled.
//!
//! A configuration names an address to bind, the size of the worker pool and the data
//! directory. Each may be set on the command line, in a file or in the environment.
//! Addresses and directories are kept as text here: whether an address can be bound
//! and whether a directory exists is for the caller to find out.
use crate::decimal::{parse_length, parsed_length, LengthError};
use crate::text::{
    chars_of, find_char, find_from, has_prefix, range_equals, str_equal, trim_bounds,
    trimmed_between,
};
use vstd::prelude::*;
use vstd::string::{StrSliceExecFns, StringExecFns};

verus! {

/// The three things that can be configured.
#[derive(Debug, Clone, Copy, PartialEq, Eq, Structural)]
pub enum Setting {
    Address,
    PoolSize,
    DataDir,
}

/// Why a configuration could not be assembled.
#[derive(Debug)]
pub enum ConfigError {
    /// The pool size is zero.
    PoolSizeZero,
    /// The pool size is no number.
    PoolSizeParseError(LengthError),
    /// The address cannot be read; the text says why.
    BadServerAddr(String),
    /// There is no such data directory.
    DataDirDoesNotExists,
    /// The data directory could not be looked up; the text says why.
    DataDirIoError(String),
    /// A command-line flag is not known; the text names it.
    UnknownFlag(String),
    /// A command-line flag stands last, without its value; the text is the flag.
    MissingValue(String),
}

/// A complete configuration.
#[derive(Debug)]
pub struct Config {
    pub server_addr: String,
    pub pool_size: usize,
    pub data_dir: String,
}

/// A configuration in the making: each setting is present or not.
#[derive(Debug)]
pub struct Builder {
    pub server_addr: Option<String>,
    pub pool_size: Option<usize>,
    pub data_dir: Option<String>,
}

/// The size of the pool where none is configured.
pub const DEFAULT_POOL_SIZE: usize = 10;

/// The view of an optional text.
pub open spec fn text_view(t: Option<String>) -> Option<Seq<char>> {
    match t {
        Some(s) => Some(s@),
        None => None,
    }
}

/// `a` where it is set, else `b`.
pub open spec fn first_set<T>(a: Option<T>, b: Option<T>) -> Option<T> {
    if a is Some {
        a
    } else {
        b
    }
}

/// The address that is bound where none is configured.
pub open spec fn default_address() -> Seq<char> {
    "127.0.0.1:4221"@
}

/// The data directory where none is configured.
pub open spec fn default_data_dir() -> Seq<char> {
    "."@
}

/// The setting that a command-line flag stands for.
pub open spec fn flag_setting(arg: Seq<char>) -> Option<Setting> {
    if arg == "--address"@ || arg == "-a"@ {
        Some(Setting::Address)
    } else if arg == "--pool-size"@ || arg == "-s"@ {
        Some(Setting::PoolSize)
    } else if arg == "--data-dir"@ || arg == "--directory"@ || arg == "-d"@ {
        Some(Setting::DataDir)
    } else {
        None
    }
}

/// The setting that a key of the configuration file stands for.
pub open spec fn key_setting(key: Seq<char>) -> Option<Setting> {
    if key == "address"@ {
        Some(Setting::Address)
    } else if key == "pool_size"@ {
        Some(Setting::PoolSize)
    } else if key == "data_dir"@ {
        Some(Setting::DataDir)
    } else {
        None
    }
}

/// What a text says as a pool size: a number, and not zero.
pub open spec fn pool_size_parsed(text: Seq<char>) -> Result<nat, ConfigError> {
    match parsed_length(text) {
        Err(e) => Err(ConfigError::PoolSizeParseError(e)),
        Ok(n) => if n == 0 {
            Err(ConfigError::PoolSizeZero)
        } else {
            Ok(n)
        },
    }
}

/// Whether `word` stands somewhere in `s`.
pub open spec fn holds_text(s: Seq<char>, word: Seq<char>) -> bool {
    exists|i: int| 0 <= i && i + word.len() <= s.len() && #[trigger] s.subrange(
        i,
        i + word.len(),
    ) == word
}

/// Whether a line of the configuration file opens the server's section: it begins with
/// `[`, ends with `]` and holds the word `server`.
pub open spec fn opens_server_section(line: Seq<char>) -> bool {
    line.len() > 0 && line[0] == '[' && line.last() == ']' && holds_text(line, "server"@)
}

/// The key and the value of a line of the form `key = value`, both trimmed; the first `=`
/// divides the line.
pub open spec fn key_and_value(line: Seq<char>) -> Option<(Seq<char>, Seq<char>)> {
    let k = find_from(line, 0, '=');
    if k < line.len() {
        Some((trimmed_between(line, 0, k), trimmed_between(line, k + 1, line.len() as int)))
    } else {
        None
    }
}

impl Setting {
    /// The flag by which the setting is named when its value is missing.
    pub open spec fn flag(self) -> Seq<char> {
        match self {
            Setting::Address => "--address"@,
            Setting::PoolSize => "--pool-size"@,
            Setting::DataDir => "--data-dir"@,
        }
    }

    /// The environment variable that holds the setting.
    pub open spec fn variable(self) -> Seq<char> {
        match self {
            Setting::Address => "ADDRESS"@,
            Setting::PoolSize => "POOL_SIZE"@,
            Setting::DataDir => "DATA_DIR"@,
        }
    }

    /// The environment variable that holds the setting.
    pub fn env_name(&self) -> (name: &'static str)
        ensures
            name@ == self.variable(),
    {
        match self {
            Setting::Address => "ADDRESS",
            Setting::PoolSize => "POOL_SIZE",
            Setting::DataDir => "DATA_DIR",
        }
    }

    /// Reads a command-line flag.
    pub fn from_flag(arg: &str) -> (r: Result<Setting, ConfigError>)
        ensures
            match r {
                Ok(s) => flag_setting(arg@) == Some(s),
                Err(ConfigError::UnknownFlag(msg)) => flag_setting(arg@) is None && msg@
                    == "Unknown CLI argument flag: "@ + arg@,
                Err(_) => false,
            },
    {
        if str_equal(arg, "--address") || str_equal(arg, "-a") {
            Ok(Setting::Address)
        } else if str_equal(arg, "--pool-size") || str_equal(arg, "-s") {
            Ok(Setting::PoolSize)
        } else if str_equal(arg, "--data-dir") || str_equal(arg, "--directory") || str_equal(
            arg,
            "-d",
        ) {
            Ok(Setting::DataDir)
        } else {
            Err(ConfigError::UnknownFlag("Unknown CLI argument flag: ".to_owned().concat(arg)))
        }
    }

    /// Reads a key of the configuration file. A key that is not known stands for nothing.
    pub fn from_key(key: &str) -> (r: Option<Setting>)
        ensures
            r == key_setting(key@),
    {
        if str_equal(key, "address") {
            Some(Setting::Address)
        } else if str_equal(key, "pool_size") {
            Some(Setting::PoolSize)
        } else if str_equal(key, "data_dir") {
            Some(Setting::DataDir)
        } else {
            None
        }
    }

    /// The error for a flag that stands last on the command line, without its value.
    pub fn missing_value(&self) -> (e: ConfigError)
        ensures
            e matches ConfigError::MissingValue(flag) && flag@ == self.flag(),
    {
        match self {
            Setting::Address => ConfigError::MissingValue("--address".to_owned()),
            Setting::PoolSize => ConfigError::MissingValue("--pool-size".to_owned()),
            Setting::DataDir => ConfigError::MissingValue("--data-dir".to_owned()),
        }
    }
}

/// Reads a pool size: a number, and at least one.
pub fn parse_pool_size(text: &str) -> (r: Result<usize, ConfigError>)
    ensures
        match r {
            Ok(n) => pool_size_parsed(text@) == Ok::<nat, ConfigError>(n as nat) && n >= 1,
            Err(e) => pool_size_parsed(text@) == Err::<nat, ConfigError>(e),
        },
{
    match parse_length(text) {
        Err(e) => Err(ConfigError::PoolSizeParseError(e)),
        Ok(n) => {
            if n == 0 {
                Err(ConfigError::PoolSizeZero)
            } else {
                Ok(n)
            }
        },
    }
}

fn vec_holds_text(v: &Vec<char>, word: &Vec<char>) -> (r: bool)
    ensures
        r == holds_text(v@, word@),
{
    if word.len() > v.len() {
        return false;
    }
    let last: usize = v.len() - word.len();
    let mut i: usize = 0;
    loop
        invariant
            word.len() <= v.len(),
            last == v.len() - word.len(),
            i <= last,
            forall|j: int| 0 <= j < i ==> #[trigger] v@.subrange(j, j + word@.len()) != word@,
        decreases last - i,
    {
        if range_equals(v, i, i + word.len(), word) {
            return true;
        }
        if i == last {
            return false;
        }
        i += 1;
    }
}

/// Whether a line of the configuration file opens the server's section.
pub fn is_server_heading(line: &str) -> (r: bool)
    ensures
        r == opens_server_section(line@),
{
    let v = chars_of(line);
    v.len() > 0 && v[0] == '[' && v[v.len() - 1] == ']' && vec_holds_text(&v, &chars_of("server"))
}

/// Divides a line of the form `key = value`.
pub fn split_key_value<'a>(line: &'a str) -> (r: Option<(&'a str, &'a str)>)
    ensures
        match r {
            Some((key, value)) => key_and_value(line@) == Some((key@, value@)),
            None => key_and_value(line@) is None,
        },
{
    let v = chars_of(line);
    let k = find_char(&v, 0, '=');
    if k >= v.len() {
        return None;
    }
    let (a, b) = trim_bounds(&v, 0, k);
    let (c, d) = trim_bounds(&v, k + 1, v.len());
    Some((line.substring_char(a, b), line.substring_char(c, d)))
}

/// A configuration in the making as a mathematical value.
pub struct BuilderView {
    pub server_addr: Option<Seq<char>>,
    pub pool_size: Option<usize>,
    pub data_dir: Option<Seq<char>>,
}

impl View for Builder {
    type V = BuilderView;

    open spec fn view(&self) -> BuilderView {
        BuilderView {
            server_addr: text_view(self.server_addr),
            pool_size: self.pool_size,
            data_dir: text_view(self.data_dir),
        }
    }
}

fn copy_of(text: &Option<String>) -> (r: Option<String>)
    ensures
        text_view(r) == text_view(*text),
{
    match text {
        Some(s) => Some(s.clone()),
        None => None,
    }
}

impl Builder {
    /// A configuration with nothing set.
    pub fn new() -> (b: Builder)
        ensures
            b@ == (BuilderView { server_addr: None, pool_size: None, data_dir: None }),
    {
        Builder { server_addr: None, pool_size: None, data_dir: None }
    }

    /// The configuration, with the default in place of each setting that is not set.
    pub fn build(self) -> (c: Config)
        ensures
            c.server_addr@ == match self@.server_addr {
                Some(a) => a,
                None => default_address(),
            },
            c.pool_size == match self@.pool_size {
                Some(n) => n,
                None => DEFAULT_POOL_SIZE,
            },
            c.data_dir@ == match self@.data_dir {
                Some(d) => d,
                None => default_data_dir(),
            },
    {
        Config {
            server_addr: match self.server_addr {
                Some(a) => a,
                None => "127.0.0.1:4221".to_owned(),
            },
            pool_size: match self.pool_size {
                Some(n) => n,
                None => DEFAULT_POOL_SIZE,
            },
            data_dir: match self.data_dir {
                Some(d) => d,
                None => ".".to_owned(),
            },
        }
    }

    /// Each setting from `self` where it is set there, else from `other`.
    pub fn merge(&self, other: &Builder) -> (b: Builder)
        ensures
            b@ == (BuilderView {
                server_addr: first_set(self@.server_addr, other@.server_addr),
                pool_size: first_set(self@.pool_size, other@.pool_size),
                data_dir: first_set(self@.data_dir, other@.data_dir),
            }),
    {
        Builder {
            server_addr: if self.server_addr.is_some() {
                copy_of(&self.server_addr)
            } else {
                copy_of(&other.server_addr)
            },
            pool_size: if self.pool_size.is_some() {
                self.pool_size
            } else {
                other.pool_size
            },
            data_dir: if self.data_dir.is_some() {
                copy_of(&self.data_dir)
            } else {
                copy_of(&other.data_dir)
            },
        }
    }
}

/// Merging takes the first value that is set, however the merges are grouped.
pub proof fn lemma_merge_is_associative(a: BuilderView, b: BuilderView, c: BuilderView)
    ensures
        first_set(first_set(a.server_addr, b.server_addr), c.server_addr) == first_set(
            a.server_addr,
            first_set(b.server_addr, c.server_addr),
        ),
        first_set(first_set(a.pool_size, b.pool_size), c.pool_size) == first_set(
            a.pool_size,
            first_set(b.pool_size, c.pool_size),
        ),
        first_set(first_set(a.data_dir, b.data_dir), c.data_dir) == first_set(
            a.data_dir,
            first_set(b.data_dir, c.data_dir),
        ),
{
}

} // verus!
