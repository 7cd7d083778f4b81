//! The configuration of one generation run.

use crate::partition::{effective_workers, worker_count};
use crate::schema::{definition_file, definition_file_name};
use vstd::prelude::*;
use vstd::string::*;

verus! {

/// Why a configuration is refused.
#[derive(Clone, Copy, Debug, PartialEq, Eq, Structural)]
pub enum ConfigError {
    /// No rows are asked for.
    NoLines,
    /// No worker is asked for.
    NoThreads,
    /// The delimiter is empty.
    EmptyDelimiter,
}

impl ConfigError {
    /// What the error says.
    pub open spec fn text(self) -> Seq<char> {
        match self {
            ConfigError::NoLines => "the number of lines must be positive"@,
            ConfigError::NoThreads => "the number of threads must be positive"@,
            ConfigError::EmptyDelimiter => "the delimiter must not be empty"@,
        }
    }

    /// What the error says.
    pub fn message(&self) -> (message: String)
        ensures
            message@ == self.text(),
    {
        match self {
            ConfigError::NoLines => String::from_str("the number of lines must be positive"),
            ConfigError::NoThreads => String::from_str("the number of threads must be positive"),
            ConfigError::EmptyDelimiter => String::from_str("the delimiter must not be empty"),
        }
    }
}

/// What is wrong with a configuration, if anything: the first of no rows,
/// no threads and an empty delimiter.
pub open spec fn fault(lines: u32, threads: u32, delimiter: Seq<u8>) -> Option<ConfigError> {
    if lines == 0 {
        Some(ConfigError::NoLines)
    } else if threads == 0 {
        Some(ConfigError::NoThreads)
    } else if delimiter.len() == 0 {
        Some(ConfigError::EmptyDelimiter)
    } else {
        None
    }
}

/// What a configuration holds.
pub struct ConfigView {
    pub lines: u32,
    pub cols: u16,
    pub delimiter: Seq<u8>,
    pub filename: Seq<char>,
    pub threads: u32,
}

/// A configuration that has been found valid: at least one row, at least
/// one thread, and a delimiter that is not empty.
#[derive(Debug)]
pub struct Config {
    lines: u32,
    cols: u16,
    delimiter: Vec<u8>,
    filename: String,
    threads: u32,
}

impl View for Config {
    type V = ConfigView;

    closed spec fn view(&self) -> ConfigView {
        ConfigView {
            lines: self.lines,
            cols: self.cols,
            delimiter: self.delimiter@,
            filename: self.filename@,
            threads: self.threads,
        }
    }
}

impl Config {
    #[verifier::type_invariant]
    spec fn valid(&self) -> bool {
        fault(self.lines, self.threads, self.delimiter@) is None
    }

    /// The configuration of the given values, or what is wrong with them.
    pub fn new(lines: u32, cols: u16, delimiter: Vec<u8>, filename: String, threads: u32) -> (made:
        Result<Config, ConfigError>)
        ensures
            match made {
                Ok(config) => {
                    &&& fault(lines, threads, delimiter@) is None
                    &&& config@ == (ConfigView {
                        lines,
                        cols,
                        delimiter: delimiter@,
                        filename: filename@,
                        threads,
                    })
                },
                Err(error) => fault(lines, threads, delimiter@) == Some(error),
            },
    {
        if lines == 0 {
            Err(ConfigError::NoLines)
        } else if threads == 0 {
            Err(ConfigError::NoThreads)
        } else if delimiter.len() == 0 {
            Err(ConfigError::EmptyDelimiter)
        } else {
            Ok(Config { lines, cols, delimiter, filename, threads })
        }
    }

    /// The configuration of the given counts with the delimiter `~|` and
    /// the output file `genfile`, or what is wrong with the counts.
    pub fn with_defaults(lines: u32, cols: u16, threads: u32) -> (made: Result<Config, ConfigError>)
        ensures
            match made {
                Ok(config) => {
                    &&& lines > 0 && threads > 0
                    &&& config@ == (ConfigView {
                        lines,
                        cols,
                        delimiter: seq![126u8, 124u8],
                        filename: "genfile"@,
                        threads,
                    })
                },
                Err(error) => fault(lines, threads, seq![126u8, 124u8]) == Some(error),
            },
    {
        let mut delimiter: Vec<u8> = Vec::new();
        delimiter.push(126u8);
        delimiter.push(124u8);
        assert(delimiter@ =~= seq![126u8, 124u8]);
        Config::new(lines, cols, delimiter, String::from_str("genfile"), threads)
    }

    /// The number of rows.
    pub fn lines(&self) -> (lines: u32)
        ensures
            lines == self@.lines,
            lines >= 1,
    {
        proof {
            use_type_invariant(self);
        }
        self.lines
    }

    /// The number of columns.
    pub fn cols(&self) -> (cols: u16)
        ensures
            cols == self@.cols,
    {
        self.cols
    }

    /// The delimiter between the fields of a line.
    pub fn delimiter(&self) -> (delimiter: &[u8])
        ensures
            delimiter@ == self@.delimiter,
            delimiter@.len() >= 1,
    {
        proof {
            use_type_invariant(self);
        }
        self.delimiter.as_slice()
    }

    /// The name of the output file.
    pub fn filename(&self) -> (filename: &str)
        ensures
            filename@ == self@.filename,
    {
        self.filename.as_str()
    }

    /// The number of threads that were asked for.
    pub fn threads(&self) -> (threads: u32)
        ensures
            threads == self@.threads,
            threads >= 1,
    {
        proof {
            use_type_invariant(self);
        }
        self.threads
    }

    /// The number of workers that take part: the threads asked for, or one
    /// where the rows are too few to split.
    pub fn workers(&self) -> (workers: u32)
        ensures
            workers == worker_count(self@.lines as nat, self@.threads as nat),
            1 <= workers <= self@.threads,
    {
        proof {
            use_type_invariant(self);
        }
        effective_workers(self.lines, self.threads)
    }

    /// The name of the file that receives the table definition.
    pub fn definition_file(&self) -> (name: String)
        ensures
            name@ == definition_file_name(self@.filename),
    {
        definition_file(self.filename.as_str())
    }
}

} // verus!
