use vstd::prelude::*;
use vstd::string::StrSliceExecFns;

verus! {

/// Which syscall outcomes are recorded.
#[derive(Debug, Clone, Copy, PartialEq, Eq, Structural, Hash)]
pub enum Filter {
    /// Every outcome is recorded (shown as "None": no filtering).
    All,
    Success,
    Fail,
}

/// Output format of a sink.
#[derive(Debug, Clone, Copy, PartialEq, Eq, Structural, Hash)]
pub enum Format {
    Raw,
    Json,
}

/// Errors of configuration parsing and of setting up the registry.
#[derive(Debug, Clone, Copy, PartialEq, Eq, Structural)]
pub enum Error {
    /// A name that denotes no known value.
    NotFound,
    /// Per-task output was requested without an output path.
    Configuration,
    /// The output path cannot serve as a destination (it is a directory).
    Destination,
}

/// What `str::to_lowercase` returns for a string.
pub uninterp spec fn lower_of(s: Seq<char>) -> Seq<char>;

/// Relies on `str::to_lowercase`: the result depends on the characters alone.
#[verifier::external_body]
fn lowercase(s: &str) -> (r: String)
    ensures
        r@ == lower_of(s@),
{
    s.to_lowercase()
}

pub open spec fn filter_of_lowered(s: Seq<char>) -> Result<Filter, Error> {
    if s == "none"@ {
        Ok(Filter::All)
    } else if s == "success"@ {
        Ok(Filter::Success)
    } else if s == "fail"@ {
        Ok(Filter::Fail)
    } else {
        Err(Error::NotFound)
    }
}

pub open spec fn format_of_lowered(s: Seq<char>) -> Result<Format, Error> {
    if s == "raw"@ {
        Ok(Format::Raw)
    } else if s == "json"@ {
        Ok(Format::Json)
    } else {
        Err(Error::NotFound)
    }
}

fn str_eq(a: &str, b: &str) -> (r: bool)
    ensures
        r == (a@ == b@),
{
    let x = String::from_str(a);
    let y = String::from_str(b);
    x == y
}

impl Filter {
    /// Parses an already lower-cased name.
    pub fn from_lowered(s: &str) -> (r: Result<Filter, Error>)
        ensures
            r == filter_of_lowered(s@),
    {
        if str_eq(s, "none") {
            Ok(Filter::All)
        } else if str_eq(s, "success") {
            Ok(Filter::Success)
        } else if str_eq(s, "fail") {
            Ok(Filter::Fail)
        } else {
            Err(Error::NotFound)
        }
    }

    /// Parses a name, ignoring case.
    pub fn from_str(s: &str) -> (r: Result<Filter, Error>)
        ensures
            r == filter_of_lowered(lower_of(s@)),
    {
        let l = lowercase(s);
        Filter::from_lowered(l.as_str())
    }

    /// The name under which the value is shown.
    pub fn name(&self) -> (r: &'static str)
        ensures
            r@ == match self {
                Filter::All => "None"@,
                Filter::Success => "Success"@,
                Filter::Fail => "Fail"@,
            },
    {
        match self {
            Filter::All => "None",
            Filter::Success => "Success",
            Filter::Fail => "Fail",
        }
    }

    /// Whether a completed syscall with the given outcome is recorded.
    pub fn admits(&self, succeeded: bool, failed: bool) -> (r: bool)
        ensures
            r == match self {
                Filter::All => true,
                Filter::Success => succeeded,
                Filter::Fail => failed,
            },
    {
        match self {
            Filter::All => true,
            Filter::Success => succeeded,
            Filter::Fail => failed,
        }
    }
}

impl Format {
    /// Parses an already lower-cased name.
    pub fn from_lowered(s: &str) -> (r: Result<Format, Error>)
        ensures
            r == format_of_lowered(s@),
    {
        if str_eq(s, "raw") {
            Ok(Format::Raw)
        } else if str_eq(s, "json") {
            Ok(Format::Json)
        } else {
            Err(Error::NotFound)
        }
    }

    /// Parses a name, ignoring case.
    pub fn from_str(s: &str) -> (r: Result<Format, Error>)
        ensures
            r == format_of_lowered(lower_of(s@)),
    {
        let l = lowercase(s);
        Format::from_lowered(l.as_str())
    }

    /// The name under which the value is shown.
    pub fn name(&self) -> (r: &'static str)
        ensures
            r@ == match self {
                Format::Raw => "Raw"@,
                Format::Json => "Json"@,
            },
    {
        match self {
            Format::Raw => "Raw",
            Format::Json => "Json",
        }
    }

    /// The file extension of a destination in this format.
    pub fn extension(&self) -> (r: Vec<u8>)
        ensures
            r@ == extension_of(*self),
    {
        match self {
            Format::Raw => vec![116u8, 120u8, 116u8],
            Format::Json => vec![106u8, 115u8, 111u8, 110u8],
        }
    }
}

pub open spec fn extension_of(f: Format) -> Seq<u8> {
    match f {
        // "txt"
        Format::Raw => seq![116u8, 120u8, 116u8],
        // "json"
        Format::Json => seq![106u8, 115u8, 111u8, 110u8],
    }
}

/// A likely mistake in the command line.
#[derive(Debug, Clone, Copy, PartialEq, Eq, Structural)]
pub enum Warning {
    /// No program to trace or attach to.
    NoTarget,
    /// The target starts with '-': probably a mistyped option.
    DashTarget,
    /// Attaching reads only the first target, yet several were given.
    ManyTargets,
    /// Filtering on syscall outcome needs enriched syscall data.
    FilterWithoutEnrich,
}

/// The warnings and whether the run must stop.
pub struct Sanity {
    pub warnings: Vec<Warning>,
    pub fatal: bool,
}

pub open spec fn starts_with_dash(s: Seq<char>) -> bool {
    s.len() > 0 && s[0] == '-'
}

pub open spec fn flag(b: bool, w: Warning) -> Seq<Warning> {
    if b {
        seq![w]
    } else {
        Seq::empty()
    }
}

/// The warnings for a command line whose first target is `first`.
pub open spec fn warnings_for(
    first: Seq<char>,
    n_targets: nat,
    attach: bool,
    only_print: Filter,
    enriched: bool,
) -> Seq<Warning> {
    flag(starts_with_dash(first), Warning::DashTarget) + flag(
        attach && n_targets > 1,
        Warning::ManyTargets,
    ) + flag(only_print != Filter::All && !enriched, Warning::FilterWithoutEnrich)
}

/// Checks a command line for likely mistakes. Without a target the run
/// stops; otherwise it stops only when some warning is raised and
/// `panic_on_oops` is set.
pub fn sanity_check(
    first: Option<&str>,
    n_targets: usize,
    attach: bool,
    only_print: Filter,
    enriched: bool,
    panic_on_oops: bool,
) -> (r: Sanity)
    ensures
        match first {
            None => r.warnings@ == seq![Warning::NoTarget] && r.fatal,
            Some(f) => {
                let w = warnings_for(f@, n_targets as nat, attach, only_print, enriched);
                &&& r.warnings@ == w
                &&& r.fatal == (w.len() > 0 && panic_on_oops)
            },
        },
{
    match first {
        None => Sanity { warnings: vec![Warning::NoTarget], fatal: true },
        Some(f) => {
            let mut w: Vec<Warning> = Vec::new();
            let dash = f.unicode_len() > 0 && f.get_char(0) == '-';
            if dash {
                w.push(Warning::DashTarget);
            }
            if attach && n_targets > 1 {
                w.push(Warning::ManyTargets);
            }
            if only_print != Filter::All && !enriched {
                w.push(Warning::FilterWithoutEnrich);
            }
            let fatal = w.len() > 0 && panic_on_oops;
            proof {
                assert(w@ =~= warnings_for(f@, n_targets as nat, attach, only_print, enriched));
            }
            Sanity { warnings: w, fatal }
        },
    }
}

} // verus!
