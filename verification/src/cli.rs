//! Command-line options of the mutator and the filters they carry.
//!
//! The host's argument parser fills a plain copy of [`CLIOptions`] and hands
//! it over; everything the pipeline decides from the options is verified
//! here, including the list syntax of the module and function filters: a
//! filter is either the word `all` or a list of names cut at every `;`, `-`
//! or `,`.

use crate::paths::PathSteps;
use vstd::prelude::*;

verus! {

/// The characters that cut a filter argument into names.
pub open spec fn is_filter_separator(c: char) -> bool {
    c == ';' || c == '-' || c == ','
}

/// The names of a filter argument: the text cut at every separator, empty
/// pieces kept, so the names of `s` are never themselves empty of pieces.
pub open spec fn spec_split_names(s: Seq<char>) -> Seq<Seq<char>>
    decreases s.len(),
{
    if s.len() == 0 {
        seq![Seq::<char>::empty()]
    } else if is_filter_separator(s[0]) {
        seq![Seq::<char>::empty()] + spec_split_names(s.skip(1))
    } else {
        let rest = spec_split_names(s.skip(1));
        seq![seq![s[0]] + rest[0]] + rest.skip(1)
    }
}

/// The cut of a text always yields at least one name.
pub proof fn lemma_split_names_nonempty(s: Seq<char>)
    ensures
        spec_split_names(s).len() >= 1,
    decreases s.len(),
{
    if s.len() == 0 {
    } else {
        lemma_split_names_nonempty(s.skip(1));
    }
}

/// A text without separators is one single name.
proof fn lemma_split_no_separator(s: Seq<char>)
    requires
        forall|j: int| 0 <= j < s.len() ==> !is_filter_separator(s[j]),
    ensures
        spec_split_names(s) == seq![s],
    decreases s.len(),
{
    if s.len() == 0 {
        assert(Seq::<char>::empty() =~= s);
    } else {
        assert(forall|j: int| 0 <= j < s.skip(1).len() ==> !is_filter_separator(s.skip(1)[j]));
        lemma_split_no_separator(s.skip(1));
        let rest = spec_split_names(s.skip(1));
        assert(rest[0] == s.skip(1));
        assert(seq![s[0]] + s.skip(1) =~= s);
        assert(rest.skip(1) =~= Seq::<Seq<char>>::empty());
        assert(seq![seq![s[0]] + rest[0]] + rest.skip(1) =~= seq![s]);
    }
}

/// Cutting at the first separator: the piece before it is the first name,
/// and the rest of the text is cut on its own.
proof fn lemma_split_at_first_separator(s: Seq<char>, i: int)
    requires
        0 <= i < s.len(),
        is_filter_separator(s[i]),
        forall|j: int| 0 <= j < i ==> !is_filter_separator(s[j]),
    ensures
        spec_split_names(s) == seq![s.take(i)] + spec_split_names(s.skip(i + 1)),
    decreases i,
{
    if i == 0 {
        assert(s.take(0) =~= Seq::<char>::empty());
        assert(seq![Seq::<char>::empty()] + spec_split_names(s.skip(1)) =~= seq![s.take(0)]
            + spec_split_names(s.skip(1)));
    } else {
        assert(forall|j: int| 0 <= j < i - 1 ==> !is_filter_separator(s.skip(1)[j]));
        assert(s.skip(1)[i - 1] == s[i]);
        lemma_split_at_first_separator(s.skip(1), i - 1);
        let rest = spec_split_names(s.skip(1));
        assert(rest == seq![s.skip(1).take(i - 1)] + spec_split_names(s.skip(1).skip(i)));
        assert(rest[0] == s.skip(1).take(i - 1));
        assert(seq![s[0]] + s.skip(1).take(i - 1) =~= s.take(i));
        assert(rest.skip(1) =~= spec_split_names(s.skip(1).skip(i)));
        assert(s.skip(1).skip(i) =~= s.skip(i + 1));
        assert(seq![seq![s[0]] + rest[0]] + rest.skip(1) =~= seq![s.take(i)] + spec_split_names(
            s.skip(i + 1),
        ));
    }
}

fn is_separator_char(c: char) -> (r: bool)
    ensures
        r == is_filter_separator(c),
{
    c == ';' || c == '-' || c == ','
}

/// Cuts a filter argument into its names.
pub fn split_filter_names(s: &str) -> (r: Vec<String>)
    ensures
        r.deep_view() == spec_split_names(s@),
        r.deep_view().len() >= 1,
{
    let n = s.unicode_len();
    let mut segments: Vec<String> = Vec::new();
    let mut start: usize = 0;
    let mut i: usize = 0;
    proof {
        assert(s@.skip(0) =~= s@);
        assert(segments.deep_view() + spec_split_names(s@.skip(0)) =~= spec_split_names(s@));
    }
    while i < n
        invariant
            start <= i <= n,
            n == s@.len(),
            spec_split_names(s@) == segments.deep_view() + spec_split_names(s@.skip(start as int)),
            forall|j: int| start <= j < i ==> !is_filter_separator(s@[j]),
        decreases n - i,
    {
        let c = s.get_char(i);
        if is_separator_char(c) {
            let piece = s.substring_char(start, i).to_owned();
            let ghost pv = piece@;
            let ghost pre = segments.deep_view();
            segments.push(piece);
            proof {
                lemma_split_at_first_separator(s@.skip(start as int), (i - start) as int);
                assert(s@.skip(start as int).take((i - start) as int) =~= s@.subrange(
                    start as int,
                    i as int,
                ));
                assert(s@.skip(start as int).skip((i - start + 1) as int) =~= s@.skip((i + 1) as int));
                assert(segments.deep_view() =~= pre.push(pv));
                assert(pre.push(pv) + spec_split_names(s@.skip((i + 1) as int)) =~= pre + (seq![pv]
                    + spec_split_names(s@.skip((i + 1) as int))));
                assert(spec_split_names(s@) == segments.deep_view() + spec_split_names(
                    s@.skip((i + 1) as int),
                ));
            }
            start = i + 1;
        }
        i = i + 1;
    }
    let tail = s.substring_char(start, n).to_owned();
    let ghost tv = tail@;
    let ghost pre = segments.deep_view();
    segments.push(tail);
    proof {
        assert(forall|j: int|
            0 <= j < s@.skip(start as int).len() ==> !is_filter_separator(s@.skip(start as int)[j]));
        lemma_split_no_separator(s@.skip(start as int));
        assert(tv =~= s@.skip(start as int));
        assert(segments.deep_view() =~= pre.push(tv));
        assert(pre.push(tv) =~= pre + seq![s@.skip(start as int)]);
        assert(segments.deep_view() =~= spec_split_names(s@));
        lemma_split_names_nonempty(s@);
    }
    segments
}

/// Character-for-character equality of two texts.
pub fn str_eq_chars(a: &str, b: &str) -> (r: bool)
    ensures
        r == (a@ == b@),
{
    let na = a.unicode_len();
    let nb = b.unicode_len();
    if na != nb {
        return false;
    }
    let mut i: usize = 0;
    while i < na
        invariant
            i <= na,
            na == a@.len(),
            na == b@.len(),
            forall|j: int| 0 <= j < i ==> a@[j] == b@[j],
        decreases na - i,
    {
        if a.get_char(i) != b.get_char(i) {
            return false;
        }
        i = i + 1;
    }
    proof {
        assert(a@ =~= b@);
    }
    true
}

/// The word that selects every module or function.
pub open spec fn spec_select_all_word() -> Seq<char> {
    "all"@
}

/// Filter allowing to select modules to be mutated.
#[derive(Default, Debug, Clone, PartialEq, Eq)]
pub enum ModuleFilter {
    #[default]
    All,
    Selected(Vec<String>),
}

impl ModuleFilter {
    /// Reads a filter argument: the word `all`, or a separator-cut list of
    /// module names.
    pub fn parse(s: &str) -> (r: ModuleFilter)
        ensures
            s@ == spec_select_all_word() ==> r == ModuleFilter::All,
            s@ != spec_select_all_word() ==> match r {
                ModuleFilter::All => false,
                ModuleFilter::Selected(names) => names.deep_view() == spec_split_names(s@),
            },
    {
        if str_eq_chars(s, "all") {
            ModuleFilter::All
        } else {
            ModuleFilter::Selected(split_filter_names(s))
        }
    }
}

impl core::str::FromStr for ModuleFilter {
    type Err = String;

    fn from_str(s: &str) -> Result<Self, String> {
        Result::Ok(ModuleFilter::parse(s))
    }
}

/// Filter allowing to select functions to be mutated.
#[derive(Default, Debug, Clone, PartialEq, Eq)]
pub enum FunctionFilter {
    #[default]
    All,
    Selected(Vec<String>),
}

impl FunctionFilter {
    /// Reads a filter argument: the word `all`, or a separator-cut list of
    /// function names.
    pub fn parse(s: &str) -> (r: FunctionFilter)
        ensures
            s@ == spec_select_all_word() ==> r == FunctionFilter::All,
            s@ != spec_select_all_word() ==> match r {
                FunctionFilter::All => false,
                FunctionFilter::Selected(names) => names.deep_view() == spec_split_names(s@),
            },
    {
        if str_eq_chars(s, "all") {
            FunctionFilter::All
        } else {
            FunctionFilter::Selected(split_filter_names(s))
        }
    }
}

impl core::str::FromStr for FunctionFilter {
    type Err = String;

    fn from_str(s: &str) -> Result<Self, String> {
        Result::Ok(FunctionFilter::parse(s))
    }
}

/// What a conflicting pair of command-line arguments reports.
#[derive(Debug, Clone, PartialEq, Eq, Structural)]
pub enum CliError {
    ConflictingPathArguments,
}

/// The message of the conflict between an explicit source list and a
/// package path.
pub open spec fn spec_conflict_message() -> Seq<char> {
    "the '--move-sources <MOVE_SOURCES>' is not compatible with the '--package_path <PACKAGE_PATH>' argument"@
}

impl CliError {
    pub fn message(&self) -> (r: String)
        ensures
            r@ == spec_conflict_message(),
    {
        "the '--move-sources <MOVE_SOURCES>' is not compatible with the '--package_path <PACKAGE_PATH>' argument".to_owned()
    }
}

/// The directory the session falls back to when no package path is given.
pub open spec fn spec_current_dir_step() -> Seq<char> {
    "."@
}

/// The paths of a source list, each as its components.
pub open spec fn sources_model_of(v: Seq<PathSteps>) -> Seq<Seq<Seq<char>>> {
    v.map_values(|p: PathSteps| p@)
}

/// Checker for conflicts between a package path and an explicit source
/// list.
pub trait PackagePathCheck: Sized {
    /// The source list the check looks at.
    spec fn move_sources_model(&self) -> Seq<Seq<Seq<char>>>;

    /// Gets the paths to the sources to be mutated.
    fn get_move_sources(&self) -> (r: &Vec<PathSteps>)
        ensures
            sources_model_of(r@) == self.move_sources_model(),
    ;

    /// Returns the package path after checking for conflicts: an explicit
    /// source list excludes a package path; with neither given, the current
    /// directory stands in.
    fn resolve(&self, package_path: Option<PathSteps>) -> (r: Result<PathSteps, CliError>)
        ensures
            r is Err <==> (package_path is Some && self.move_sources_model().len() > 0),
            match r {
                Result::Ok(p) => match package_path {
                    Option::Some(q) => p@ == q@,
                    Option::None => p@ == seq![spec_current_dir_step()],
                },
                Result::Err(e) => e == CliError::ConflictingPathArguments,
            },
    {
        match package_path {
            Option::Some(path) => {
                if self.get_move_sources().len() > 0 {
                    Result::Err(CliError::ConflictingPathArguments)
                } else {
                    Result::Ok(path)
                }
            },
            Option::None => {
                let mut steps: Vec<String> = Vec::new();
                steps.push(".".to_owned());
                let fallback = PathSteps::from_steps(steps);
                proof {
                    assert(fallback@ =~= seq![spec_current_dir_step()]);
                }
                Result::Ok(fallback)
            },
        }
    }
}

/// Command line options for the mutator.
#[derive(Debug)]
pub struct CLIOptions {
    /// The paths to the sources to be mutated.
    pub move_sources: Vec<PathSteps>,
    /// Module names to be mutated.
    pub mutate_modules: ModuleFilter,
    /// Function names to be mutated.
    pub mutate_functions: FunctionFilter,
    /// The path where to put the output files.
    pub out_mutant_dir: Option<PathSteps>,
    /// Whether mutants are verified in a sandbox build before they count.
    pub verify_mutants: bool,
    /// Whether existing output files are kept.
    pub no_overwrite: bool,
    /// Name of the filter to use for downsampling.
    pub downsample_filter: Option<String>,
    /// Remove on average the given percentage of mutants.
    pub downsampling_ratio_percentage: Option<usize>,
    /// Optional configuration file overriding the defaults.
    pub configuration_file: Option<PathSteps>,
    /// Whether mutants are limited to code with unit-test coverage.
    pub apply_coverage: bool,
}

impl PackagePathCheck for CLIOptions {
    open spec fn move_sources_model(&self) -> Seq<Seq<Seq<char>>> {
        sources_model_of(self.move_sources@)
    }

    fn get_move_sources(&self) -> (r: &Vec<PathSteps>) {
        &self.move_sources
    }
}

/// The directory mutants are written to when none is chosen.
pub open spec fn spec_default_output_dir() -> Seq<char> {
    "mutants_output"@
}

/// The default options: everything off, every filter wide open, and the
/// output directory set to its well-known default.
impl Default for CLIOptions {
    fn default() -> (r: Self)
        ensures
            r.move_sources@.len() == 0,
            r.mutate_modules == ModuleFilter::All,
            r.mutate_functions == FunctionFilter::All,
            match r.out_mutant_dir {
                Option::Some(d) => d@ == seq![spec_default_output_dir()],
                Option::None => false,
            },
            !r.verify_mutants,
            !r.no_overwrite,
            !r.apply_coverage,
            r.downsample_filter is None,
            r.downsampling_ratio_percentage is None,
            r.configuration_file is None,
    {
        let mut out_steps: Vec<String> = Vec::new();
        out_steps.push("mutants_output".to_owned());
        let out_dir = PathSteps::from_steps(out_steps);
        proof {
            assert(out_dir@ =~= seq![spec_default_output_dir()]);
        }
        CLIOptions {
            move_sources: Vec::new(),
            mutate_modules: ModuleFilter::All,
            mutate_functions: FunctionFilter::All,
            out_mutant_dir: Option::Some(out_dir),
            verify_mutants: false,
            no_overwrite: false,
            downsample_filter: Option::None,
            downsampling_ratio_percentage: Option::None,
            configuration_file: Option::None,
            apply_coverage: false,
        }
    }
}

} // verus!
