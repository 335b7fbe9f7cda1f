use vstd::prelude::*;

verus! {

/// Whether the command line picked targets itself or left the choice open.
#[derive(Clone, Copy, Debug, PartialEq, Eq, Structural)]
pub enum Selection {
    /// No target-selecting option was given.
    Implicit,
    /// At least one target-selecting option was given.
    Explicit,
}

/// What the build is for.
#[derive(Clone, Copy, Debug, PartialEq, Eq, Structural)]
pub enum CompileMode {
    Test,
    Doctest,
}

/// Which targets the build service is asked for.
#[derive(Clone, Copy, Debug, PartialEq, Eq, Structural)]
pub enum TargetFilter {
    /// The selection of the command line, as it stands.
    AsRequested,
    /// The library alone, for its documentation tests.
    LibraryDocs,
    /// The library if there is one, every binary and every integration test,
    /// no example and no benchmark: what a test name filter can apply to.
    FilterableTargets,
}

/// The part of the build options that test planning decides.
#[derive(Clone, Copy, Debug, PartialEq, Eq, Structural)]
pub struct CompileOptions {
    pub mode: CompileMode,
    pub filter: TargetFilter,
}

/// What a test run was asked to do.
#[derive(Clone, Copy, Debug, PartialEq, Eq, Structural)]
pub struct TestOptions {
    pub compile_opts: CompileOptions,
    pub no_run: bool,
    pub no_fail_fast: bool,
}

/// The flags of the command line that planning reads.
#[derive(Clone, Copy, Debug, PartialEq, Eq, Structural)]
pub struct TestRequest {
    /// A test name filter was given.
    pub test_name_given: bool,
    /// Only documentation tests are wanted.
    pub doc: bool,
    pub no_run: bool,
    pub no_fail_fast: bool,
    pub selection: Selection,
}

/// A request whose flags contradict each other.
#[derive(Clone, Copy, Debug, PartialEq, Eq, Structural)]
pub enum ConfigError {
    /// Documentation tests were asked for together with a target selection.
    DocWithTargetSelection,
    /// Documentation tests were asked for together with skipping the run.
    DocWithNoRun,
}

/// Exit code of every failure that is not the exit code of a test process.
pub const GENERIC_FAILURE: i32 = 101;

/// The options a request stands for, or the conflict in it. A conflicting
/// target selection is reported before a conflicting skip of the run.
pub open spec fn planned(request: TestRequest) -> Result<TestOptions, ConfigError> {
    if request.doc && request.selection == Selection::Explicit {
        Err(ConfigError::DocWithTargetSelection)
    } else if request.doc && request.no_run {
        Err(ConfigError::DocWithNoRun)
    } else {
        Ok(
            TestOptions {
                compile_opts: CompileOptions {
                    mode: if request.doc {
                        CompileMode::Doctest
                    } else {
                        CompileMode::Test
                    },
                    filter: if request.doc {
                        TargetFilter::LibraryDocs
                    } else if request.test_name_given && request.selection == Selection::Implicit {
                        TargetFilter::FilterableTargets
                    } else {
                        TargetFilter::AsRequested
                    },
                },
                no_run: request.no_run,
                no_fail_fast: request.no_fail_fast,
            },
        )
    }
}

/// Checks a request before anything is built or run, and settles what to build.
pub fn plan(request: &TestRequest) -> (r: Result<TestOptions, ConfigError>)
    ensures
        r == planned(*request),
{
    let mut mode = CompileMode::Test;
    let mut filter = TargetFilter::AsRequested;
    if request.doc {
        if request.selection == Selection::Explicit {
            return Err(ConfigError::DocWithTargetSelection);
        }
        if request.no_run {
            return Err(ConfigError::DocWithNoRun);
        }
        mode = CompileMode::Doctest;
        filter = TargetFilter::LibraryDocs;
    } else if request.test_name_given {
        if request.selection == Selection::Implicit {
            filter = TargetFilter::FilterableTargets;
        }
    }
    Ok(
        TestOptions {
            compile_opts: CompileOptions { mode, filter },
            no_run: request.no_run,
            no_fail_fast: request.no_fail_fast,
        },
    )
}

/// A plan never both asks for documentation tests and skips the run, and it
/// asks for documentation tests of the library alone.
pub proof fn lemma_plan_is_consistent(request: TestRequest)
    ensures
        planned(request) matches Ok(options) ==> {
            &&& options.compile_opts.mode == CompileMode::Doctest <==> request.doc
            &&& options.compile_opts.mode == CompileMode::Doctest ==> !options.no_run
                && options.compile_opts.filter == TargetFilter::LibraryDocs
            &&& options.no_run == request.no_run
            &&& options.no_fail_fast == request.no_fail_fast
        },
        planned(request) is Err <==> request.doc && (request.selection == Selection::Explicit
            || request.no_run),
{
}

impl ConfigError {
    pub open spec fn message_text(self) -> Seq<char> {
        match self {
            ConfigError::DocWithTargetSelection =>
                "Can't mix --doc with other target selecting options"@,
            ConfigError::DocWithNoRun => "Can't skip running doc tests with --no-run"@,
        }
    }

    /// What to tell the user.
    pub fn message(&self) -> (text: &'static str)
        ensures
            text@ == self.message_text(),
    {
        match self {
            ConfigError::DocWithTargetSelection =>
                "Can't mix --doc with other target selecting options",
            ConfigError::DocWithNoRun => "Can't skip running doc tests with --no-run",
        }
    }

    /// The exit code of the tool for this error.
    pub fn exit_code(&self) -> (code: i32)
        ensures
            code == GENERIC_FAILURE,
    {
        GENERIC_FAILURE
    }
}

} // verus!
