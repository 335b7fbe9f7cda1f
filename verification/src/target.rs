use crate::text::{
    lemma_text_lt_irreflexive, lemma_text_lt_total, lemma_text_lt_transitive, text_before, text_lt,
};
use vstd::prelude::*;

verus! {

/// What a compiled test executable was built from. The declaration order is
/// the order in which kinds are run within one package.
#[derive(Clone, Copy, Debug, PartialEq, Eq, Structural)]
pub enum TargetKind {
    Lib,
    Bin,
    Test,
    Example,
    Bench,
    Doctest,
}

impl TargetKind {
    /// Position of the kind in the declaration order.
    pub open spec fn ordinal(self) -> nat {
        match self {
            TargetKind::Lib => 0,
            TargetKind::Bin => 1,
            TargetKind::Test => 2,
            TargetKind::Example => 3,
            TargetKind::Bench => 4,
            TargetKind::Doctest => 5,
        }
    }

    pub fn rank(&self) -> (r: u8)
        ensures
            r == self.ordinal(),
    {
        match self {
            TargetKind::Lib => 0,
            TargetKind::Bin => 1,
            TargetKind::Test => 2,
            TargetKind::Example => 3,
            TargetKind::Bench => 4,
            TargetKind::Doctest => 5,
        }
    }
}

/// Two kinds with the same position are the same kind.
pub proof fn lemma_ordinal_injective(a: TargetKind, b: TargetKind)
    requires
        a.ordinal() == b.ordinal(),
    ensures
        a == b,
{
}

/// The triple that names a target within one run.
#[derive(Clone, Debug, PartialEq, Eq)]
pub struct TargetId {
    pub package_name: String,
    pub target_kind: TargetKind,
    pub target_name: String,
}

/// Mathematical value of a `TargetId`.
pub struct TargetIdView {
    pub package_name: Seq<char>,
    pub target_kind: TargetKind,
    pub target_name: Seq<char>,
}

impl View for TargetId {
    type V = TargetIdView;

    open spec fn view(&self) -> TargetIdView {
        TargetIdView {
            package_name: self.package_name@,
            target_kind: self.target_kind,
            target_name: self.target_name@,
        }
    }
}

impl DeepView for TargetId {
    type V = TargetIdView;

    open spec fn deep_view(&self) -> TargetIdView {
        self@
    }
}

/// One compiled test executable.
#[derive(Clone, Debug, PartialEq, Eq)]
pub struct TestTarget {
    pub package_name: String,
    pub target_kind: TargetKind,
    pub target_name: String,
    /// Where the executable lies; empty for documentation tests.
    pub executable_path: String,
    /// Whether the executable is driven by the built-in harness, which is the
    /// one that understands `--quiet`.
    pub harness: bool,
}

/// Mathematical value of a `TestTarget`.
pub struct TestTargetView {
    pub package_name: Seq<char>,
    pub target_kind: TargetKind,
    pub target_name: Seq<char>,
    pub executable_path: Seq<char>,
    pub harness: bool,
}

impl TestTargetView {
    pub open spec fn identity(self) -> TargetIdView {
        TargetIdView {
            package_name: self.package_name,
            target_kind: self.target_kind,
            target_name: self.target_name,
        }
    }
}

impl View for TestTarget {
    type V = TestTargetView;

    open spec fn view(&self) -> TestTargetView {
        TestTargetView {
            package_name: self.package_name@,
            target_kind: self.target_kind,
            target_name: self.target_name@,
            executable_path: self.executable_path@,
            harness: self.harness,
        }
    }
}

impl DeepView for TestTarget {
    type V = TestTargetView;

    open spec fn deep_view(&self) -> TestTargetView {
        self@
    }
}

/// Strict order of the sort key: package name, then kind, then target name.
pub open spec fn key_lt(a: TargetIdView, b: TargetIdView) -> bool {
    if a.package_name != b.package_name {
        text_lt(a.package_name, b.package_name)
    } else if a.target_kind != b.target_kind {
        a.target_kind.ordinal() < b.target_kind.ordinal()
    } else {
        text_lt(a.target_name, b.target_name)
    }
}

pub proof fn lemma_key_lt_irreflexive(a: TargetIdView)
    ensures
        !key_lt(a, a),
{
    lemma_text_lt_irreflexive(a.target_name);
}

pub proof fn lemma_key_lt_transitive(a: TargetIdView, b: TargetIdView, c: TargetIdView)
    requires
        key_lt(a, b),
        key_lt(b, c),
    ensures
        key_lt(a, c),
{
    if a.package_name != b.package_name && b.package_name != c.package_name {
        lemma_text_lt_transitive(a.package_name, b.package_name, c.package_name);
        lemma_text_lt_irreflexive(a.package_name);
    } else if a.package_name == b.package_name && b.package_name == c.package_name {
        if a.target_kind == b.target_kind && b.target_kind == c.target_kind {
            lemma_text_lt_transitive(a.target_name, b.target_name, c.target_name);
        }
    }
}

/// Two different keys are ordered one way or the other.
pub proof fn lemma_key_lt_total(a: TargetIdView, b: TargetIdView)
    requires
        a != b,
    ensures
        key_lt(a, b) || key_lt(b, a),
{
    if a.package_name != b.package_name {
        lemma_text_lt_total(a.package_name, b.package_name);
    } else if a.target_kind != b.target_kind {
        if a.target_kind.ordinal() == b.target_kind.ordinal() {
            lemma_ordinal_injective(a.target_kind, b.target_kind);
        }
    } else {
        lemma_text_lt_total(a.target_name, b.target_name);
    }
}

/// A key that does not come before a second one, which does not come before
/// a third, does not come before the third either.
pub proof fn lemma_key_order_chains(a: TargetIdView, b: TargetIdView, c: TargetIdView)
    requires
        !key_lt(b, a),
        !key_lt(c, b),
    ensures
        !key_lt(c, a),
{
    if key_lt(c, a) {
        if a == b {
        } else {
            lemma_key_lt_total(a, b);
            lemma_key_lt_transitive(c, a, b);
        }
    }
}

impl TestTarget {
    /// The triple that names this target.
    pub fn identity(&self) -> (id: TargetId)
        ensures
            id@ == self@.identity(),
    {
        TargetId {
            package_name: self.package_name.clone(),
            target_kind: self.target_kind,
            target_name: self.target_name.clone(),
        }
    }

    /// Whether this target runs strictly before `other`.
    pub fn precedes(&self, other: &TestTarget) -> (r: bool)
        ensures
            r == key_lt(self@.identity(), other@.identity()),
    {
        if self.package_name != other.package_name {
            text_before(self.package_name.as_str(), other.package_name.as_str())
        } else if self.target_kind != other.target_kind {
            self.target_kind.rank() < other.target_kind.rank()
        } else {
            text_before(self.target_name.as_str(), other.target_name.as_str())
        }
    }
}

/// Whether every target of the list has an identity of its own.
pub open spec fn distinct_identities(targets: Seq<TestTargetView>) -> bool {
    forall|i: int, j: int|
        0 <= i < j < targets.len() ==> (#[trigger] targets[i]).identity() != (
        #[trigger] targets[j]).identity()
}

/// Checks that no two targets of the list have the same identity.
pub fn has_distinct_identities(targets: &Vec<TestTarget>) -> (r: bool)
    ensures
        r == distinct_identities(targets.deep_view()),
{
    let ghost views = targets.deep_view();
    let n = targets.len();
    let mut j: usize = 0;
    while j < n
        invariant
            j <= n,
            n == targets.len(),
            views == targets.deep_view(),
            forall|a: int, b: int|
                0 <= a < b < j ==> (#[trigger] views[a]).identity() != (
                #[trigger] views[b]).identity(),
        decreases n - j,
    {
        let id = targets[j].identity();
        let mut i: usize = 0;
        while i < j
            invariant
                i <= j < n,
                n == targets.len(),
                views == targets.deep_view(),
                id@ == views[j as int].identity(),
                forall|a: int| 0 <= a < i ==> (#[trigger] views[a]).identity() != id@,
            decreases j - i,
        {
            if targets[i].identity().same(&id) {
                assert(views[i as int].identity() == views[j as int].identity());
                return false;
            }
            i += 1;
        }
        j += 1;
    }
    true
}

impl TargetId {
    /// Whether both name the same target.
    pub fn same(&self, other: &TargetId) -> (r: bool)
        ensures
            r == (self@ == other@),
    {
        self.package_name == other.package_name && self.target_kind == other.target_kind
            && self.target_name == other.target_name
    }
}

} // verus!
