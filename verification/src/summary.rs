//! Counting test outcomes.
use vstd::prelude::*;

verus! {

/// How many tests passed and how many failed.
#[derive(Debug, Clone, Copy, PartialEq, Eq, Default)]
pub struct TestSummary {
    pub passed: usize,
    pub failed: usize,
}

/// The number of `true` outcomes in `rs`.
pub open spec fn count_passed(rs: Seq<bool>) -> nat
    decreases rs.len(),
{
    if rs.len() == 0 {
        0
    } else {
        count_passed(rs.drop_last()) + if rs.last() { 1nat } else { 0nat }
    }
}

/// The outcomes of the tests of one file, in the order they ran.
#[derive(Debug, Clone)]
pub struct FileTestSummary {
    pub file_path: String,
    pub results: Vec<bool>,
}

impl FileTestSummary {
    /// No outcomes yet for the file at `file_path`.
    pub fn new(file_path: String) -> (r: Self)
        ensures
            r.file_path == file_path,
            r.results@ == Seq::<bool>::empty(),
    {
        FileTestSummary { file_path, results: Vec::new() }
    }

    /// Records one more outcome.
    pub fn add_result(&mut self, passed: bool)
        ensures
            final(self).file_path == old(self).file_path,
            final(self).results@ == old(self).results@.push(passed),
    {
        self.results.push(passed);
    }

    /// How many of the recorded tests passed and how many failed.
    pub fn summary(&self) -> (r: TestSummary)
        ensures
            r.passed == count_passed(self.results@),
            r.passed + r.failed == self.results@.len(),
    {
        let mut passed: usize = 0;
        let mut i: usize = 0;
        while i < self.results.len()
            invariant
                i <= self.results@.len(),
                passed == count_passed(self.results@.take(i as int)),
                passed <= i,
            decreases self.results@.len() - i,
        {
            assert(self.results@.take(i + 1).drop_last() =~= self.results@.take(i as int));
            if self.results[i] {
                passed = passed + 1;
            }
            i = i + 1;
        }
        assert(self.results@.take(i as int) =~= self.results@);
        TestSummary { passed, failed: self.results.len() - passed }
    }
}

} // verus!
