//! Choice of a parallelism strategy for test generation, from workload
//! size and the machine's CPU count.

use vstd::prelude::*;
use crate::types::test_case::TestCategory;

verus! {

/// How test generation is spread over threads.
#[derive(Debug, Clone, Copy, PartialEq, Eq, Structural)]
pub enum ParallelStrategy {
    /// Single-threaded: small workloads, or a single category.
    Sequential,
    /// One task per category: medium workloads.
    CategoryLevel,
    /// Parallel within categories too: large workloads on several cores.
    TestLevel,
}

/// Relies on num_cpus::get: the number of logical CPUs of this machine,
/// documented to be at least 1.
#[verifier::external_body]
fn cpu_count() -> (n: usize)
    ensures
        n >= 1,
{
    num_cpus::get()
}

/// The estimated tests per category: twice the complexity score spread
/// over the categories, clamped to the range 5 to 50; zero categories
/// estimate zero.
pub open spec fn spec_estimate(
    num_global_options: int,
    num_subcommands: int,
    num_categories: int,
) -> int {
    if num_categories == 0 {
        0
    } else {
        let score = num_global_options + num_subcommands;
        let positive_score = if score >= 1 {
            score
        } else {
            1
        };
        let avg = positive_score * 2 / num_categories;
        if avg < 5 {
            5
        } else if avg > 50 {
            50
        } else {
            avg
        }
    }
}

/// Estimates how many tests one category will produce, from the numbers
/// of global options and subcommands.
pub fn estimate_tests_per_category(
    num_global_options: usize,
    num_subcommands: usize,
    num_categories: usize,
) -> (r: usize)
    requires
        num_global_options + num_subcommands <= usize::MAX / 2,
    ensures
        r == spec_estimate(num_global_options as int, num_subcommands as int, num_categories as int),
        r <= 50,
{
    if num_categories == 0 {
        return 0;
    }
    let score = num_global_options + num_subcommands;
    let positive_score = if score >= 1 {
        score
    } else {
        1
    };
    let avg = positive_score * 2 / num_categories;
    if avg < 5 {
        5
    } else if avg > 50 {
        50
    } else {
        avg
    }
}

/// Workload description used to pick a strategy.
#[derive(Debug, Clone, Copy, PartialEq, Eq, Structural)]
pub struct Workload {
    /// Number of categories to generate.
    pub num_categories: usize,
    /// Estimated tests per category.
    pub estimated_tests_per_category: usize,
    /// CPUs available on this machine.
    pub num_cpus: usize,
}

impl Workload {
    /// Describes the workload for the given categories and analysis
    /// numbers, reading this machine's CPU count.
    pub fn new(
        categories: &Vec<TestCategory>,
        num_global_options: usize,
        num_subcommands: usize,
    ) -> (r: Self)
        requires
            num_global_options + num_subcommands <= usize::MAX / 2,
        ensures
            r.num_categories == categories@.len(),
            r.estimated_tests_per_category == spec_estimate(
                num_global_options as int,
                num_subcommands as int,
                categories@.len() as int,
            ),
            r.num_cpus >= 1,
    {
        let num_categories = categories.len();
        let estimated_tests_per_category = estimate_tests_per_category(
            num_global_options,
            num_subcommands,
            num_categories,
        );
        let num_cpus = cpu_count();
        Workload { num_categories, estimated_tests_per_category, num_cpus }
    }

    /// Total estimate over all categories.
    pub fn total_estimated_tests(&self) -> (r: usize)
        requires
            self.num_categories * self.estimated_tests_per_category <= usize::MAX,
        ensures
            r == self.num_categories * self.estimated_tests_per_category,
    {
        self.num_categories * self.estimated_tests_per_category
    }
}

/// The strategy chosen for a workload: sequential below 20 estimated
/// tests or with at most one category; category-level below 100 tests or
/// with fewer than 4 CPUs; test-level otherwise.
pub open spec fn spec_choose_strategy(w: Workload) -> ParallelStrategy {
    let total = w.num_categories * w.estimated_tests_per_category;
    if total < 20 || w.num_categories <= 1 {
        ParallelStrategy::Sequential
    } else if total < 100 || w.num_cpus < 4 {
        ParallelStrategy::CategoryLevel
    } else {
        ParallelStrategy::TestLevel
    }
}

/// Picks the parallelism strategy for a workload.
pub fn choose_strategy(workload: &Workload) -> (r: ParallelStrategy)
    requires
        workload.num_categories * workload.estimated_tests_per_category <= usize::MAX,
    ensures
        r == spec_choose_strategy(*workload),
{
    let total_tests = workload.total_estimated_tests();
    if total_tests < 20 || workload.num_categories <= 1 {
        return ParallelStrategy::Sequential;
    }
    if total_tests < 100 || workload.num_cpus < 4 {
        return ParallelStrategy::CategoryLevel;
    }
    ParallelStrategy::TestLevel
}

} // verus!
