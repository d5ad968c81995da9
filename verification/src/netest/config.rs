//! Test and suite configurations.

use vstd::prelude::*;
use crate::netest::models::NetworkScenario;

verus! {

/// One network test.
#[derive(Debug, Clone)]
pub struct TestConfig {
    pub name: String,
    pub description: String,
    pub scenario: NetworkScenario,
    pub duration_ms: u64,
    pub message_count: u64,
    pub message_size: usize,
    pub concurrency: usize,
}

impl Default for TestConfig {
    /// A minute of a thousand 1 KiB messages on home broadband, one at a time.
    fn default() -> (c: TestConfig)
        ensures
            c.name@ == "Default Test"@,
            c.description@ == "Default network test configuration"@,
            c.scenario == NetworkScenario::HomeBroadband,
            c.duration_ms == 60000,
            c.message_count == 1000,
            c.message_size == 1024,
            c.concurrency == 1,
    {
        TestConfig {
            name: String::from_str("Default Test"),
            description: String::from_str("Default network test configuration"),
            scenario: NetworkScenario::HomeBroadband,
            duration_ms: 60000,
            message_count: 1000,
            message_size: 1024,
            concurrency: 1,
        }
    }
}

/// A list of tests and how to report them.
#[derive(Debug, Clone)]
pub struct TestSuite {
    pub tests: Vec<TestConfig>,
    pub output_dir: Option<String>,
    pub generate_report: bool,
}

/// The parameters of a benchmark test: name, description, scenario,
/// duration, message count, size and concurrency.
pub open spec fn benchmark_row(i: int) -> (Seq<char>, Seq<char>, NetworkScenario, u64, u64, usize, usize) {
    if i == 0 {
        ("Perfect Network"@, "Test under perfect network conditions"@, NetworkScenario::Perfect, 30000, 10000, 1024, 10)
    } else if i == 1 {
        ("Home Broadband"@, "Test under typical home broadband conditions"@, NetworkScenario::HomeBroadband, 30000, 5000, 1024, 10)
    } else if i == 2 {
        ("Mobile 3G"@, "Test under 3G mobile network conditions"@, NetworkScenario::Mobile3G, 60000, 1000, 512, 5)
    } else if i == 3 {
        ("Mobile 4G"@, "Test under 4G mobile network conditions"@, NetworkScenario::Mobile4G, 30000, 3000, 1024, 10)
    } else if i == 4 {
        ("Mobile 5G"@, "Test under 5G mobile network conditions"@, NetworkScenario::Mobile5G, 30000, 8000, 1024, 15)
    } else if i == 5 {
        ("Satellite"@, "Test under satellite network conditions"@, NetworkScenario::Satellite, 60000, 500, 512, 5)
    } else {
        ("Rural Slow"@, "Test under slow rural network conditions"@, NetworkScenario::RuralSlow, 90000, 200, 256, 3)
    }
}

/// Whether `t` is the benchmark test of row `i`.
pub open spec fn is_benchmark_row(t: TestConfig, i: int) -> bool {
    let r = benchmark_row(i);
    &&& t.name@ == r.0
    &&& t.description@ == r.1
    &&& t.scenario == r.2
    &&& t.duration_ms == r.3
    &&& t.message_count == r.4
    &&& t.message_size == r.5
    &&& t.concurrency == r.6
}

impl TestSuite {
    /// An empty suite with no output directory and no report.
    pub fn new() -> (s: TestSuite)
        ensures
            s.tests@.len() == 0,
            s.output_dir is None,
            !s.generate_report,
    {
        TestSuite { tests: Vec::new(), output_dir: None, generate_report: false }
    }

    /// Appends a test.
    pub fn add_test(&mut self, test: TestConfig)
        ensures
            final(self).tests@ == old(self).tests@.push(test),
            final(self).output_dir == old(self).output_dir,
            final(self).generate_report == old(self).generate_report,
    {
        self.tests.push(test);
    }

    /// The benchmark suite: seven tests from a perfect network to a slow
    /// rural one.
    pub fn benchmark_suite() -> (s: TestSuite)
        ensures
            s.tests@.len() == 7,
            forall|i: int| 0 <= i < 7 ==> is_benchmark_row(#[trigger] s.tests@[i], i),
            s.output_dir is None,
            !s.generate_report,
    {
        let mut suite = Self::new();
        suite.add_test(TestConfig {
            name: String::from_str("Perfect Network"),
            description: String::from_str("Test under perfect network conditions"),
            scenario: NetworkScenario::Perfect,
            duration_ms: 30000,
            message_count: 10000,
            message_size: 1024,
            concurrency: 10,
        });
        suite.add_test(TestConfig {
            name: String::from_str("Home Broadband"),
            description: String::from_str("Test under typical home broadband conditions"),
            scenario: NetworkScenario::HomeBroadband,
            duration_ms: 30000,
            message_count: 5000,
            message_size: 1024,
            concurrency: 10,
        });
        suite.add_test(TestConfig {
            name: String::from_str("Mobile 3G"),
            description: String::from_str("Test under 3G mobile network conditions"),
            scenario: NetworkScenario::Mobile3G,
            duration_ms: 60000,
            message_count: 1000,
            message_size: 512,
            concurrency: 5,
        });
        suite.add_test(TestConfig {
            name: String::from_str("Mobile 4G"),
            description: String::from_str("Test under 4G mobile network conditions"),
            scenario: NetworkScenario::Mobile4G,
            duration_ms: 30000,
            message_count: 3000,
            message_size: 1024,
            concurrency: 10,
        });
        suite.add_test(TestConfig {
            name: String::from_str("Mobile 5G"),
            description: String::from_str("Test under 5G mobile network conditions"),
            scenario: NetworkScenario::Mobile5G,
            duration_ms: 30000,
            message_count: 8000,
            message_size: 1024,
            concurrency: 15,
        });
        suite.add_test(TestConfig {
            name: String::from_str("Satellite"),
            description: String::from_str("Test under satellite network conditions"),
            scenario: NetworkScenario::Satellite,
            duration_ms: 60000,
            message_count: 500,
            message_size: 512,
            concurrency: 5,
        });
        suite.add_test(TestConfig {
            name: String::from_str("Rural Slow"),
            description: String::from_str("Test under slow rural network conditions"),
            scenario: NetworkScenario::RuralSlow,
            duration_ms: 90000,
            message_count: 200,
            message_size: 256,
            concurrency: 3,
        });
        assert forall|i: int| 0 <= i < 7 implies is_benchmark_row(#[trigger] suite.tests@[i], i) by {}
        suite
    }
}

impl Default for TestSuite {
    /// An empty suite.
    fn default() -> (s: TestSuite)
        ensures
            s.tests@.len() == 0,
            s.output_dir is None,
            !s.generate_report,
    {
        Self::new()
    }
}

} // verus!
