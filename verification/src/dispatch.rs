//! Which workflow a test file is dispatched to, for the kind of test asked
//! for and the tests that the file defines.

use vstd::prelude::*;

verus! {

/// The kinds of test that can be dispatched to a workflow.
#[derive(Debug, Clone, Copy, PartialEq, Eq, Structural)]
pub enum TestType {
    Benchmark,
    Throughput,
    Load,
    HttpConsistency,
    /// Any other kind of test.
    Other,
}

/// Which tests a test file defines.
#[derive(Debug, Clone, Copy, PartialEq, Eq, Structural)]
pub struct DispatchTests {
    pub bench: bool,
    pub throughput: bool,
    pub load: bool,
    pub http_consistency: bool,
}

/// What to do with one test file.
#[derive(Debug, Clone, Copy, PartialEq, Eq, Structural)]
pub enum DispatchChoice {
    /// Send the file's benchmark arguments to the benchmark workflow.
    Bench,
    /// Send the file's throughput arguments to the benchmark workflow.
    Throughput,
    /// Send the file's load arguments to the load workflow.
    Load,
    /// Send the file's HTTP consistency test to its workflow.
    HttpConsistency,
    /// The file has no test of the kind asked for: go on with the next file.
    Skip,
    /// That kind of test cannot be dispatched: stop with an error.
    Unsupported,
}

/// The choice for a test file: its test of the kind asked for when it has
/// one; otherwise a benchmark, throughput or load file is skipped, and any
/// other kind is unsupported.
pub open spec fn dispatch_choice_spec(t: TestType, tests: DispatchTests) -> DispatchChoice {
    match t {
        TestType::Benchmark => if tests.bench {
            DispatchChoice::Bench
        } else {
            DispatchChoice::Skip
        },
        TestType::Throughput => if tests.throughput {
            DispatchChoice::Throughput
        } else {
            DispatchChoice::Skip
        },
        TestType::Load => if tests.load {
            DispatchChoice::Load
        } else {
            DispatchChoice::Skip
        },
        TestType::HttpConsistency => if tests.http_consistency {
            DispatchChoice::HttpConsistency
        } else {
            DispatchChoice::Unsupported
        },
        TestType::Other => DispatchChoice::Unsupported,
    }
}

/// Decides what happens to a test file.
pub fn dispatch_choice(t: TestType, tests: DispatchTests) -> (res: DispatchChoice)
    ensures
        res == dispatch_choice_spec(t, tests),
{
    match t {
        TestType::Benchmark => {
            if tests.bench {
                DispatchChoice::Bench
            } else {
                DispatchChoice::Skip
            }
        },
        TestType::Throughput => {
            if tests.throughput {
                DispatchChoice::Throughput
            } else {
                DispatchChoice::Skip
            }
        },
        TestType::Load => {
            if tests.load {
                DispatchChoice::Load
            } else {
                DispatchChoice::Skip
            }
        },
        TestType::HttpConsistency => {
            if tests.http_consistency {
                DispatchChoice::HttpConsistency
            } else {
                DispatchChoice::Unsupported
            }
        },
        TestType::Other => DispatchChoice::Unsupported,
    }
}

/// The files dispatched for a test type, in order, and whether dispatching
/// stopped at an unsupported file (and at which): files before it are
/// dispatched or skipped by their own choice.
pub open spec fn dispatch_run(t: TestType, files: Seq<DispatchTests>) -> (Seq<int>, Option<int>)
    decreases files.len(),
{
    if files.len() == 0 {
        (Seq::empty(), None)
    } else {
        let (sent, stop) = dispatch_run(t, files.drop_last());
        if stop is Some {
            (sent, stop)
        } else {
            match dispatch_choice_spec(t, files.last()) {
                DispatchChoice::Skip => (sent, None),
                DispatchChoice::Unsupported => (sent, Some(files.len() - 1)),
                _ => (sent.push(files.len() - 1), None),
            }
        }
    }
}

/// Plans the dispatch of test files: the indices of the files to send, in
/// order, and the index of the file at which dispatching stops with an
/// error, if any.
pub fn dispatch_plan(t: TestType, files: &Vec<DispatchTests>) -> (res: (Vec<usize>, Option<usize>))
    ensures
        res.0@.map_values(|i: usize| i as int) == dispatch_run(t, files@).0,
        match dispatch_run(t, files@).1 {
            Some(k) => res.1 == Some(k as usize),
            None => res.1 is None,
        },
{
    let mut sent: Vec<usize> = Vec::new();
    let mut i: usize = 0;
    while i < files.len()
        invariant
            i <= files.len(),
            dispatch_run(t, files@.take(i as int)).1 is None,
            sent@.map_values(|x: usize| x as int) == dispatch_run(t, files@.take(i as int)).0,
        decreases files.len() - i,
    {
        assert(files@.take(i + 1).drop_last() =~= files@.take(i as int));
        assert(files@.take(i + 1).last() == files@[i as int]);
        let c = dispatch_choice(t, files[i]);
        match c {
            DispatchChoice::Skip => {},
            DispatchChoice::Unsupported => {
                proof {
                    lemma_run_stops(t, files@, i + 1);
                }
                return (sent, Some(i));
            },
            _ => {
                let ghost prev = sent@;
                sent.push(i);
                assert(sent@.map_values(|x: usize| x as int) =~= prev.map_values(|x: usize| x as int).push(
                    i as int,
                ));
            },
        }
        i += 1;
    }
    assert(files@.take(files.len() as int) =~= files@);
    (sent, None)
}

/// Once dispatching stops, later files change nothing.
proof fn lemma_run_stops(t: TestType, files: Seq<DispatchTests>, k: int)
    requires
        1 <= k <= files.len(),
        dispatch_run(t, files.take(k)).1 is Some,
    ensures
        dispatch_run(t, files) == dispatch_run(t, files.take(k)),
    decreases files.len() - k,
{
    if k == files.len() {
        assert(files.take(k) =~= files);
    } else {
        assert(files.take(k + 1).drop_last() =~= files.take(k));
        lemma_run_stops(t, files, k + 1);
    }
}

/// Whether a test file defines a test of the kind asked for.
pub open spec fn defines_test(t: TestType, tests: DispatchTests) -> bool {
    match t {
        TestType::Benchmark => tests.bench,
        TestType::Throughput => tests.throughput,
        TestType::Load => tests.load,
        TestType::HttpConsistency => tests.http_consistency,
        TestType::Other => false,
    }
}

/// For a single file: a file with a test of the kind asked for is sent to
/// that kind's workflow; for benchmark, throughput and load tests a file
/// without one is skipped, never an error; an HTTP consistency file
/// without its test, and any file for another kind, stop dispatching.
pub proof fn lemma_dispatch_choice(t: TestType, tests: DispatchTests)
    ensures
        t == TestType::Benchmark ==> dispatch_choice_spec(t, tests) == (if tests.bench {
            DispatchChoice::Bench
        } else {
            DispatchChoice::Skip
        }),
        t == TestType::Throughput ==> dispatch_choice_spec(t, tests) == (if tests.throughput {
            DispatchChoice::Throughput
        } else {
            DispatchChoice::Skip
        }),
        t == TestType::Load ==> dispatch_choice_spec(t, tests) == (if tests.load {
            DispatchChoice::Load
        } else {
            DispatchChoice::Skip
        }),
        t == TestType::HttpConsistency ==> dispatch_choice_spec(t, tests) == (if tests.http_consistency {
            DispatchChoice::HttpConsistency
        } else {
            DispatchChoice::Unsupported
        }),
        t == TestType::Other ==> dispatch_choice_spec(t, tests) == DispatchChoice::Unsupported,
{
}

/// Dispatching benchmark, throughput or load tests never stops with an
/// error, and sends exactly the files that define a test of that kind, in
/// order.
pub proof fn lemma_dispatch_skips_files_without_the_test(t: TestType, files: Seq<DispatchTests>)
    requires
        t == TestType::Benchmark || t == TestType::Throughput || t == TestType::Load,
    ensures
        dispatch_run(t, files).1 is None,
        forall|k: int| 0 <= k < files.len() ==> (dispatch_run(t, files).0.contains(k) <==> defines_test(
            t,
            #[trigger] files[k],
        )),
        forall|a: int, b: int|
            0 <= a < b < dispatch_run(t, files).0.len() ==> dispatch_run(t, files).0[a] < dispatch_run(
                t,
                files,
            ).0[b],
        forall|a: int|
            0 <= a < dispatch_run(t, files).0.len() ==> 0 <= #[trigger] dispatch_run(t, files).0[a] < files.len(),
    decreases files.len(),
{
    if files.len() > 0 {
        let prev = files.drop_last();
        lemma_dispatch_skips_files_without_the_test(t, prev);
        let n = files.len() - 1;
        let sent = dispatch_run(t, prev).0;
        let now = dispatch_run(t, files).0;
        lemma_dispatch_choice(t, files.last());
        assert forall|k: int| 0 <= k < files.len() implies (now.contains(k) <==> defines_test(t, #[trigger] files[k])) by {
            if k < n {
                assert(prev[k] == files[k]);
                if defines_test(t, files.last()) {
                    assert(now == sent.push(n));
                    if now.contains(k) {
                        let x = choose|x: int| 0 <= x < now.len() && now[x] == k;
                        if x < sent.len() {
                            assert(sent[x] == k);
                        }
                    }
                    if sent.contains(k) {
                        let x = choose|x: int| 0 <= x < sent.len() && sent[x] == k;
                        assert(now[x] == k);
                    }
                } else {
                    assert(now == sent);
                }
            } else {
                if defines_test(t, files.last()) {
                    assert(now == sent.push(n));
                    assert(now[sent.len() as int] == n);
                } else {
                    assert(now == sent);
                    if now.contains(n) {
                        let x = choose|x: int| 0 <= x < now.len() && now[x] == n;
                        assert(sent[x] < prev.len());
                    }
                }
            }
        }
    }
}

/// Dispatching HTTP consistency tests, or any other kind, stops at the
/// first file that lacks such a test (for another kind, at the first file):
/// every file before it is sent.
pub proof fn lemma_dispatch_stops_at_unsupported(t: TestType, files: Seq<DispatchTests>)
    requires
        t == TestType::HttpConsistency || t == TestType::Other,
    ensures
        dispatch_run(t, files).1 is Some ==> {
            let k = dispatch_run(t, files).1.unwrap();
            &&& 0 <= k < files.len()
            &&& !defines_test(t, files[k])
            &&& forall|m: int| 0 <= m < k ==> defines_test(t, #[trigger] files[m])
            &&& dispatch_run(t, files).0 == Seq::new(k as nat, |m: int| m)
        },
        dispatch_run(t, files).1 is None ==> (forall|m: int| 0 <= m < files.len() ==> defines_test(t, #[trigger] files[m]))
            && dispatch_run(t, files).0 == Seq::new(files.len(), |m: int| m),
    decreases files.len(),
{
    if files.len() > 0 {
        let prev = files.drop_last();
        lemma_dispatch_stops_at_unsupported(t, prev);
        lemma_dispatch_choice(t, files.last());
        let n = files.len() - 1;
        assert forall|m: int| 0 <= m < n implies prev[m] == files[m] by {}
        if dispatch_run(t, prev).1 is None && defines_test(t, files.last()) {
            assert(dispatch_run(t, files).0 =~= Seq::new(files.len(), |m: int| m));
        }
    }
}

} // verus!
