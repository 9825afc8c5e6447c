use spiceai::dispatch::{dispatch_choice, dispatch_plan, DispatchChoice, DispatchTests, TestType};

fn tests(bench: bool, throughput: bool, load: bool, http: bool) -> DispatchTests {
    DispatchTests { bench, throughput, load, http_consistency: http }
}

#[test]
fn choices() {
    assert_eq!(dispatch_choice(TestType::Benchmark, tests(true, false, false, false)), DispatchChoice::Bench);
    assert_eq!(dispatch_choice(TestType::Benchmark, tests(false, true, true, true)), DispatchChoice::Skip);
    assert_eq!(dispatch_choice(TestType::Throughput, tests(false, true, false, false)), DispatchChoice::Throughput);
    assert_eq!(dispatch_choice(TestType::Load, tests(false, false, false, false)), DispatchChoice::Skip);
    assert_eq!(dispatch_choice(TestType::Load, tests(false, false, true, false)), DispatchChoice::Load);
    assert_eq!(
        dispatch_choice(TestType::HttpConsistency, tests(false, false, false, true)),
        DispatchChoice::HttpConsistency
    );
    assert_eq!(
        dispatch_choice(TestType::HttpConsistency, tests(true, true, true, false)),
        DispatchChoice::Unsupported
    );
    assert_eq!(dispatch_choice(TestType::Other, tests(true, true, true, true)), DispatchChoice::Unsupported);
}

#[test]
fn plan_sends_in_order_and_stops_at_unsupported() {
    let files = vec![tests(true, false, false, false), tests(false, false, false, false), tests(true, false, false, false)];
    assert_eq!(dispatch_plan(TestType::Benchmark, &files), (vec![0, 2], None));
    let files = vec![tests(false, false, false, true), tests(false, false, false, false), tests(false, false, false, true)];
    assert_eq!(dispatch_plan(TestType::HttpConsistency, &files), (vec![0], Some(1)));
}
