use material_deploy::batch::{decide, first_failure, overall, BatchPolicy, Decision, TargetStatus};
use material_deploy::engine::{DeployError, Strategy};

fn strings(items: &[&str]) -> Vec<String> {
    items.iter().map(|s| s.to_string()).collect()
}

fn failed(path: &str) -> TargetStatus {
    TargetStatus::Failed { error: DeployError::SourceMaterialMissing { path: path.to_string() } }
}

fn installed() -> TargetStatus {
    TargetStatus::Installed { strategy: Strategy::DirectCopy }
}

#[test]
fn known_selection_is_deployed_and_unknown_is_skipped() {
    let known = strings(&["C:\\a", "C:\\b"]);
    for policy in [BatchPolicy::StopAtFirstFailure, BatchPolicy::ContinueAfterFailure] {
        assert_eq!(decide(policy, &known, &"C:\\b".to_string(), &vec![]), Decision::Deploy);
        assert_eq!(decide(policy, &known, &"C:\\c".to_string(), &vec![]), Decision::SkipUnknown);
        assert_eq!(decide(policy, &known, &"c:\\a".to_string(), &vec![installed()]), Decision::SkipUnknown);
        assert_eq!(decide(policy, &vec![], &"".to_string(), &vec![TargetStatus::Skipped]), Decision::SkipUnknown);
    }
}

#[test]
fn stop_policy_halts_after_a_failure() {
    let known = strings(&["C:\\a", "C:\\b"]);
    let results = vec![installed(), failed("x")];
    assert_eq!(decide(BatchPolicy::StopAtFirstFailure, &known, &"C:\\b".to_string(), &results), Decision::Halt);
    assert_eq!(decide(BatchPolicy::StopAtFirstFailure, &known, &"C:\\zz".to_string(), &results), Decision::Halt);
}

#[test]
fn continue_policy_attempts_every_target() {
    let known = strings(&["C:\\a", "C:\\b"]);
    let results = vec![failed("x"), failed("y")];
    assert_eq!(decide(BatchPolicy::ContinueAfterFailure, &known, &"C:\\b".to_string(), &results), Decision::Deploy);
    assert_eq!(decide(BatchPolicy::ContinueAfterFailure, &known, &"C:\\zz".to_string(), &results), Decision::SkipUnknown);
}

#[test]
fn overall_reports_the_first_failure() {
    assert_eq!(overall(&vec![]), Ok(()));
    assert_eq!(overall(&vec![installed(), TargetStatus::Skipped, TargetStatus::NotAttempted]), Ok(()));
    assert_eq!(overall(&vec![installed(), failed("x"), installed(), failed("y")]), Err(1));
    assert_eq!(first_failure(&vec![failed("x")]), Some(0));
    assert_eq!(first_failure(&vec![TargetStatus::Skipped, installed()]), None);
}

#[test]
fn a_whole_batch_under_each_policy() {
    let known = strings(&["a", "b", "c"]);
    let selected = strings(&["a", "nope", "b", "c"]);
    let fails = |name: &str| name == "b";
    for (policy, want) in [
        (BatchPolicy::StopAtFirstFailure, vec!["ok", "skip", "fail", "halt"]),
        (BatchPolicy::ContinueAfterFailure, vec!["ok", "skip", "fail", "ok"]),
    ] {
        let mut results: Vec<TargetStatus> = Vec::new();
        let mut seen: Vec<&str> = Vec::new();
        for name in &selected {
            match decide(policy, &known, name, &results) {
                Decision::Deploy => {
                    if fails(name) {
                        results.push(failed(name));
                        seen.push("fail");
                    } else {
                        results.push(installed());
                        seen.push("ok");
                    }
                }
                Decision::SkipUnknown => {
                    results.push(TargetStatus::Skipped);
                    seen.push("skip");
                }
                Decision::Halt => {
                    results.push(TargetStatus::NotAttempted);
                    seen.push("halt");
                }
            }
        }
        assert_eq!(seen, want);
        assert_eq!(overall(&results), Err(2));
    }
}
