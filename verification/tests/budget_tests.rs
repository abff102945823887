use otask::chat::{over_budget_answer, plan_calls, PlanCall, ToolRun};
use otask::exa::rate_limit_wait;
use otask::highlight::spans_of;

fn run(name: &str) -> ToolRun {
    ToolRun { call_id: "c".to_string(), name: name.to_string(), arguments: "{}".to_string() }
}

#[test]
fn plan_mode_makes_at_most_three_searches() {
    let runs = vec![run("web_search"), run("other"), run("web_search")];
    let (calls, done) = plan_calls(&runs, 0);
    assert!(calls == vec![PlanCall::Search, PlanCall::Ignore, PlanCall::Search]);
    assert_eq!(done, 2);
    let (calls, done) = plan_calls(&runs, done);
    assert!(calls == vec![PlanCall::Search, PlanCall::Ignore, PlanCall::OverBudget]);
    assert_eq!(done, 3);
    let (calls, done) = plan_calls(&vec![run("web_search")], done);
    assert!(calls == vec![PlanCall::OverBudget]);
    assert_eq!(done, 3);
    assert_eq!(over_budget_answer(), "Search skipped: at most 3 searches per response.");
}

#[test]
fn searches_are_spaced() {
    assert_eq!(rate_limit_wait(0), 120_000);
    assert_eq!(rate_limit_wait(100_000), 20_000);
    assert_eq!(rate_limit_wait(120_000), 0);
    assert_eq!(rate_limit_wait(u64::MAX), 0);
}

#[test]
fn pieces_become_coloured_spans() {
    let pieces = vec![(255u8, 0u8, 0u8, "fn".to_string()), (0, 0, 0, String::new()), (0, 16, 255, " main".to_string())];
    let l = spans_of(&pieces);
    assert_eq!(l.spans.len(), 2);
    assert_eq!(l.spans[0].content, "fn");
    assert_eq!(l.spans[0].style.fg, Some(0xff0000));
    assert_eq!(l.spans[1].content, " main");
    assert_eq!(l.spans[1].style.fg, Some(0x0010ff));
    assert!(l.spans[1].style.bg.is_none());
}
