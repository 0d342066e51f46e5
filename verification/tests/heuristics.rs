use xgc::heuristics::trigger::decide;
use xgc::heuristics::Trigger;

#[test]
fn decide_priorities() {
    assert_eq!(decide(100, 100, true, 5000, 1000, 20000, 10000), Trigger::Full);
    assert_eq!(decide(100, 90, true, 5000, 1000, 20000, 10000), Trigger::High);
    assert_eq!(decide(100, 10, false, 1000, 1000, 20000, 10000), Trigger::Promotion);
    assert_eq!(decide(100, 10, false, 999, 1000, 10000, 10000), Trigger::Allocation);
    assert_eq!(decide(100, 10, false, 0, 1000, 0, 10000), Trigger::NotNeeded);
    assert_eq!(decide(0, 10, false, 0, 1000, 0, 10000), Trigger::NotNeeded);
}
