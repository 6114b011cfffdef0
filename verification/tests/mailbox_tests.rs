use dactor::mailbox::{MailboxConfig, MessageComparer, OverflowStrategy, StrictPriorityComparer};
use dactor::message::Priority;
use std::cmp::Ordering;

#[test]
fn strict_comparer_lower_value_is_higher_priority() {
    let cmp = StrictPriorityComparer;
    assert_eq!(cmp.compare(0, 128), Ordering::Less);
    assert_eq!(cmp.compare(128, 0), Ordering::Greater);
    assert_eq!(cmp.compare(64, 64), Ordering::Equal);
}

#[test]
fn strict_comparer_priority_constants() {
    let cmp = StrictPriorityComparer;
    assert_eq!(cmp.compare(Priority::CRITICAL, Priority::HIGH), Ordering::Less);
    assert_eq!(cmp.compare(Priority::HIGH, Priority::NORMAL), Ordering::Less);
    assert_eq!(cmp.compare(Priority::NORMAL, Priority::LOW), Ordering::Less);
    assert_eq!(cmp.compare(Priority::LOW, Priority::BACKGROUND), Ordering::Less);
}

#[test]
fn custom_comparer() {
    struct InvertedComparer;
    impl MessageComparer for InvertedComparer {
        fn compare(&self, a_priority: u8, b_priority: u8) -> Ordering {
            b_priority.cmp(&a_priority)
        }
    }
    let cmp = InvertedComparer;
    assert_eq!(cmp.compare(0, 128), Ordering::Greater);
    assert_eq!(cmp.compare(255, 0), Ordering::Less);
}

#[test]
fn bounded_mailbox_config_keeps_capacity_and_strategy() {
    let c = MailboxConfig::bounded(16, OverflowStrategy::DropNewest);
    assert_eq!(c, MailboxConfig::Bounded { capacity: 16, overflow: OverflowStrategy::DropNewest });
}
