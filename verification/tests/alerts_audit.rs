use smos::alerts::breach_summary;
use smos::audit::{newest_first, AuditLog};

#[test]
fn breach_tally() {
    assert_eq!(breach_summary(false, false, &vec![false]), (0, false));
    assert_eq!(breach_summary(true, false, &vec![]), (1, true));
    assert_eq!(breach_summary(false, true, &vec![true, false]), (2, true));
    assert_eq!(breach_summary(true, true, &vec![true]), (3, true));
}

#[test]
fn audit_listing_newest_first() {
    assert_eq!(newest_first(vec![1, 2, 3], 0), vec![3, 2, 1]);
    assert_eq!(newest_first(vec![1, 2, 3], 2), vec![3, 2]);
    assert_eq!(newest_first(vec![1, 2, 3], 5), vec![3, 2, 1]);
    assert_eq!(newest_first(Vec::<u8>::new(), 1), Vec::<u8>::new());
    let log = AuditLog::new("data/audit.jsonl".to_string());
    assert_eq!(log.path(), "data/audit.jsonl");
}
