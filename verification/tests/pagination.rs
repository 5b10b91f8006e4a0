use resilient_transfer::page::{pages_requested, total_pages, PageAction, PageCursor};
use resilient_transfer::results::ResultAccumulator;

#[test]
fn a_total_of_1050_at_500_rows_takes_three_pages() {
    assert_eq!(total_pages(1050, 500, None), 3);
    assert_eq!(pages_requested(1050, 500, None), vec![1, 2, 3]);
}

#[test]
fn total_pages_is_the_ceiling_and_at_least_one() {
    assert_eq!(total_pages(0, 500, None), 1);
    assert_eq!(total_pages(-4, 500, None), 1);
    assert_eq!(total_pages(1, 500, None), 1);
    assert_eq!(total_pages(500, 500, None), 1);
    assert_eq!(total_pages(501, 500, None), 2);
    assert_eq!(total_pages(1000, 500, None), 2);
    assert_eq!(total_pages(1001, 500, None), 3);
    assert_eq!(total_pages(7, 1, None), 7);
    assert_eq!(total_pages(i64::MAX, 1, None), i64::MAX as u64);
    assert_eq!(total_pages(i64::MAX, u64::MAX, None), 1);
}

#[test]
fn total_pages_is_clamped_to_the_cap() {
    assert_eq!(total_pages(1050, 500, Some(2)), 2);
    assert_eq!(total_pages(1050, 500, Some(3)), 3);
    assert_eq!(total_pages(1050, 500, Some(9)), 3);
    assert_eq!(total_pages(1050, 500, Some(0)), 0);
    assert_eq!(total_pages(0, 500, Some(0)), 0);
}

#[test]
fn cursor_walks_the_pages_once_each() {
    let mut cursor = PageCursor::new(500, None);
    assert_eq!(cursor.pages(), None);
    assert_eq!(cursor.next_action(), PageAction::Fetch { page: 1, wait: false });
    assert!(cursor.page_fetched(1050));
    assert_eq!(cursor.pages(), Some(3));
    assert_eq!(cursor.next_action(), PageAction::Fetch { page: 2, wait: true });
    assert!(cursor.page_fetched(1050));
    assert_eq!(cursor.next_action(), PageAction::Fetch { page: 3, wait: true });
    assert!(cursor.page_fetched(1050));
    assert_eq!(cursor.next_action(), PageAction::Done);
    assert!(!cursor.page_fetched(1050));
    assert_eq!(cursor.next_action(), PageAction::Done);
}

#[test]
fn cursor_keeps_the_total_of_the_first_page() {
    let mut cursor = PageCursor::new(500, None);
    assert!(cursor.page_fetched(1050));
    assert!(cursor.page_fetched(5000));
    assert_eq!(cursor.pages(), Some(3));
    assert!(cursor.page_fetched(0));
    assert_eq!(cursor.next_action(), PageAction::Done);
}

#[test]
fn a_cap_of_zero_leaves_the_first_page_unprocessed() {
    let mut cursor = PageCursor::new(500, Some(0));
    assert_eq!(cursor.next_action(), PageAction::Fetch { page: 1, wait: false });
    assert!(!cursor.page_fetched(1050));
    assert_eq!(cursor.next_action(), PageAction::Done);
    assert_eq!(pages_requested(1050, 500, Some(0)), vec![1]);
}

#[test]
fn capped_run_requests_only_the_capped_pages() {
    assert_eq!(pages_requested(1050, 500, Some(2)), vec![1, 2]);
    assert_eq!(pages_requested(0, 500, None), vec![1]);
    assert_eq!(pages_requested(10, 3, None), vec![1, 2, 3, 4]);
}

#[test]
fn one_absent_sub_fetch_costs_one_entry_and_no_more() {
    let mut acc: ResultAccumulator<u32> = ResultAccumulator::new();
    let n = 6u32;
    for i in 0..n {
        let sub = if i == 2 { None } else { Some(vec![i]) };
        acc.absorb(sub);
    }
    assert_eq!(acc.len(), 5);
    assert_eq!(acc.into_vec(), vec![0, 1, 3, 4, 5]);
}

#[test]
fn accumulator_keeps_order_and_duplicates() {
    let mut acc: ResultAccumulator<&str> = ResultAccumulator::new();
    acc.absorb(Some(vec!["b", "a"]));
    acc.absorb(Some(vec![]));
    acc.absorb(None);
    acc.absorb(Some(vec!["a"]));
    assert_eq!(acc.len(), 3);
    assert_eq!(acc.into_vec(), vec!["b", "a", "a"]);
}
