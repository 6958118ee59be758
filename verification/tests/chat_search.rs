use autogram::chat_search::{ChatSearch, MultiChatSearch, MultiOutcome, SearchStep, contains_id};

#[test]
fn search_grows_by_twenty() {
    let mut s = ChatSearch::new(7);
    assert_eq!(s.limit, 20);
    let page: Vec<i64> = (100..120).collect();
    assert_eq!(s.on_page(&page), SearchStep::FetchMore(40));
    assert_eq!(s.limit, 40);
    let page: Vec<i64> = (100..140).collect();
    assert_eq!(s.on_page(&page), SearchStep::FetchMore(60));
    assert_eq!(s.limit, 60);
}

#[test]
fn search_finds_target() {
    let mut s = ChatSearch::new(7);
    assert_eq!(s.on_page(&vec![1, 7, 3]), SearchStep::Found);
    assert_eq!(s.limit, 20);
}

#[test]
fn first_short_page_is_not_the_end() {
    let mut s = ChatSearch::new(7);
    assert_eq!(s.on_page(&vec![1, 2]), SearchStep::FetchMore(40));
}

#[test]
fn short_later_page_holding_the_chat_finds_it() {
    let mut a = ChatSearch { target: 7, limit: 40 };
    assert_eq!(a.on_page(&vec![7]), SearchStep::Found);
    let mut c = ChatSearch { target: 8, limit: 40 };
    assert_eq!(c.on_page(&vec![7]), SearchStep::NotFound);
}

#[test]
fn chat_near_the_end_of_a_short_list_is_found() {
    let list: Vec<i64> = (1..=25).collect();
    let mut s = ChatSearch::new(25);
    let mut limit = s.limit;
    let step = loop {
        let page: Vec<i64> = list.iter().take(limit as usize).cloned().collect();
        match s.on_page(&page) {
            SearchStep::FetchMore(l) => limit = l,
            other => break other,
        }
    };
    assert_eq!(step, SearchStep::Found);
    assert_eq!(limit, 40);
}

#[test]
fn contains_id_works() {
    assert!(contains_id(&vec![3, 4], 4));
    assert!(!contains_id(&vec![], 4));
}

#[test]
fn multi_search_opens_in_page_order() {
    let mut s = MultiChatSearch::new(vec![2, 5, 9]);
    let step = s.on_page(&vec![9, 1, 2]);
    assert_eq!(step.opened, vec![9, 2]);
    assert_eq!(step.outcome, MultiOutcome::FetchMore(40));
    assert_eq!(s.pending, vec![5]);
    let step = s.on_page(&vec![5, 6]);
    assert_eq!(step.opened, vec![5]);
    assert_eq!(step.outcome, MultiOutcome::AllFound);
    assert!(s.pending.is_empty());
}

#[test]
fn multi_search_reports_missing() {
    let mut s = MultiChatSearch { pending: vec![2, 5], limit: 40 };
    let step = s.on_page(&vec![2, 3]);
    assert_eq!(step.opened, vec![2]);
    assert_eq!(step.outcome, MultiOutcome::Missing(vec![5]));
}

#[test]
fn multi_search_stops_when_all_found() {
    let mut s = MultiChatSearch::new(vec![4]);
    let step = s.on_page(&vec![4, 4, 4]);
    assert_eq!(step.opened, vec![4]);
    assert_eq!(step.outcome, MultiOutcome::AllFound);
}

#[test]
fn multi_search_with_nothing_pending() {
    let mut s = MultiChatSearch::new(vec![]);
    let step = s.on_page(&vec![1; 20]);
    assert!(step.opened.is_empty());
    assert_eq!(step.outcome, MultiOutcome::FetchMore(40));
    let step = s.on_page(&vec![1; 3]);
    assert_eq!(step.outcome, MultiOutcome::Missing(vec![]));
}

#[test]
fn scan_leaves_no_page_id_pending() {
    let mut s = MultiChatSearch::new(vec![1, 3, 5, 7]);
    let step = s.on_page(&vec![7, 2, 3]);
    assert_eq!(step.opened, vec![7, 3]);
    for id in [7, 2, 3] {
        assert!(!s.pending.contains(&id));
    }
    assert_eq!(s.pending, vec![1, 5]);
}

#[test]
fn unsorted_ids_are_all_found() {
    let mut s = MultiChatSearch::new(vec![3, 2, 1]);
    assert_eq!(s.pending, vec![1, 2, 3]);
    let step = s.on_page(&vec![3, 1, 2]);
    assert_eq!(step.opened, vec![3, 1, 2]);
    assert_eq!(step.outcome, MultiOutcome::AllFound);
}
