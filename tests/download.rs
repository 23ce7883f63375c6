use magpie_twitter_bot::download::{failures, DownloadScheduler, Error, Slot};

#[test]
fn zero_limit_is_refused() {
    assert!(DownloadScheduler::new(3, 0).is_none());
}

#[test]
fn never_more_in_flight_than_the_limit() {
    let mut s = DownloadScheduler::new(5, 2).unwrap();
    assert_eq!(s.start_next(), Some(0));
    assert_eq!(s.start_next(), Some(1));
    assert_eq!(s.start_next(), None);
    assert_eq!(s.in_flight(), 2);
    assert!(s.complete(1, Ok(())));
    assert_eq!(s.in_flight(), 1);
    assert_eq!(s.start_next(), Some(2));
    assert_eq!(s.start_next(), None);
    assert!(s.complete(0, Err(Error::Remote("timeout".to_string()))));
    assert_eq!(s.start_next(), Some(3));
    assert!(s.complete(2, Ok(())));
    assert_eq!(s.start_next(), Some(4));
    assert_eq!(s.start_next(), None);
    assert!(!s.is_finished());
    assert!(s.complete(4, Err(Error::File("denied".to_string()))));
    assert!(s.complete(3, Ok(())));
    assert_eq!(s.in_flight(), 0);
    assert!(s.is_finished());
    let slots = s.into_slots();
    assert!(matches!(slots[0], Slot::Done(Err(Error::Remote(_)))));
    assert!(matches!(slots[1], Slot::Done(Ok(()))));
    assert!(matches!(slots[4], Slot::Done(Err(Error::File(_)))));
    assert_eq!(failures(&slots), vec![0, 4]);
}

#[test]
fn many_items_under_a_limit() {
    let limit = 3;
    let mut s = DownloadScheduler::new(20, limit).unwrap();
    let mut running: Vec<usize> = Vec::new();
    let mut started: Vec<usize> = Vec::new();
    loop {
        while let Some(i) = s.start_next() {
            running.push(i);
            started.push(i);
            assert!(s.in_flight() <= limit);
        }
        if running.is_empty() {
            break;
        }
        let i = running.remove(running.len() / 2);
        assert!(s.complete(i, Ok(())));
    }
    assert_eq!(started, (0..20).collect::<Vec<usize>>());
    assert!(s.is_finished());
    assert!(failures(&s.into_slots()).is_empty());
}

#[test]
fn completing_what_is_not_in_flight_changes_nothing() {
    let mut s = DownloadScheduler::new(2, 1).unwrap();
    assert!(!s.complete(0, Ok(())));
    assert!(!s.complete(9, Ok(())));
    assert_eq!(s.start_next(), Some(0));
    assert!(s.complete(0, Ok(())));
    assert!(!s.complete(0, Ok(())));
    assert_eq!(s.in_flight(), 0);
}

#[test]
fn empty_batch_is_finished() {
    let mut s = DownloadScheduler::new(0, 4).unwrap();
    assert_eq!(s.start_next(), None);
    assert!(s.is_finished());
}
