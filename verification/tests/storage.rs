use cribbage_server::storage::{event_sequences, take_chunk};

#[test]
fn a_chunk_takes_at_most_its_size_and_tells_when_more_follow() {
    assert_eq!(take_chunk(vec![1, 2, 3, 4, 5], 3), (vec![1, 2, 3], true));
    assert_eq!(take_chunk(vec![1, 2, 3], 3), (vec![1, 2, 3], false));
    assert_eq!(take_chunk(vec![1, 2], 3), (vec![1, 2], false));
    assert_eq!(take_chunk(Vec::<u8>::new(), 0), (vec![], false));
    assert_eq!(take_chunk(vec![7], 0), (vec![], true));
}

#[test]
fn appended_events_follow_the_last_sequence_number() {
    assert_eq!(event_sequences(None, 3), vec![1, 2, 3]);
    assert_eq!(event_sequences(Some(41), 2), vec![42, 43]);
    assert_eq!(event_sequences(Some(41), 0), Vec::<i64>::new());
    assert_eq!(event_sequences(Some(i64::MAX - 1), 1), vec![i64::MAX]);
}
