use file_seq::{FileSeq, SeqError, Step, FRESH_FILE_NAME, STABLE_FILE_NAME};

#[test]
fn should_store_initial_seq_correctly() {
    let seq = FileSeq::new(None, None, 1);
    assert!(seq.stable().is_none());
    assert!(seq.fresh().is_some());
}

#[test]
fn should_cycle_seq_files() {
    let mut seq = FileSeq::new(None, None, 1);
    assert!(seq.stable().is_none());
    assert!(seq.fresh().is_some());
    let path_2_value = seq.fresh().clone().unwrap();
    seq.increment_and_get(1).unwrap();
    let path_1_value = seq.stable().clone().unwrap();
    assert_eq!(path_2_value, path_1_value);
}

#[test]
fn should_delete() {
    let mut seq = FileSeq::new(None, None, 1);
    assert!(seq.stable().is_none());
    assert!(seq.fresh().is_some());
    seq.increment_and_get(1).unwrap();
    seq.delete().unwrap();
    assert!(!seq.stable().is_some());
    assert!(!seq.fresh().is_some());
}

#[test]
fn should_increment_and_get() {
    let mut seq = FileSeq::new(None, None, 1);
    let prev_value = seq.value().unwrap();
    let curr_value = seq.increment_and_get(1).unwrap();
    assert_eq!(prev_value + 1, curr_value);
    assert_eq!(curr_value, seq.value().unwrap());
}

#[test]
fn should_get_and_increment() {
    let mut seq = FileSeq::new(None, None, 1);
    let prev_value = seq.value().unwrap();
    let curr_value = seq.get_and_increment(1).unwrap();
    assert_eq!(prev_value, curr_value);
    assert_eq!(curr_value + 1, seq.value().unwrap())
}

#[test]
fn open_on_empty_directory_reads_the_initial_value() {
    for initial in [0u64, 1, 42, 1 << 40, u64::MAX] {
        let mut seq = FileSeq::new(None, None, initial);
        assert_eq!(seq.value(), Ok(initial));
    }
}

#[test]
fn open_on_empty_directory_writes_one_slot() {
    let mut seq = FileSeq::new(None, None, 42);
    assert_eq!(seq.stable(), &None);
    assert_eq!(seq.fresh(), &Some(vec![0, 0, 0, 0, 0, 0, 0, 42]));
    assert_eq!(seq.take_journal(), vec![Step::Rotate, Step::Write(42)]);
}

#[test]
fn open_on_existing_directory_ignores_the_initial_value() {
    let mut seq = FileSeq::new(None, Some(vec![0, 0, 0, 0, 0, 0, 0, 9]), 1);
    assert_eq!(seq.take_journal(), vec![]);
    assert_eq!(seq.value(), Ok(9));

    let mut seq = FileSeq::new(Some(vec![0, 0, 0, 0, 0, 0, 0, 5]), None, 1);
    assert_eq!(seq.take_journal(), vec![]);
    assert_eq!(seq.value(), Ok(5));
}

#[test]
fn open_on_existing_directory_leaves_unreadable_slots_alone() {
    let mut seq = FileSeq::new(Some(vec![1, 2]), None, 7);
    assert_eq!(seq.stable(), &Some(vec![1, 2]));
    assert_eq!(seq.fresh(), &None);
    assert_eq!(seq.take_journal(), vec![]);
    assert_eq!(seq.value(), Err(SeqError::Corrupted));
}

#[test]
fn increments_add_up() {
    let mut seq = FileSeq::new(None, None, 10);
    let deltas = [3u64, 0, 7, 1, 0, 1000, 5];
    let mut sum = 10;
    for (turn, delta) in deltas.iter().enumerate() {
        if turn % 2 == 0 {
            assert_eq!(seq.get_and_increment(*delta), Ok(sum));
        } else {
            assert_eq!(seq.increment_and_get(*delta), Ok(sum + delta));
        }
        sum += delta;
    }
    assert_eq!(sum, 1026);
    assert_eq!(seq.value(), Ok(1026));
}

#[test]
fn get_and_increment_returns_the_value_before() {
    let mut seq = FileSeq::new(None, None, 100);
    assert_eq!(seq.get_and_increment(23), Ok(100));
    assert_eq!(seq.value(), Ok(123));
}

#[test]
fn increment_and_get_returns_the_value_after() {
    let mut seq = FileSeq::new(None, None, 100);
    assert_eq!(seq.increment_and_get(23), Ok(123));
    assert_eq!(seq.value(), Ok(123));
}

#[test]
fn increment_reaches_the_largest_value() {
    let mut seq = FileSeq::new(None, None, u64::MAX - 2);
    assert!(seq.has_room(2));
    assert_eq!(seq.increment_and_get(2), Ok(u64::MAX));
    assert_eq!(seq.value(), Ok(u64::MAX));
    assert!(seq.has_room(0));
    assert!(!seq.has_room(1));
}

#[test]
fn has_room_tells_when_an_increment_fits() {
    let seq = FileSeq::new(None, None, 10);
    assert!(seq.has_room(0));
    assert!(seq.has_room(u64::MAX - 10));
    assert!(!seq.has_room(u64::MAX - 9));
    assert!(!seq.has_room(u64::MAX));
}

#[test]
fn has_room_goes_by_the_larger_slot() {
    let seq =
        FileSeq::new(Some(vec![255; 8]), Some(vec![0, 0, 0, 0, 0, 0, 0, 1]), 0);
    assert!(!seq.has_room(1));
    let seq = FileSeq::new(Some(vec![0, 0, 0, 0, 0, 0, 0, 1]), Some(vec![255, 255]), 0);
    assert!(seq.has_room(u64::MAX - 1));
    assert!(!seq.has_room(u64::MAX));
}

#[test]
fn has_room_holds_where_nothing_can_be_read() {
    let seq = FileSeq::new(Some(vec![]), None, 0);
    assert!(seq.has_room(u64::MAX));
}

#[test]
fn rotation_keeps_the_value_before_in_the_stable_slot() {
    let mut seq = FileSeq::new(None, None, 5);
    seq.get_and_increment(4).unwrap();
    assert_eq!(seq.stable(), &Some(vec![0, 0, 0, 0, 0, 0, 0, 5]));
    assert_eq!(seq.fresh(), &Some(vec![0, 0, 0, 0, 0, 0, 0, 9]));
    seq.get_and_increment(300).unwrap();
    assert_eq!(seq.stable(), &Some(vec![0, 0, 0, 0, 0, 0, 0, 9]));
    assert_eq!(seq.fresh(), &Some(vec![0, 0, 0, 0, 0, 0, 1, 53]));
}

#[test]
fn rotation_moves_the_fresh_slot_byte_for_byte() {
    let mut seq = FileSeq::new(None, Some(vec![0, 0, 0, 0, 0, 0, 0, 3, 99, 98]), 0);
    assert_eq!(seq.increment_and_get(1), Ok(4));
    assert_eq!(seq.stable(), &Some(vec![0, 0, 0, 0, 0, 0, 0, 3, 99, 98]));
    assert_eq!(seq.fresh(), &Some(vec![0, 0, 0, 0, 0, 0, 0, 4]));
}

#[test]
fn increment_records_rotation_then_write() {
    let mut seq = FileSeq::new(None, None, 5);
    assert_eq!(seq.take_journal(), vec![Step::Rotate, Step::Write(5)]);
    seq.get_and_increment(4).unwrap();
    assert_eq!(seq.take_journal(), vec![Step::Rotate, Step::Write(9)]);
    seq.increment_and_get(1).unwrap();
    assert_eq!(seq.take_journal(), vec![Step::Rotate, Step::Write(10)]);
}

#[test]
fn increment_without_fresh_slot_moves_nothing() {
    let mut seq = FileSeq::new(Some(vec![0, 0, 0, 0, 0, 0, 0, 5]), None, 0);
    assert_eq!(seq.get_and_increment(2), Ok(5));
    assert_eq!(seq.take_journal(), vec![Step::Rotate, Step::Write(7)]);
    assert_eq!(seq.stable(), &Some(vec![0, 0, 0, 0, 0, 0, 0, 5]));
    assert_eq!(seq.fresh(), &Some(vec![0, 0, 0, 0, 0, 0, 0, 7]));
}

#[test]
fn journal_keeps_growing_until_taken() {
    let mut seq = FileSeq::new(None, None, 1);
    seq.get_and_increment(1).unwrap();
    seq.value().unwrap();
    seq.get_and_increment(1).unwrap();
    assert_eq!(
        seq.take_journal(),
        vec![
            Step::Rotate,
            Step::Write(1),
            Step::Rotate,
            Step::Write(2),
            Step::Rotate,
            Step::Write(3)
        ]
    );
    assert_eq!(seq.take_journal(), vec![]);
    assert_eq!(seq.value(), Ok(3));
}

#[test]
fn read_of_a_sound_pair_touches_nothing() {
    let mut seq =
        FileSeq::new(Some(vec![0, 0, 0, 0, 0, 0, 0, 3]), Some(vec![0, 0, 0, 0, 0, 0, 0, 5]), 0);
    assert_eq!(seq.value(), Ok(5));
    assert_eq!(seq.take_journal(), vec![]);
    assert_eq!(seq.stable(), &Some(vec![0, 0, 0, 0, 0, 0, 0, 3]));
    assert_eq!(seq.fresh(), &Some(vec![0, 0, 0, 0, 0, 0, 0, 5]));
}

#[test]
fn delete_removes_both_slots() {
    let mut seq = FileSeq::new(None, None, 1);
    seq.get_and_increment(1).unwrap();
    seq.take_journal();
    assert_eq!(seq.delete(), Ok(()));
    assert_eq!(seq.stable(), &None);
    assert_eq!(seq.fresh(), &None);
    assert_eq!(seq.take_journal(), vec![Step::RemoveStable, Step::RemoveFresh]);
}

#[test]
fn delete_fails_without_stable_slot() {
    let mut seq = FileSeq::new(None, None, 1);
    seq.take_journal();
    assert_eq!(seq.delete(), Err(SeqError::NotFound));
    assert_eq!(seq.fresh(), &Some(vec![0, 0, 0, 0, 0, 0, 0, 1]));
    assert_eq!(seq.take_journal(), vec![Step::RemoveStable]);
}

#[test]
fn delete_fails_without_fresh_slot() {
    let mut seq = FileSeq::new(Some(vec![0, 0, 0, 0, 0, 0, 0, 1]), None, 0);
    assert_eq!(seq.delete(), Err(SeqError::NotFound));
    assert_eq!(seq.stable(), &None);
    assert_eq!(seq.fresh(), &None);
    assert_eq!(seq.take_journal(), vec![Step::RemoveStable, Step::RemoveFresh]);
}

#[test]
fn delete_twice_fails_the_second_time() {
    let mut seq = FileSeq::new(None, None, 1);
    seq.increment_and_get(1).unwrap();
    assert_eq!(seq.delete(), Ok(()));
    assert_eq!(seq.delete(), Err(SeqError::NotFound));
}

#[test]
fn open_after_delete_starts_again() {
    let mut seq = FileSeq::new(None, None, 1);
    seq.increment_and_get(41).unwrap();
    seq.delete().unwrap();
    let mut again = FileSeq::new(seq.stable().clone(), seq.fresh().clone(), 7);
    assert_eq!(again.value(), Ok(7));
    assert_eq!(again.stable(), &None);
    assert_eq!(again.take_journal(), vec![Step::Rotate, Step::Write(7)]);
}

#[test]
fn read_after_delete_is_corrupted() {
    let mut seq = FileSeq::new(None, None, 1);
    seq.increment_and_get(1).unwrap();
    seq.delete().unwrap();
    assert_eq!(seq.value(), Err(SeqError::Corrupted));
}

#[test]
fn errors_describe_themselves() {
    assert_eq!(
        SeqError::Corrupted.message(),
        "Looks like both backup and latest sequence files are corrupted."
    );
    assert_eq!(SeqError::NotFound.message(), "A sequence file to remove does not exist.");
}

#[test]
fn slot_files_have_fixed_names() {
    assert_eq!(STABLE_FILE_NAME, "_1.seq");
    assert_eq!(FRESH_FILE_NAME, "_2.seq");
}

#[test]
fn from_slots_takes_the_directory_as_it_stands() {
    let mut seq = FileSeq::from_slots(None, None);
    assert_eq!(seq.stable(), &None);
    assert_eq!(seq.fresh(), &None);
    assert_eq!(seq.value(), Err(SeqError::Corrupted));
    assert_eq!(seq.take_journal(), vec![]);

    let mut seq =
        FileSeq::from_slots(Some(vec![0, 0, 0, 0, 0, 0, 0, 2]), Some(vec![0, 0, 0, 0, 0, 0, 0, 6]));
    assert_eq!(seq.value(), Ok(6));
    assert_eq!(seq.take_journal(), vec![]);
}

#[test]
fn increment_of_an_unopened_directory_writes_nothing() {
    let mut seq = FileSeq::from_slots(None, None);
    assert_eq!(seq.get_and_increment(3), Err(SeqError::Corrupted));
    assert_eq!(seq.increment_and_get(3), Err(SeqError::Corrupted));
    assert_eq!(seq.fresh(), &None);
    assert_eq!(seq.take_journal(), vec![]);
}
