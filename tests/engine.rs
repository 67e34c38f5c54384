use cases_notifier::account::Account;
use cases_notifier::codec::{decode_accounts, encode_accounts};
use cases_notifier::edit::{apply_wall, EditGuard, EditState};
use cases_notifier::format::format_time;
use cases_notifier::recurrence::{
    next_occurrence, next_occurrence_wall_clock, remaining_from_reading, remaining_time,
    utc_of_wall, wall_of_utc, EngineError,
};
use cases_notifier::store::{count_ready, AccountStore};

const DAY: i64 = 86400;
// 2024-01-03, a Wednesday, as a day count from 1970-01-01.
const WED_DAY: i64 = 19725;

fn weekday(wall: i64) -> i64 {
    (wall.div_euclid(DAY) + 3).rem_euclid(7)
}

#[test]
fn wednesday_ten_oclock_goes_to_following_wednesday() {
    let wall = WED_DAY * DAY + 10 * 3600;
    assert_eq!(next_occurrence_wall_clock(wall), Some((WED_DAY + 7) * DAY));
}

#[test]
fn wednesday_midnight_goes_to_following_wednesday() {
    assert_eq!(next_occurrence_wall_clock(WED_DAY * DAY), Some((WED_DAY + 7) * DAY));
}

#[test]
fn tuesday_late_goes_to_next_day() {
    let wall = (WED_DAY - 1) * DAY + 86399;
    assert_eq!(next_occurrence_wall_clock(wall), Some(WED_DAY * DAY));
}

#[test]
fn thursday_goes_six_days_ahead() {
    let wall = (WED_DAY + 1) * DAY + 5;
    assert_eq!(next_occurrence_wall_clock(wall), Some((WED_DAY + 7) * DAY));
}

#[test]
fn crosses_year_boundary() {
    // 2023-12-28 is a Thursday; the next Wednesday is 2024-01-03.
    let wall = (WED_DAY - 6) * DAY + 12 * 3600;
    assert_eq!(next_occurrence_wall_clock(wall), Some(WED_DAY * DAY));
}

#[test]
fn before_epoch_is_placed() {
    // 1969-12-31 was a Wednesday: its next occurrence is 1970-01-07.
    assert_eq!(next_occurrence_wall_clock(-1), Some(6 * DAY));
}

#[test]
fn occurrence_is_later_day_on_anchor_weekday() {
    for wall in [0i64, 1, 86399, 1_000_000, 1_704_276_000, -5_000_000, 2_000_000_123] {
        let n = next_occurrence_wall_clock(wall).unwrap();
        assert!(n.div_euclid(DAY) > wall.div_euclid(DAY));
        assert!(n.div_euclid(DAY) - wall.div_euclid(DAY) <= 7);
        assert_eq!(n.rem_euclid(DAY), 0);
        assert_eq!(weekday(n), 2);
    }
}

#[test]
fn occurrence_stable_from_second_before() {
    for wall in [0i64, 1, 86399, 1_000_000, 1_704_276_000, -5_000_000] {
        let n = next_occurrence_wall_clock(wall).unwrap();
        assert_eq!(next_occurrence_wall_clock(n - 1), Some(n));
    }
}

#[test]
fn occurrence_out_of_range_is_none() {
    assert_eq!(next_occurrence_wall_clock(i64::MAX), None);
}

#[test]
fn utc_occurrence_out_of_range_is_invalid() {
    assert_eq!(next_occurrence(u64::MAX), Err(EngineError::InvalidTimestamp));
    let a = Account::new("far".to_string(), u64::MAX);
    assert_eq!(a.get_next_date(), Err(EngineError::InvalidTimestamp));
    assert_eq!(a.get_remaining_time(), Err(EngineError::InvalidTimestamp));
}

#[test]
fn utc_occurrence_is_within_a_week_and_a_bit() {
    let t: u64 = 1_704_276_000;
    let n = next_occurrence(t).unwrap();
    assert!(n + 2 * 86400 > t);
    assert!(n < t + 9 * 86400);
    let a = Account::new("a".to_string(), t);
    assert_eq!(a.get_next_date(), Ok(n));
}

#[test]
fn remaining_time_values() {
    assert_eq!(remaining_time(10, 10), 0);
    assert_eq!(remaining_time(11, 10), 0);
    assert_eq!(remaining_time(3, 10), 7);
    assert_eq!(remaining_time(0, u64::MAX), u64::MAX);
}

#[test]
fn account_getters() {
    let a = Account::new("main".to_string(), 42);
    assert_eq!(a.get_name(), "main");
    assert_eq!(a.get_date(), 42);
}

#[test]
fn to_binary_layout() {
    let a = Account::new("ab".to_string(), 0x0102030405060708);
    assert_eq!(a.to_binary(), vec![b'a', b'b', 0, 8, 7, 6, 5, 4, 3, 2, 1]);
}

#[test]
fn to_binary_multibyte_name() {
    let a = Account::new("é".to_string(), 1);
    assert_eq!(a.to_binary(), vec![0xc3, 0xa9, 0, 1, 0, 0, 0, 0, 0, 0, 0]);
}

#[test]
fn encode_decode_round_trip() {
    let accounts = vec![
        Account::new("first".to_string(), 1_704_276_000),
        Account::new("".to_string(), 0),
        Account::new("Ünïcødé".to_string(), u64::MAX),
    ];
    let bytes = encode_accounts(&accounts);
    let out = decode_accounts(&bytes);
    assert_eq!(out.error, None);
    assert_eq!(out.accounts.len(), 3);
    for (x, y) in accounts.iter().zip(out.accounts.iter()) {
        assert_eq!(x.name, y.name);
        assert_eq!(x.date, y.date);
    }
}

#[test]
fn empty_stream_is_empty_store() {
    let out = decode_accounts(&[]);
    assert!(out.accounts.is_empty());
    assert_eq!(out.error, None);
    let (store, err) = AccountStore::decode(&[]);
    assert_eq!(store.len(), 0);
    assert_eq!(err, None);
}

#[test]
fn truncated_timestamp_keeps_earlier_accounts() {
    let mut bytes = Account::new("one".to_string(), 7).to_binary();
    bytes.extend_from_slice(b"two");
    bytes.push(0);
    bytes.extend_from_slice(&[1, 2, 3, 4, 5]);
    let out = decode_accounts(&bytes);
    assert_eq!(out.accounts.len(), 1);
    assert_eq!(out.accounts[0].name, "one");
    assert_eq!(out.accounts[0].date, 7);
    assert_eq!(out.error, Some(EngineError::CorruptStream));
}

#[test]
fn invalid_utf8_name_is_corrupt() {
    let mut bytes = Account::new("ok".to_string(), 9).to_binary();
    bytes.extend_from_slice(&[0xff, 0xfe, 0, 1, 0, 0, 0, 0, 0, 0, 0]);
    let out = decode_accounts(&bytes);
    assert_eq!(out.accounts.len(), 1);
    assert_eq!(out.accounts[0].name, "ok");
    assert_eq!(out.error, Some(EngineError::CorruptStream));
}

#[test]
fn unterminated_trailing_name_is_dropped() {
    let mut bytes = Account::new("x".to_string(), 3).to_binary();
    bytes.extend_from_slice(b"partial");
    let out = decode_accounts(&bytes);
    assert_eq!(out.accounts.len(), 1);
    assert_eq!(out.error, None);
}

#[test]
fn digit_zero_name_round_trips() {
    let accounts = vec![Account::new("0".to_string(), 5), Account::new("a0b".to_string(), 6)];
    let out = decode_accounts(&encode_accounts(&accounts));
    assert_eq!(out.error, None);
    assert_eq!(out.accounts[0].name, "0");
    assert_eq!(out.accounts[0].date, 5);
    assert_eq!(out.accounts[1].name, "a0b");
    assert_eq!(out.accounts[1].date, 6);
}

#[test]
fn store_mutations() {
    let mut store = AccountStore::new();
    assert_eq!(store.add("a".to_string(), 1), 0);
    assert_eq!(store.add("b".to_string(), 2), 1);
    assert_eq!(store.add("c".to_string(), 3), 2);
    assert_eq!(store.rename(1, "bee".to_string()), Ok(()));
    assert_eq!(store.retime(2, 30), Ok(()));
    assert_eq!(store.reset(0, 100), Ok(()));
    assert_eq!(store.remove(1), Ok(()));
    assert_eq!(store.len(), 2);
    assert_eq!(store.get(0).unwrap().name, "a");
    assert_eq!(store.get(0).unwrap().date, 100);
    assert_eq!(store.get(1).unwrap().name, "c");
    assert_eq!(store.get(1).unwrap().date, 30);
    assert!(store.get(2).is_none());
}

#[test]
fn store_index_out_of_range() {
    let mut store = AccountStore::new();
    store.add("a".to_string(), 1);
    assert_eq!(store.remove(1), Err(EngineError::IndexOutOfRange));
    assert_eq!(store.reset(5, 0), Err(EngineError::IndexOutOfRange));
    assert_eq!(store.rename(1, "x".to_string()), Err(EngineError::IndexOutOfRange));
    assert_eq!(store.retime(1, 9), Err(EngineError::IndexOutOfRange));
    assert_eq!(store.len(), 1);
    assert_eq!(store.get(0).unwrap().date, 1);
}

#[test]
fn store_encode_decode() {
    let mut store = AccountStore::new();
    store.add("x".to_string(), 11);
    store.add("y".to_string(), 22);
    let (back, err) = AccountStore::decode(&store.encode());
    assert_eq!(err, None);
    assert_eq!(back.len(), 2);
    assert_eq!(back.get(1).unwrap().name, "y");
    assert_eq!(back.get(1).unwrap().date, 22);
}

#[test]
fn ready_count() {
    let nexts = vec![Some(10), Some(11), None, Some(5), Some(12)];
    assert_eq!(count_ready(11, &nexts), 3);
    assert_eq!(count_ready(0, &nexts), 0);
    assert_eq!(count_ready(11, &vec![]), 0);
}

#[test]
fn eligible_count_bounds() {
    let mut store = AccountStore::new();
    store.add("old".to_string(), 0);
    store.add("never".to_string(), u64::MAX);
    assert_eq!(store.count_eligible(2_000_000_000), 1);
    assert_eq!(store.count_eligible(0), 0);
    let nexts = store.next_occurrences();
    assert!(nexts[0].is_some());
    assert!(nexts[1].is_none());
}

#[test]
fn edit_guard_single_slot() {
    let mut guard = EditGuard::new();
    assert!(!guard.is_locked());
    assert!(guard.begin(0, "draft".to_string()));
    assert!(guard.is_locked());
    assert!(!guard.begin(1, "other".to_string()));
    assert_eq!(guard.editing_index(), Some(0));
    assert!(guard.commit());
    assert!(!guard.is_locked());
    assert!(!guard.commit());
    assert!(guard.begin(1, "other".to_string()));
    assert_eq!(guard.editing_index(), Some(1));
}

#[test]
fn edit_draft_updates_account() {
    let mut store = AccountStore::new();
    store.add("a".to_string(), 0);
    let mut guard = EditGuard::new();
    assert!(!guard.apply_draft(&mut store));
    assert!(guard.begin(0, "garbage".to_string()));
    assert!(!guard.apply_draft(&mut store));
    assert_eq!(store.get(0).unwrap().date, 0);
    assert!(guard.set_draft("10:00:00 03/01/2024".to_string()));
    assert!(guard.apply_draft(&mut store));
    let d = store.get(0).unwrap().date as i64;
    assert!((d - (WED_DAY * DAY + 36000)).abs() < DAY);
    match &guard.state {
        EditState::Editing { index, draft } => {
            assert_eq!(*index, 0);
            assert_eq!(draft, "10:00:00 03/01/2024");
        }
        EditState::Idle => panic!("edit closed"),
    }
}

#[test]
fn edit_draft_stale_index() {
    let mut store = AccountStore::new();
    let mut guard = EditGuard::new();
    assert!(guard.begin(3, "10:00:00 03/01/2024".to_string()));
    assert!(!guard.apply_draft(&mut store));
    assert!(!EditGuard::new().set_draft("x".to_string()));
}

#[test]
fn format_time_values() {
    assert_eq!(format_time(0), "0:00:00:00");
    assert_eq!(format_time(59), "0:00:00:59");
    assert_eq!(format_time(3725), "0:01:02:05");
    assert_eq!(format_time(90061), "1:01:01:01");
    assert_eq!(format_time(12 * 86400 + 23 * 3600 + 59 * 60 + 59), "12:23:59:59");
}

#[test]
fn first_unrepresentable_timestamp_is_invalid() {
    assert_eq!(next_occurrence(1u64 << 63), Err(EngineError::InvalidTimestamp));
    let a = Account::new("edge".to_string(), 1u64 << 63);
    assert_eq!(a.get_next_date(), Err(EngineError::InvalidTimestamp));
}

#[test]
fn wall_and_utc_conversions() {
    assert_eq!(wall_of_utc(1000, 3600), Some(4600));
    assert_eq!(wall_of_utc(1000, -3600), Some(-2600));
    assert_eq!(wall_of_utc(i64::MAX, 1), None);
    assert_eq!(utc_of_wall(4600, 3600), Some(1000));
    assert_eq!(utc_of_wall(100, 3600), None);
    assert_eq!(utc_of_wall(i64::MAX, -1), None);
    assert_eq!(utc_of_wall(0, 0), Some(0));
}

#[test]
fn remaining_from_clock_reading() {
    assert_eq!(remaining_from_reading(-50, 10), 60);
    assert_eq!(remaining_from_reading(i64::MIN, u64::MAX), u64::MAX);
    assert_eq!(remaining_from_reading(-1, u64::MAX - 1), u64::MAX);
    assert_eq!(remaining_from_reading(4, 10), 6);
    assert_eq!(remaining_from_reading(10, 10), 0);
    assert_eq!(remaining_from_reading(i64::MAX, 10), 0);
}

#[test]
fn apply_wall_sets_or_refuses() {
    let mut store = AccountStore::new();
    store.add("a".to_string(), 1);
    assert!(apply_wall(&mut store, 0, 7200, 3600));
    assert_eq!(store.get(0).unwrap().date, 3600);
    assert_eq!(store.get(0).unwrap().name, "a");
    assert!(!apply_wall(&mut store, 0, 100, 3600));
    assert!(!apply_wall(&mut store, 1, 7200, 0));
    assert_eq!(store.get(0).unwrap().date, 3600);
}
