//! An account: a name and the Unix time of the last collected occurrence.
use vstd::prelude::*;
use crate::codec::{record_bytes, push_bytes, push_u64_le};
use crate::recurrence::{EngineError, is_next_occurrence_of, next_occurrence, remaining_from_reading, remaining_from_reading_spec};

verus! {

/// A named account and the Unix time (seconds) of its last collected occurrence.
pub struct Account {
    pub name: String,
    pub date: u64,
}

/// The plain value of an account: its name's characters and its timestamp.
pub open spec fn account_view(a: Account) -> (Seq<char>, u64) {
    (a.name@, a.date)
}

impl Account {
    pub fn new(name: String, date: u64) -> (r: Self)
        ensures
            r.name@ == name@,
            r.date == date,
    {
        Account { name, date }
    }

    pub fn get_name(&self) -> (r: &String)
        ensures
            r@ == self.name@,
    {
        &self.name
    }

    pub fn get_date(&self) -> (r: u64)
        ensures
            r == self.date,
    {
        self.date
    }

    /// The next occurrence after this account's last event.
    pub fn get_next_date(&self) -> (r: Result<u64, EngineError>)
        ensures
            self.date > i64::MAX ==> r == Err::<u64, EngineError>(EngineError::InvalidTimestamp),
            r matches Ok(n) ==> is_next_occurrence_of(self.date as int, n as int),
            r matches Err(e) ==> e == EngineError::InvalidTimestamp,
    {
        next_occurrence(self.date)
    }

    /// Seconds left until the next occurrence, read against the clock now.
    pub fn get_remaining_time(&self) -> (r: Result<u64, EngineError>)
        ensures
            self.date > i64::MAX ==> r == Err::<u64, EngineError>(EngineError::InvalidTimestamp),
            r matches Ok(left) ==> exists|now: i64, n: u64|
                is_next_occurrence_of(self.date as int, n as int) && left
                    == #[trigger] remaining_from_reading_spec(now as int, n as int),
            r matches Err(e) ==> e == EngineError::InvalidTimestamp,
    {
        let next = match self.get_next_date() {
            Ok(n) => n,
            Err(e) => {
                return Err(e);
            },
        };
        let reading = crate::clock::now_timestamp();
        Ok(remaining_from_reading(reading, next))
    }

    /// The stored form of this account: its name's UTF-8 bytes, a zero byte,
    /// then its timestamp as eight little-endian bytes.
    pub fn to_binary(&self) -> (r: Vec<u8>)
        ensures
            r@ == record_bytes(self.name@, self.date),
    {
        let mut data: Vec<u8> = Vec::new();
        push_bytes(&mut data, self.name.as_str().as_bytes());
        data.push(0u8);
        push_u64_le(&mut data, self.date);
        proof {
            assert(data@ =~= record_bytes(self.name@, self.date));
        }
        data
    }
}

} // verus!
