use vstd::prelude::*;

use crate::level::LogLevel;
use crate::time::{parse_rfc3339_millis, rfc3339_millis};

verus! {

/// One parsed log line as the pipeline carries it: the inferred severity,
/// the owning service, the raw line, and the observation time as an
/// RFC 3339 string.
#[derive(Debug, Clone)]
pub struct LogRequest {
    pub level: LogLevel,
    pub my_service_id: String,
    pub line_content: String,
    pub created_at: String,
}

/// Why a batch could not be turned into storage records; the batch is
/// skipped, siblings are unaffected.
#[derive(Clone, Copy, Debug, PartialEq, Eq, Structural)]
pub enum PersistError {
    InvalidServiceId,
    InvalidTimestamp,
}

/// A storage-ready log record: the service identifier validated as a
/// 24-digit hexadecimal object id, and the creation time resolved to UTC
/// epoch milliseconds.
#[derive(Debug, Clone)]
pub struct Log {
    pub my_service_id: String,
    pub level: LogLevel,
    pub line_content: String,
    pub created_at_millis: i64,
}

pub open spec fn is_hex_digit(c: char) -> bool {
    ||| '0' as u32 <= c as u32 && c as u32 <= '9' as u32
    ||| 'a' as u32 <= c as u32 && c as u32 <= 'f' as u32
    ||| 'A' as u32 <= c as u32 && c as u32 <= 'F' as u32
}

/// A well-formed storage object id: exactly 24 hexadecimal digits.
pub open spec fn is_object_id_hex(s: Seq<char>) -> bool {
    s.len() == 24 && forall|i: int| 0 <= i < s.len() ==> is_hex_digit(#[trigger] s[i])
}

/// A request that the sink can convert into a storage record.
pub open spec fn convertible(item: LogRequest) -> bool {
    is_object_id_hex(item.my_service_id@) && rfc3339_millis(item.created_at@) is Some
}

/// The record that conversion produces for a convertible request.
pub open spec fn converted(log: Log, item: LogRequest) -> bool {
    &&& log.my_service_id@ == item.my_service_id@
    &&& log.level == item.level
    &&& log.line_content@ == item.line_content@
    &&& Some(log.created_at_millis) == rfc3339_millis(item.created_at@)
}

/// The error a non-convertible request is reported with.
pub open spec fn item_error(item: LogRequest) -> PersistError {
    if !is_object_id_hex(item.my_service_id@) {
        PersistError::InvalidServiceId
    } else {
        PersistError::InvalidTimestamp
    }
}

/// Checks that a service id is exactly 24 hexadecimal digits.
fn check_object_id_hex(s: &str) -> (r: bool)
    ensures
        r == is_object_id_hex(s@),
{
    let n: usize = s.unicode_len();
    if n != 24 {
        return false;
    }
    let mut i: usize = 0;
    while i < n
        invariant
            i <= n,
            n == s@.len(),
            forall|k: int| 0 <= k < i ==> is_hex_digit(#[trigger] s@[k]),
        decreases n - i,
    {
        let c: u32 = s.get_char(i) as u32;
        let digit: bool = ('0' as u32) <= c && c <= ('9' as u32);
        let lower: bool = ('a' as u32) <= c && c <= ('f' as u32);
        let upper: bool = ('A' as u32) <= c && c <= ('F' as u32);
        if !(digit || lower || upper) {
            return false;
        }
        i += 1;
    }
    true
}

impl Log {
    /// Converts one parsed entry into a storage record, validating the
    /// service id and resolving the timestamp; conversion succeeds exactly
    /// when both are well formed.
    pub fn try_from_request(item: &LogRequest) -> (r: Result<Log, PersistError>)
        ensures
            match r {
                Ok(log) => convertible(*item) && converted(log, *item),
                Err(e) => !convertible(*item) && e == item_error(*item),
            },
    {
        if !check_object_id_hex(item.my_service_id.as_str()) {
            return Err(PersistError::InvalidServiceId);
        }
        match parse_rfc3339_millis(item.created_at.as_str()) {
            Some(ms) => Ok(Log {
                my_service_id: item.my_service_id.clone(),
                level: item.level,
                line_content: item.line_content.clone(),
                created_at_millis: ms,
            }),
            None => Err(PersistError::InvalidTimestamp),
        }
    }

    /// Converts a whole batch for one bulk write: the records, in order,
    /// exactly when every entry converts, otherwise the first entry's error.
    /// An empty batch converts to an empty write, a no-op success.
    pub fn from_bulk(items: &Vec<LogRequest>) -> (r: Result<Vec<Log>, PersistError>)
        ensures
            match r {
                Ok(logs) => logs@.len() == items@.len() && forall|i: int|
                    0 <= i < items@.len() ==> convertible(#[trigger] items@[i]) && converted(
                        logs@[i],
                        items@[i],
                    ),
                Err(e) => exists|i: int|
                    {
                        &&& 0 <= i < items@.len()
                        &&& !convertible(#[trigger] items@[i])
                        &&& e == item_error(items@[i])
                        &&& forall|j: int| 0 <= j < i ==> convertible(#[trigger] items@[j])
                    },
            },
    {
        let mut logs: Vec<Log> = Vec::new();
        let mut idx: usize = 0;
        while idx < items.len()
            invariant
                idx <= items@.len(),
                logs@.len() == idx,
                forall|i: int|
                    0 <= i < idx ==> convertible(#[trigger] items@[i]) && converted(
                        logs@[i],
                        items@[i],
                    ),
            decreases items@.len() - idx,
        {
            match Log::try_from_request(&items[idx]) {
                Ok(log) => {
                    logs.push(log);
                },
                Err(e) => {
                    return Err(e);
                },
            }
            idx += 1;
        }
        Ok(logs)
    }
}

} // verus!
