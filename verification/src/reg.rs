//! The decisions of reading a registry value of unknown size: how large a buffer to start
//! with, when to grow it, and how to read a double word from what was read.
use vstd::prelude::*;
use crate::perf::provide::ERROR_MORE_DATA;
use crate::perf::raw::{read_u32, u32_at};

verus! {

/// The buffer size to start with when nothing better is known.
pub const INITIAL_BUFFER_SIZE: usize = 8192;

/// The largest buffer tried: one gigabyte.
pub const MAX_BUFFER_SIZE: usize = 1073741824;

/// `ERROR_SUCCESS`.
pub const ERROR_SUCCESS: u32 = 0;

/// `ERROR_INVALID_DATA`.
pub const ERROR_INVALID_DATA: u32 = 13;

/// `REG_DWORD`, the type of a 32-bit value.
pub const REG_DWORD: u32 = 4;

/// Whether `s` begins with `prefix`.
pub fn starts_with(s: &str, prefix: &str) -> (r: bool)
    ensures
        r == (prefix@.len() <= s@.len() && s@.take(prefix@.len() as int) == prefix@),
{
    let n = prefix.unicode_len();
    if n > s.unicode_len() {
        return false;
    }
    let mut i: usize = 0;
    while i < n
        invariant
            n == prefix@.len(),
            n <= s@.len(),
            i <= n,
            forall|j: int| 0 <= j < i ==> s@[j] == prefix@[j],
        decreases n - i,
    {
        if s.get_char(i) != prefix.get_char(i) {
            assert(s@.take(n as int)[i as int] != prefix@[i as int]);
            return false;
        }
        i = i + 1;
    }
    assert(s@.take(n as int) =~= prefix@);
    true
}

/// Whether the registry may be asked for the size of a value before reading it: not for
/// performance data other than the names ("Counter...") and help texts ("Help...").
pub fn can_use_size_hint(is_performance_data: bool, value_name: &str) -> (r: bool)
    ensures
        r == !(is_performance_data && !(value_name@.len() >= 7 && value_name@.take(7) == "Counter"@)
            && !(value_name@.len() >= 4 && value_name@.take(4) == "Help"@)),
{
    proof {
        reveal_strlit("Counter");
        reveal_strlit("Help");
    }
    let counter = starts_with(value_name, "Counter");
    let help = starts_with(value_name, "Help");
    !(is_performance_data && !counter && !help)
}

/// The size of the first buffer: the caller's hint unless it is zero, else the size the
/// registry gave, else `INITIAL_BUFFER_SIZE`.
pub fn initial_buffer_size(hint: Option<usize>, registry_hint: Option<u32>) -> (r: usize)
    ensures
        r == match hint {
            Some(h) => if h == 0 { INITIAL_BUFFER_SIZE } else { h },
            None => match registry_hint {
                Some(h) => h as usize,
                None => INITIAL_BUFFER_SIZE,
            },
        },
{
    match hint {
        Some(0) => INITIAL_BUFFER_SIZE,
        Some(h) => h,
        None => match registry_hint {
            Some(h) => h as usize,
            None => INITIAL_BUFFER_SIZE,
        },
    }
}

/// What to do after a read of the value.
#[derive(Clone, Copy, Debug, PartialEq, Eq, Structural)]
pub enum QueryStep {
    /// The value was read.
    Done,
    /// The buffer was too small: read again with a buffer of this size.
    Retry(usize),
    /// The buffer would have to grow beyond `MAX_BUFFER_SIZE`, to this size.
    TooLarge(usize),
    /// The read failed with this error code.
    Failed(u32),
}

/// The next step after a read with a buffer of `buffer_size` bytes that ended with
/// `error_code`: on `ERROR_MORE_DATA` the buffer doubles (an empty one grows to
/// `INITIAL_BUFFER_SIZE`), up to `MAX_BUFFER_SIZE`.
pub fn after_query(buffer_size: usize, error_code: u32) -> (r: QueryStep)
    requires
        buffer_size <= usize::MAX / 2,
    ensures
        r == (if error_code == ERROR_MORE_DATA {
            let grown = if buffer_size == 0 { INITIAL_BUFFER_SIZE as int } else { 2 * buffer_size };
            if grown > MAX_BUFFER_SIZE {
                QueryStep::TooLarge(grown as usize)
            } else {
                QueryStep::Retry(grown as usize)
            }
        } else if error_code == ERROR_SUCCESS {
            QueryStep::Done
        } else {
            QueryStep::Failed(error_code)
        }),
{
    if error_code == ERROR_MORE_DATA {
        let increment = if buffer_size == 0 {
            INITIAL_BUFFER_SIZE
        } else {
            buffer_size
        };
        let grown = buffer_size + increment;
        if grown > MAX_BUFFER_SIZE {
            QueryStep::TooLarge(grown)
        } else {
            QueryStep::Retry(grown)
        }
    } else if error_code == ERROR_SUCCESS {
        QueryStep::Done
    } else {
        QueryStep::Failed(error_code)
    }
}

/// Why a registry value is not a double word; both are `ERROR_INVALID_DATA`.
#[derive(Clone, Copy, Debug, PartialEq, Eq, Structural)]
pub enum DwordError {
    /// The value has another type.
    UnexpectedType(u32),
    /// The value does not have four bytes.
    UnexpectedSize(usize),
}

impl DwordError {
    /// The error code: `ERROR_INVALID_DATA`.
    pub fn code(&self) -> (r: u32)
        ensures
            r == ERROR_INVALID_DATA,
    {
        ERROR_INVALID_DATA
    }
}

/// The double word of a value read from the registry: its type must be `REG_DWORD` and it
/// must have four bytes, little-endian as on Windows.
pub fn query_value_dword(value_type: u32, buffer: &[u8]) -> (r: Result<u32, DwordError>)
    ensures
        r == (if value_type != REG_DWORD {
            Err(DwordError::UnexpectedType(value_type))
        } else if buffer@.len() != 4 {
            Err(DwordError::UnexpectedSize(buffer@.len() as usize))
        } else {
            Ok(u32_at(buffer@, 0))
        }),
{
    if value_type != REG_DWORD {
        return Err(DwordError::UnexpectedType(value_type));
    }
    if buffer.len() != 4 {
        return Err(DwordError::UnexpectedSize(buffer.len()));
    }
    Ok(read_u32(buffer, 0))
}

} // verus!
