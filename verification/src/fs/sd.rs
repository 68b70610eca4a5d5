use vstd::prelude::*;

verus! {

/// Why the card controller could not be initialized, each with the error
/// code that the controller left behind.
#[derive(Debug, PartialEq, Eq, Copy, Clone, Structural)]
pub enum Error {
    Timeout(i64),
    CommandError(i64),
    UnknownReturnCode(i64),
}

/// Why a sector could not be read.
#[derive(Debug, PartialEq, Eq, Copy, Clone, Structural)]
pub enum ReadError {
    /// The buffer is shorter than a sector, or the number of the sector is
    /// out of range.
    InvalidInput,
    /// The card did not answer in time.
    TimedOut,
    /// A command could not be sent to the controller.
    Command,
    /// The controller failed in another way.
    Unknown,
}

/// The bytes of a sector.
pub const SECTOR_SIZE: usize = 512;

/// The largest number of a sector that can be asked for.
pub const MAX_SECTOR: u64 = 0xffff_ffff;

/// A handle to the card controller.
#[derive(Debug, PartialEq, Eq, Copy, Clone, Structural)]
pub struct Sd;

impl Sd {
    /// Makes a handle to the card controller from the status with which its
    /// initialization returned and the error code `sd_err` that it left
    /// behind: zero is success, minus one a timeout, minus two a command
    /// that could not be sent.
    pub fn new(status: i32, sd_err: i64) -> (handle: Result<Sd, Error>)
        ensures
            handle == if status == 0 {
                Ok::<Sd, Error>(Sd)
            } else if status == -1 {
                Err::<Sd, Error>(Error::Timeout(sd_err))
            } else if status == -2 {
                Err::<Sd, Error>(Error::CommandError(sd_err))
            } else {
                Err::<Sd, Error>(Error::UnknownReturnCode(sd_err))
            },
    {
        match status {
            0 => Ok(Sd),
            -1 => Err(Error::Timeout(sd_err)),
            -2 => Err(Error::CommandError(sd_err)),
            _ => Err(Error::UnknownReturnCode(sd_err)),
        }
    }

    /// Whether sector `n` can be read into a buffer of `len` bytes.
    pub open spec fn readable(n: u64, len: usize) -> bool {
        len >= SECTOR_SIZE && n <= MAX_SECTOR
    }

    /// Checks a request to read sector `n` into a buffer of `len` bytes, and
    /// returns the number of the sector as the controller takes it: the low
    /// thirty-two bits, read as a signed number.
    pub fn request(&self, n: u64, len: usize) -> (sector: Result<i32, ReadError>)
        ensures
            sector is Ok <==> Sd::readable(n, len),
            sector matches Err(error) ==> error == ReadError::InvalidInput,
            sector matches Ok(number) ==> number as int == if n < 0x8000_0000 {
                n as int
            } else {
                n - 0x1_0000_0000
            },
    {
        if len < SECTOR_SIZE || n > MAX_SECTOR {
            return Err(ReadError::InvalidInput);
        }
        if n < 0x8000_0000 {
            Ok(n as i32)
        } else {
            Ok((n - 0x8000_0000) as i32 - 0x4000_0000 - 0x4000_0000)
        }
    }

    /// Reads the outcome of reading a sector off the number `ret` that the
    /// controller returned: the number of bytes read where it is positive,
    /// otherwise a timeout for minus one, a command that could not be sent
    /// for minus two, and an unknown failure for anything else.
    pub fn read_sector(&self, ret: i32) -> (read: Result<usize, ReadError>)
        ensures
            read == if ret > 0 {
                Ok::<usize, ReadError>(ret as usize)
            } else if ret == -1 {
                Err::<usize, ReadError>(ReadError::TimedOut)
            } else if ret == -2 {
                Err::<usize, ReadError>(ReadError::Command)
            } else {
                Err::<usize, ReadError>(ReadError::Unknown)
            },
    {
        if ret > 0 {
            Ok(ret as usize)
        } else if ret == -1 {
            Err(ReadError::TimedOut)
        } else if ret == -2 {
            Err(ReadError::Command)
        } else {
            Err(ReadError::Unknown)
        }
    }
}

} // verus!
