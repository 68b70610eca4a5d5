use vstd::prelude::*;

verus! {

/// The divider of the clock that gives 115200 baud.
pub const BAUD_DIVIDER: u16 = 270;

/// The bit of the line status register that says a byte has arrived.
pub const DATA_READY: u8 = 1;

/// The bit of the line status register that says a byte can be sent.
pub const TX_AVAILABLE: u8 = 1 << 5;

/// The byte that begins a new line.
pub const LINE_FEED: u8 = 0x0a;

/// The byte that returns to the beginning of the line.
pub const CARRIAGE_RETURN: u8 = 0x0d;

/// Tells whether the line status `status` says that a byte has arrived.
pub fn has_byte(status: u8) -> (ready: bool)
    ensures
        ready == (status & DATA_READY == DATA_READY),
{
    status & DATA_READY == DATA_READY
}

/// Tells whether the line status `status` says that a byte can be sent.
pub fn can_write(status: u8) -> (free: bool)
    ensures
        free == (status & TX_AVAILABLE == TX_AVAILABLE),
{
    status & TX_AVAILABLE == TX_AVAILABLE
}

/// Whether a wait for a byte that began at the clock reading `start`, in
/// microseconds, is over at the reading `now`: a timeout of that many
/// milliseconds is set, and more time than that has gone by.
pub open spec fn expired(start: u64, timeout: Option<u64>, now: u64) -> bool {
    match timeout {
        Some(millis) => start + millis * 1000 < now,
        None => false,
    }
}

/// Tells whether the wait for a byte that began at the clock reading
/// `start`, in microseconds, has timed out at the reading `now`. Without a
/// timeout the wait never times out.
pub fn wait_for_byte(start: u64, timeout: Option<u64>, now: u64) -> (timed_out: bool)
    ensures
        timed_out == expired(start, timeout, now),
{
    match timeout {
        Some(millis) => {
            if now <= start {
                return false;
            }
            let allowed: u64 = now - start;
            // More than `allowed` microseconds of timeout have not gone by yet.
            if millis >= allowed / 1000 + 1 {
                assert(millis * 1000 >= allowed) by (nonlinear_arith)
                    requires
                        millis >= allowed / 1000 + 1,
                ;
                false
            } else {
                assert(millis * 1000 <= allowed) by (nonlinear_arith)
                    requires
                        millis <= allowed / 1000,
                        0 <= millis,
                ;
                millis * 1000 < allowed
            }
        },
        None => false,
    }
}

/// The bytes that go out for `text`: each line feed with a carriage return
/// before it, every other byte as it is.
pub open spec fn expanded(text: Seq<u8>) -> Seq<u8>
    decreases text.len(),
{
    if text.len() == 0 {
        Seq::empty()
    } else if text.last() == LINE_FEED {
        expanded(text.drop_last()).push(CARRIAGE_RETURN).push(LINE_FEED)
    } else {
        expanded(text.drop_last()).push(text.last())
    }
}

/// Returns the bytes that are sent for `string`, in order: a carriage
/// return goes out before every line feed.
pub fn write_str(string: &[u8]) -> (sent: Vec<u8>)
    ensures
        sent@ == expanded(string@),
{
    let mut sent: Vec<u8> = Vec::new();
    let mut i: usize = 0;
    proof {
        assert(string@.take(0) == Seq::<u8>::empty());
    }
    while i < string.len()
        invariant
            i <= string@.len(),
            sent@ == expanded(string@.take(i as int)),
        decreases string@.len() - i,
    {
        proof {
            assert(string@.take(i + 1).drop_last() == string@.take(i as int));
            assert(string@.take(i + 1).last() == string@[i as int]);
        }
        let byte: u8 = string[i];
        if byte == LINE_FEED {
            sent.push(CARRIAGE_RETURN);
        }
        sent.push(byte);
        i += 1;
    }
    proof {
        assert(string@.take(string@.len() as int) == string@);
    }
    sent
}

} // verus!
