use vstd::prelude::*;

verus! {

/// The input clock of the programmable interval timer, in Hz.
pub const PIT_FREQUENCY: u32 = 1193180;

/// The command byte that puts timer channel 2 into square-wave mode, loaded
/// low byte first.
pub const PIT_CHANNEL_2_SQUARE_WAVE: u8 = 0xb6;

/// The divisor that makes the timer tick at `frequency` Hz.
pub fn pit_divisor(frequency: u16) -> (r: u32)
    requires
        frequency > 0,
    ensures
        r == PIT_FREQUENCY / (frequency as u32),
{
    PIT_FREQUENCY / (frequency as u32)
}

/// The divisor as the two bytes the timer port takes: low, then high.
pub fn divisor_bytes(divisor: u32) -> (r: (u8, u8))
    ensures
        r.0 == divisor % 256,
        r.1 == (divisor / 256) % 256,
{
    assert((divisor & 0xff) == divisor % 256 && ((divisor >> 8u32) & 0xff) == (divisor / 256) % 256)
        by (bit_vector);
    ((divisor & 0xff) as u8, ((divisor >> 8u32) & 0xff) as u8)
}

/// The speaker control byte with the speaker gate and data bits (the low
/// two bits) set, the rest kept.
pub fn speaker_on(state: u8) -> (r: u8)
    ensures
        r % 4 == 3,
        r / 4 == state / 4,
{
    assert((state | 3u8) % 4 == 3 && (state | 3u8) / 4 == state / 4) by (bit_vector);
    state | 3u8
}

/// The speaker control byte with the low two bits cleared, the rest kept.
pub fn speaker_off(state: u8) -> (r: u8)
    ensures
        r % 4 == 0,
        r / 4 == state / 4,
{
    assert((state & !3u8) % 4 == 0 && (state & !3u8) / 4 == state / 4) by (bit_vector);
    state & !3u8
}

} // verus!
