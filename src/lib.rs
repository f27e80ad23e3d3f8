//! A driver for the ROHM BD18378 twelve-channel LED driver IC, which is controlled
//! over a full-duplex SPI bus.
//!
//! Every bus transfer that the driver makes is recorded in a ghost log (see
//! [`BusTransfer`]), so that the contracts can say exactly which bytes went out,
//! in which order, and how each reply decided the outcome.
use vstd::prelude::*;
use vstd::arithmetic::power2::{pow2, lemma2_to64, lemma_pow2_pos, lemma_pow2_unfold};
use vstd::bits::lemma_u8_shl_is_mul;
use embedded_hal::spi::SpiDevice;
use crate::bus::{Bus, BusTransfer};
use crate::registers::WriteRegister;

pub mod bus;
pub mod registers;

verus! {

/// The number of LED channels per channel-enable register.
const CHANNELS_PER_REGISTER: usize = 6;

/// The total number of LED channels of the IC.
const CHANNELS_PER_IC: usize = 12;

/// The errors that an operation on the IC can return.
#[derive(Debug, Clone, Copy, PartialEq, Eq, Structural)]
pub enum Error {
    /// The SPI device reported a failure of a transfer.
    BusError,
    /// A reply during initialization did not echo the previous transfer.
    CommunicationError,
    /// The device was not initialized after the initialization sequence.
    InitFailed,
    /// The operation needs a successful `init()` first.
    NotInitialized,
    /// The channel index is not below 12.
    InvalidChannel,
}

/// The result of an operation on the IC.
pub type OperationResult = Result<(), Error>;

/// The abstract state of a driver.
pub struct DriverState {
    /// Whether the initialization handshake has completed.
    pub initialized: bool,
    /// The requested enable state of each of the 12 channels.
    pub channels: Seq<bool>,
    /// Every transfer made on the bus so far, oldest first.
    pub transfers: Seq<BusTransfer>,
}

/// The register writes of the initialization handshake, in order: the fifteen
/// writes from the datasheet, then the write of 0x3F to the status-reset register.
pub open spec fn handshake() -> Seq<(u8, u8)> {
    seq![
        (0x6Cu8, 0xA1u8),
        (0x6Cu8, 0xA1u8),
        (0xB5u8, 0x9Eu8),
        (0xB6u8, 0x00u8),
        (0xB5u8, 0x9Eu8),
        (0xB7u8, 0x00u8),
        (0xB5u8, 0x9Eu8),
        (0xB8u8, 0x00u8),
        (0xB5u8, 0x9Eu8),
        (0xB9u8, 0x00u8),
        (0x79u8, 0xD6u8),
        (0x7Au8, 0x00u8),
        (0x79u8, 0xD6u8),
        (0x7Bu8, 0x00u8),
        (0x6Cu8, 0xA1u8),
        (0x6Bu8, 0x3Fu8),
    ]
}

/// Whether the reply to handshake write `i` is accepted: the replies to writes 1
/// to 14 must echo the write before them; the first reply and the reply to the
/// status reset are not checked.
pub open spec fn reply_accepted(i: int, reply: (u8, u8)) -> bool {
    1 <= i < 15 ==> reply == handshake()[i - 1]
}

/// Whether handshake write `i` went through: the transport succeeded and the
/// reply is accepted.
pub open spec fn step_passes(i: int, t: BusTransfer) -> bool {
    match t.reply {
        Some(reply) => reply_accepted(i, reply),
        None => false,
    }
}

/// Whether `issued` is what one call of `init()` puts on the bus: the handshake
/// writes in order, each one made only after all earlier ones passed, up to the
/// first that fails or to the end of the handshake.
pub open spec fn is_handshake_run(issued: Seq<BusTransfer>) -> bool {
    &&& 1 <= issued.len() <= 16
    &&& forall|i: int| 0 <= i < issued.len() ==> (#[trigger] issued[i]).sent == handshake()[i]
    &&& forall|i: int| 0 <= i < issued.len() - 1 ==> step_passes(i, #[trigger] issued[i])
    &&& issued.len() < 16 ==> !step_passes(issued.len() - 1, issued.last())
}

/// The outcome of a handshake run: a transport failure of its last write is a
/// `BusError`, a rejected reply a `CommunicationError`, and a run whose writes all
/// passed succeeds.
pub open spec fn handshake_verdict(issued: Seq<BusTransfer>) -> OperationResult {
    let last = issued.last();
    match last.reply {
        None => Err(Error::BusError),
        Some(reply) => if reply_accepted(issued.len() - 1, reply) {
            Ok(())
        } else {
            Err(Error::CommunicationError)
        },
    }
}

/// A handshake run succeeds iff all sixteen transfers went through at the
/// transport level and every reply from the second to the sixteenth equals the
/// bytes sent in the transfer before it. The reply to the status-reset write is
/// not checked by `init()`, so the law is stated of runs whose sixteenth reply,
/// when there is one, echoes the fifteenth write.
pub proof fn lemma_init_succeeds_iff_all_echoed(issued: Seq<BusTransfer>)
    requires
        is_handshake_run(issued),
        issued.len() == 16 && issued[15].reply is Some ==> issued[15].reply == Some(issued[14].sent),
    ensures
        handshake_verdict(issued) is Ok <==> {
            &&& issued.len() == 16
            &&& forall|i: int| 0 <= i < 16 ==> (#[trigger] issued[i]).reply is Some
            &&& forall|i: int| 1 <= i < 16 ==> (#[trigger] issued[i]).reply == Some(issued[i - 1].sent)
        },
{
    if handshake_verdict(issued) is Ok {
        assert(issued.len() == 16);
        assert forall|i: int| 1 <= i < 16 implies (#[trigger] issued[i]).reply == Some(issued[i - 1].sent) by {
            assert(step_passes(i, issued[i]));
            assert(issued[i - 1].sent == handshake()[i - 1]);
        }
        assert forall|i: int| 0 <= i < 16 implies (#[trigger] issued[i]).reply is Some by {
            assert(step_passes(i, issued[i]));
        }
    }
}

/// The transfers added to the log by a call, given the log before and after it.
pub open spec fn new_transfers(before: DriverState, after: DriverState) -> Seq<BusTransfer> {
    after.transfers.subrange(before.transfers.len() as int, after.transfers.len() as int)
}

/// Whether the log after a call extends the log before it.
pub open spec fn extends_log(before: DriverState, after: DriverState) -> bool {
    &&& before.transfers.len() <= after.transfers.len()
    &&& after.transfers.subrange(0, before.transfers.len() as int) == before.transfers
}

/// The sum, over the enabled channels `ch` in `start..end`, of `2^(ch - offset)`:
/// the byte in which bit `ch - offset` stands for channel `ch`.
pub open spec fn enabled_bits(channels: Seq<bool>, start: int, end: int, offset: int) -> nat
    decreases end - start,
{
    if end <= start {
        0
    } else {
        enabled_bits(channels, start, end - 1, offset) + if channels[end - 1] {
            pow2((end - 1 - offset) as nat)
        } else {
            0
        }
    }
}

/// The value of the channel-enable register of the group of six channels that
/// starts at `first`: bit `k` is set iff channel `first + k` is enabled.
pub open spec fn group_mask(channels: Seq<bool>, first: int) -> nat {
    enabled_bits(channels, first, first + 6, first)
}

/// Setting bit `k` of a byte below `2^k` adds `2^k` to it.
proof fn lemma_set_bit(v: u8, k: u8)
    requires
        k < 8,
        (v as nat) < pow2(k as nat),
    ensures
        (1u8 << k) as nat == pow2(k as nat),
        (v | (1u8 << k)) as nat == v as nat + pow2(k as nat),
{
    lemma2_to64();
    assert(pow2(k as nat) <= 128) by {
        if k == 0 {} else if k == 1 {} else if k == 2 {} else if k == 3 {}
        else if k == 4 {} else if k == 5 {} else if k == 6 {} else {}
    }
    lemma_u8_shl_is_mul(1u8, k);
    assert(v | (1u8 << k) == v + (1u8 << k)) by (bit_vector)
        requires
            k < 8,
            v < (1u8 << k),
    ;
}

/// A driver for one BD18378 IC, bound to the SPI device that reaches it.
pub struct Bd18378<'a, SPI> {
    bus: Bus<'a, SPI>,
    is_initialized: bool,
    channel_enable: [bool; 12],
}

impl<'a, SPI> View for Bd18378<'a, SPI> {
    type V = DriverState;

    closed spec fn view(&self) -> DriverState {
        DriverState {
            initialized: self.is_initialized,
            channels: self.channel_enable@,
            transfers: self.bus.log(),
        }
    }
}

impl<'a, SPI: SpiDevice> Bd18378<'a, SPI> {
    /// Creates a driver for the IC behind `spi`: not initialized, all channels
    /// disabled, nothing sent.
    pub fn new(spi: &'a mut SPI) -> (r: Self)
        ensures
            !r@.initialized,
            r@.channels == Seq::new(12, |i: int| false),
            r@.transfers == Seq::<BusTransfer>::empty(),
    {
        let r = Bd18378 {
            bus: Bus::new(spi),
            is_initialized: false,
            channel_enable: [false; CHANNELS_PER_IC],
        };
        assert(r.channel_enable@ =~= Seq::new(12, |i: int| false));
        r
    }

    /// Returns whether the initialization handshake has completed. This is a flag
    /// of the driver, not a live reading of the IC.
    pub fn is_initialized(&self) -> (r: bool)
        ensures
            r == self@.initialized,
    {
        self.is_initialized
    }

    /// Runs the initialization handshake: the fifteen datasheet writes in order,
    /// each reply from the second on checked against the write before it, then
    /// the status-reset write. The driver is initialized only if all of it passed;
    /// the first failure ends the call.
    pub fn init(&mut self) -> (r: OperationResult)
        ensures
            extends_log(old(self)@, final(self)@),
            is_handshake_run(new_transfers(old(self)@, final(self)@)),
            r == handshake_verdict(new_transfers(old(self)@, final(self)@)),
            final(self)@.initialized == (old(self)@.initialized || r is Ok),
            final(self)@.channels == old(self)@.channels,
    {
        let ghost s0 = self@;
        let seq = Self::get_init_sequence();
        let mut old_data: [u8; 2] = [0x00u8, 0x00u8];
        let mut i: usize = 0;
        assert(s0 == old(self)@);
        assert(s0.transfers.subrange(0, s0.transfers.len() as int) =~= s0.transfers);
        while i < 15
            invariant
                0 <= i <= 15,
                s0 == old(self)@,
                forall|j: int| 0 <= j < 15 ==> (#[trigger] seq[j].0.spec_address(), seq[j].1) == handshake()[j],
                extends_log(s0, self@),
                self@.transfers.len() == s0.transfers.len() + i,
                forall|j: int| 0 <= j < i ==> (#[trigger] new_transfers(s0, self@)[j]).sent == handshake()[j],
                forall|j: int| 0 <= j < i ==> step_passes(j, #[trigger] new_transfers(s0, self@)[j]),
                i > 0 ==> (old_data[0], old_data[1]) == handshake()[i - 1],
                self@.initialized == s0.initialized,
                self@.channels == s0.channels,
            decreases 15 - i,
        {
            let ghost s1 = self@;
            let (reg, value) = seq[i];
            let res = self.write_register(reg, value);
            proof {
                let issued = new_transfers(s0, self@);
                assert forall|j: int| 0 <= j < i implies #[trigger] issued[j] == new_transfers(s0, s1)[j] by {
                    assert(self@.transfers.subrange(0, s1.transfers.len() as int) == s1.transfers);
                    assert(self@.transfers[s0.transfers.len() + j] == s1.transfers[s0.transfers.len() + j]);
                }
                assert(issued[i as int] == self@.transfers.last());
                assert(self@.transfers.subrange(0, s0.transfers.len() as int) =~= s0.transfers);
            }
            let data = match res {
                Ok(data) => data,
                Err(e) => {
                    return Err(e);
                },
            };
            if i > 0 && (data[0] != old_data[0] || data[1] != old_data[1]) {
                return Err(Error::CommunicationError);
            }
            old_data = [reg.address(), value];
            i = i + 1;
        }
        let ghost s1 = self@;
        let res = self.reset_status_register();
        proof {
            let issued = new_transfers(s0, self@);
            assert forall|j: int| 0 <= j < 15 implies #[trigger] issued[j] == new_transfers(s0, s1)[j] by {
                assert(self@.transfers.subrange(0, s1.transfers.len() as int) == s1.transfers);
                assert(self@.transfers[s0.transfers.len() + j] == s1.transfers[s0.transfers.len() + j]);
            }
            assert(issued[15] == self@.transfers.last());
            assert(self@.transfers.subrange(0, s0.transfers.len() as int) =~= s0.transfers);
        }
        if res.is_err() {
            return Err(Error::BusError);
        }
        self.is_initialized = true;
        Ok(())
    }

    /// The fifteen register writes of the datasheet's initialization sequence.
    fn get_init_sequence() -> (r: [(WriteRegister, u8); 15])
        ensures
            forall|j: int| 0 <= j < 15 ==> (#[trigger] r[j].0.spec_address(), r[j].1) == handshake()[j],
    {
        let r = [
            (WriteRegister::SoftwareReset, 0b1010_0001u8),
            (WriteRegister::SoftwareReset, 0b1010_0001u8),
            (WriteRegister::ReservedB5, 0b1001_1110u8),
            (WriteRegister::ReservedB6, 0b0000_0000u8),
            (WriteRegister::ReservedB5, 0b1001_1110u8),
            (WriteRegister::ReservedB7, 0b0000_0000u8),
            (WriteRegister::ReservedB5, 0b1001_1110u8),
            (WriteRegister::ReservedB8, 0b0000_0000u8),
            (WriteRegister::ReservedB5, 0b1001_1110u8),
            (WriteRegister::ReservedB9, 0b0000_0000u8),
            (WriteRegister::Reserved79, 0b1101_0110u8),
            (WriteRegister::Reserved7A, 0b0000_0000u8),
            (WriteRegister::Reserved79, 0b1101_0110u8),
            (WriteRegister::Reserved7B, 0b0000_0000u8),
            (WriteRegister::SoftwareReset, 0b1010_0001u8),
        ];
        assert(forall|j: int| 0 <= j < 15 ==> (#[trigger] r[j].0.spec_address(), r[j].1) == handshake()[j]);
        r
    }

    /// Clears the six status bits by writing 0x3F to the status-reset register.
    fn reset_status_register(&mut self) -> (r: OperationResult)
        ensures
            final(self)@.initialized == old(self)@.initialized,
            final(self)@.channels == old(self)@.channels,
            final(self)@.transfers.len() == old(self)@.transfers.len() + 1,
            extends_log(old(self)@, final(self)@),
            final(self)@.transfers.last().sent == (0x6Bu8, 0x3Fu8),
            r is Ok <==> final(self)@.transfers.last().reply is Some,
            r is Err ==> r == Err::<(), Error>(Error::BusError),
    {
        match self.write_register(WriteRegister::StatusReset, 0b0011_1111u8) {
            Ok(_) => Ok(()),
            Err(e) => Err(e),
        }
    }

    /// Requests channel `ch` enabled. Nothing is sent: `update_all_channels()`
    /// applies the request.
    pub fn enable_channel(&mut self, ch: usize) -> (r: OperationResult)
        ensures
            ch >= 12 ==> r == Err::<(), Error>(Error::InvalidChannel) && final(self)@ == old(self)@,
            ch < 12 && !old(self)@.initialized ==> r == Err::<(), Error>(Error::NotInitialized)
                && final(self)@ == old(self)@,
            ch < 12 && old(self)@.initialized ==> r is Ok
                && final(self)@.channels == old(self)@.channels.update(ch as int, true)
                && final(self)@.initialized == old(self)@.initialized
                && final(self)@.transfers == old(self)@.transfers,
    {
        if ch >= self.channel_enable.len() {
            return Err(Error::InvalidChannel);
        }
        if let Err(e) = self.check_initialized() {
            return Err(e);
        }
        self.channel_enable[ch] = true;
        Ok(())
    }

    /// Requests channel `ch` disabled. Nothing is sent: `update_all_channels()`
    /// applies the request.
    pub fn disable_channel(&mut self, ch: usize) -> (r: OperationResult)
        ensures
            ch >= 12 ==> r == Err::<(), Error>(Error::InvalidChannel) && final(self)@ == old(self)@,
            ch < 12 && !old(self)@.initialized ==> r == Err::<(), Error>(Error::NotInitialized)
                && final(self)@ == old(self)@,
            ch < 12 && old(self)@.initialized ==> r is Ok
                && final(self)@.channels == old(self)@.channels.update(ch as int, false)
                && final(self)@.initialized == old(self)@.initialized
                && final(self)@.transfers == old(self)@.transfers,
    {
        if ch >= self.channel_enable.len() {
            return Err(Error::InvalidChannel);
        }
        if let Err(e) = self.check_initialized() {
            return Err(e);
        }
        self.channel_enable[ch] = false;
        Ok(())
    }

    /// Sends the requested channel states to the IC: the mask of channels 0 to 5
    /// to register 0x56, then the mask of channels 6 to 11 to register 0x57. A
    /// transport failure of the first write ends the call.
    pub fn update_all_channels(&mut self) -> (r: OperationResult)
        ensures
            !old(self)@.initialized ==> r == Err::<(), Error>(Error::NotInitialized)
                && final(self)@ == old(self)@,
            old(self)@.initialized ==> {
                let issued = new_transfers(old(self)@, final(self)@);
                let channels = old(self)@.channels;
                &&& extends_log(old(self)@, final(self)@)
                &&& final(self)@.initialized == old(self)@.initialized
                &&& final(self)@.channels == channels
                &&& 1 <= issued.len() <= 2
                &&& issued[0].sent.0 == 0x56 && issued[0].sent.1 as nat == group_mask(channels, 0)
                &&& issued[0].reply is None ==> issued.len() == 1 && r == Err::<(), Error>(Error::BusError)
                &&& issued[0].reply is Some ==> {
                    &&& issued.len() == 2
                    &&& issued[1].sent.0 == 0x57 && issued[1].sent.1 as nat == group_mask(channels, 6)
                    &&& r is Ok <==> issued[1].reply is Some
                    &&& r is Err ==> r == Err::<(), Error>(Error::BusError)
                }
            },
    {
        if let Err(e) = self.check_initialized() {
            return Err(e);
        }
        let ghost s0 = self@;
        let first_group_value = self.compute_channel_group_value(0, CHANNELS_PER_REGISTER, 0);
        let res = self.write_register(WriteRegister::ChannelEnable00To05, first_group_value);
        let ghost s1 = self@;
        proof {
            assert(new_transfers(s0, s1)[0] == s1.transfers.last());
        }
        if res.is_err() {
            return Err(Error::BusError);
        }
        let second_group_value = self.compute_channel_group_value(
            CHANNELS_PER_REGISTER,
            CHANNELS_PER_IC,
            CHANNELS_PER_REGISTER,
        );
        let res = self.write_register(WriteRegister::ChannelEnable06To11, second_group_value);
        proof {
            let issued = new_transfers(s0, self@);
            assert(self@.transfers.subrange(0, s1.transfers.len() as int) == s1.transfers);
            assert(issued[0] == self@.transfers[s0.transfers.len() as int]);
            assert(issued[1] == self@.transfers.last());
            assert(self@.transfers.subrange(0, s0.transfers.len() as int) =~= s0.transfers);
        }
        if res.is_err() {
            return Err(Error::BusError);
        }
        Ok(())
    }

    /// Writes the calibration byte `value` of channel `ch` to its calibration
    /// register (0x48 + `ch`), in one transfer whose reply is not checked.
    pub fn set_channel_calibration(&mut self, ch: usize, value: u8) -> (r: OperationResult)
        ensures
            ch >= 12 ==> r == Err::<(), Error>(Error::InvalidChannel) && final(self)@ == old(self)@,
            ch < 12 && !old(self)@.initialized ==> r == Err::<(), Error>(Error::NotInitialized)
                && final(self)@ == old(self)@,
            ch < 12 && old(self)@.initialized ==> {
                &&& extends_log(old(self)@, final(self)@)
                &&& final(self)@.initialized == old(self)@.initialized
                &&& final(self)@.channels == old(self)@.channels
                &&& final(self)@.transfers.len() == old(self)@.transfers.len() + 1
                &&& final(self)@.transfers.last().sent == ((0x48 + ch) as u8, value)
                &&& r is Ok <==> final(self)@.transfers.last().reply is Some
                &&& r is Err ==> r == Err::<(), Error>(Error::BusError)
            },
    {
        if ch >= CHANNELS_PER_IC {
            return Err(Error::InvalidChannel);
        }
        if let Err(e) = self.check_initialized() {
            return Err(e);
        }
        match self.write_register(WriteRegister::calibration(ch), value) {
            Ok(_) => Ok(()),
            Err(e) => Err(e),
        }
    }

    /// The mask of the channels in `start..end`, with channel `ch` at bit `ch - offset`.
    fn compute_channel_group_value(&self, start: usize, end: usize, offset: usize) -> (r: u8)
        requires
            offset <= start,
            end <= 12,
            end <= offset + 8,
        ensures
            r as nat == enabled_bits(self@.channels, start as int, end as int, offset as int),
    {
        let mut group_value: u8 = 0u8;
        let mut ch: usize = start;
        proof {
            lemma2_to64();
            lemma_pow2_pos((start - offset) as nat);
        }
        while ch < end
            invariant
                offset <= start <= ch,
                ch <= end || ch == start,
                end <= 12,
                end <= offset + 8,
                group_value as nat == enabled_bits(self@.channels, start as int, ch as int, offset as int),
                (group_value as nat) < pow2((ch - offset) as nat),
            decreases end - ch,
        {
            let k: u8 = (ch - offset) as u8;
            proof {
                lemma_pow2_unfold((k + 1) as nat);
            }
            if self.channel_enable[ch] {
                proof {
                    lemma_set_bit(group_value, k);
                }
                group_value |= 1u8 << k;
            }
            ch = ch + 1;
        }
        group_value
    }

    /// `Ok` iff the driver is initialized, `NotInitialized` otherwise.
    fn check_initialized(&self) -> (r: OperationResult)
        ensures
            r is Ok <==> self@.initialized,
            r is Err ==> r == Err::<(), Error>(Error::NotInitialized),
    {
        if !self.is_initialized {
            return Err(Error::NotInitialized);
        }
        Ok(())
    }

    /// Writes `value` to `register`, returning the two bytes read back.
    fn write_register(&mut self, register: WriteRegister, value: u8) -> (r: Result<[u8; 2], Error>)
        ensures
            final(self)@.initialized == old(self)@.initialized,
            final(self)@.channels == old(self)@.channels,
            final(self)@.transfers.len() == old(self)@.transfers.len() + 1,
            extends_log(old(self)@, final(self)@),
            final(self)@.transfers.last().sent == (register.spec_address(), value),
            match r {
                Ok(data) => final(self)@.transfers.last().reply == Some((data[0], data[1])),
                Err(e) => e == Error::BusError && final(self)@.transfers.last().reply is None,
            },
    {
        let ghost before = self.bus.log();
        let reply = self.bus.transfer([register.address(), value]);
        assert(self.bus.log().subrange(0, before.len() as int) =~= before);
        match reply {
            Some(data) => Ok(data),
            None => Err(Error::BusError),
        }
    }
}

} // verus!
