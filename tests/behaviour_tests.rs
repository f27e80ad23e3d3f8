use bd18378::registers::{ReadRegister, WriteRegister};
use bd18378::{Bd18378, Error};
use embedded_hal::spi::{ErrorKind, ErrorType, Operation, SpiDevice};

/// The handshake writes, the status reset last.
const HANDSHAKE: [(u8, u8); 16] = [
    (0x6C, 0xA1),
    (0x6C, 0xA1),
    (0xB5, 0x9E),
    (0xB6, 0x00),
    (0xB5, 0x9E),
    (0xB7, 0x00),
    (0xB5, 0x9E),
    (0xB8, 0x00),
    (0xB5, 0x9E),
    (0xB9, 0x00),
    (0x79, 0xD6),
    (0x7A, 0x00),
    (0x79, 0xD6),
    (0x7B, 0x00),
    (0x6C, 0xA1),
    (0x6B, 0x3F),
];

/// An SPI device that answers each transfer from a script (`None`: transport
/// failure; past the end of the script: `[0, 0]`) and records what it was sent.
struct ScriptedSpi {
    replies: Vec<Option<[u8; 2]>>,
    sent: Vec<[u8; 2]>,
}

impl ScriptedSpi {
    fn new(replies: Vec<Option<[u8; 2]>>) -> ScriptedSpi {
        ScriptedSpi { replies, sent: Vec::new() }
    }

    /// A device that echoes every handshake write one transfer late.
    fn echoing() -> ScriptedSpi {
        let mut replies = vec![Some([0x00, 0x00])];
        for (a, v) in HANDSHAKE.iter().take(15) {
            replies.push(Some([*a, *v]));
        }
        ScriptedSpi::new(replies)
    }
}

impl ErrorType for ScriptedSpi {
    type Error = ErrorKind;
}

impl SpiDevice for ScriptedSpi {
    fn transaction(&mut self, operations: &mut [Operation<'_, u8>]) -> Result<(), ErrorKind> {
        for op in operations.iter_mut() {
            if let Operation::TransferInPlace(buf) = op {
                self.sent.push([buf[0], buf[1]]);
                let i = self.sent.len() - 1;
                match self.replies.get(i).copied().unwrap_or(Some([0x00, 0x00])) {
                    Some(reply) => buf.copy_from_slice(&reply),
                    None => return Err(ErrorKind::Other),
                }
            }
        }
        Ok(())
    }
}

fn handshake_bytes(n: usize) -> Vec<[u8; 2]> {
    HANDSHAKE.iter().take(n).map(|(a, v)| [*a, *v]).collect()
}

#[test]
fn fresh_driver_is_uninitialized_with_all_channels_off() {
    let mut spi = ScriptedSpi::echoing();
    {
        let mut d = Bd18378::new(&mut spi);
        assert!(!d.is_initialized());
        assert_eq!(d.init(), Ok(()));
        assert_eq!(d.update_all_channels(), Ok(()));
    }
    assert_eq!(spi.sent.len(), 18);
    assert_eq!(spi.sent[16], [0x56, 0x00]);
    assert_eq!(spi.sent[17], [0x57, 0x00]);
}

#[test]
fn init_sends_the_handshake_and_succeeds_on_echoes() {
    let mut spi = ScriptedSpi::echoing();
    {
        let mut d = Bd18378::new(&mut spi);
        assert_eq!(d.init(), Ok(()));
        assert!(d.is_initialized());
    }
    assert_eq!(spi.sent, handshake_bytes(16));
}

#[test]
fn init_ignores_the_status_reset_reply() {
    let mut spi = ScriptedSpi::echoing();
    spi.replies[15] = Some([0xAB, 0xCD]);
    let mut d = Bd18378::new(&mut spi);
    assert_eq!(d.init(), Ok(()));
    assert!(d.is_initialized());
}

#[test]
fn init_stuck_high_line_is_a_communication_error() {
    let mut spi = ScriptedSpi::new(vec![Some([0xFF, 0xFF]), Some([0xFF, 0xFF])]);
    {
        let mut d = Bd18378::new(&mut spi);
        assert_eq!(d.init(), Err(Error::CommunicationError));
        assert!(!d.is_initialized());
    }
    assert_eq!(spi.sent, handshake_bytes(2));
}

#[test]
fn init_checks_against_the_previous_write_not_the_current_one() {
    // The reply to the third write (0xB5) echoes the third write itself.
    let mut spi = ScriptedSpi::echoing();
    spi.replies[2] = Some([0xB5, 0x9E]);
    {
        let mut d = Bd18378::new(&mut spi);
        assert_eq!(d.init(), Err(Error::CommunicationError));
        assert!(!d.is_initialized());
    }
    assert_eq!(spi.sent, handshake_bytes(3));
}

#[test]
fn init_mismatch_at_the_last_datasheet_write() {
    let mut spi = ScriptedSpi::echoing();
    spi.replies[14] = Some([0x7B, 0x01]);
    {
        let mut d = Bd18378::new(&mut spi);
        assert_eq!(d.init(), Err(Error::CommunicationError));
    }
    assert_eq!(spi.sent.len(), 15);
}

#[test]
fn init_transport_failure_is_a_bus_error() {
    let mut spi = ScriptedSpi::echoing();
    spi.replies[5] = None;
    {
        let mut d = Bd18378::new(&mut spi);
        assert_eq!(d.init(), Err(Error::BusError));
        assert!(!d.is_initialized());
    }
    assert_eq!(spi.sent, handshake_bytes(6));
}

#[test]
fn init_status_reset_failure_is_a_bus_error() {
    let mut spi = ScriptedSpi::echoing();
    spi.replies[15] = None;
    {
        let mut d = Bd18378::new(&mut spi);
        assert_eq!(d.init(), Err(Error::BusError));
        assert!(!d.is_initialized());
    }
    assert_eq!(spi.sent, handshake_bytes(16));
}

#[test]
fn operations_before_init_are_not_initialized() {
    let mut spi = ScriptedSpi::new(vec![]);
    {
        let mut d = Bd18378::new(&mut spi);
        assert_eq!(d.enable_channel(11), Err(Error::NotInitialized));
        assert_eq!(d.disable_channel(0), Err(Error::NotInitialized));
        assert_eq!(d.set_channel_calibration(5, 0x10), Err(Error::NotInitialized));
        assert_eq!(d.update_all_channels(), Err(Error::NotInitialized));
    }
    assert!(spi.sent.is_empty());
}

#[test]
fn channel_index_out_of_range_is_invalid() {
    let mut spi = ScriptedSpi::echoing();
    {
        let mut d = Bd18378::new(&mut spi);
        assert_eq!(d.disable_channel(12), Err(Error::InvalidChannel));
        assert_eq!(d.init(), Ok(()));
        assert_eq!(d.enable_channel(12), Err(Error::InvalidChannel));
        assert_eq!(d.disable_channel(usize::MAX), Err(Error::InvalidChannel));
        assert_eq!(d.set_channel_calibration(12, 0x05), Err(Error::InvalidChannel));
    }
    assert_eq!(spi.sent.len(), 16);
}

#[test]
fn update_packs_both_groups() {
    let mut spi = ScriptedSpi::echoing();
    {
        let mut d = Bd18378::new(&mut spi);
        assert_eq!(d.init(), Ok(()));
        for ch in 0..12 {
            assert_eq!(d.enable_channel(ch), Ok(()));
        }
        assert_eq!(d.disable_channel(1), Ok(()));
        assert_eq!(d.disable_channel(11), Ok(()));
        assert_eq!(d.disable_channel(11), Ok(()));
        assert_eq!(d.enable_channel(3), Ok(()));
        assert_eq!(d.update_all_channels(), Ok(()));
    }
    assert_eq!(spi.sent[16], [0x56, 0b0011_1101]);
    assert_eq!(spi.sent[17], [0x57, 0b0001_1111]);
}

#[test]
fn update_stops_after_a_failed_first_write() {
    let mut spi = ScriptedSpi::echoing();
    spi.replies.push(None);
    {
        let mut d = Bd18378::new(&mut spi);
        assert_eq!(d.init(), Ok(()));
        assert_eq!(d.enable_channel(6), Ok(()));
        assert_eq!(d.update_all_channels(), Err(Error::BusError));
    }
    assert_eq!(spi.sent.len(), 17);
    assert_eq!(spi.sent[16], [0x56, 0x00]);
}

#[test]
fn update_second_write_failure_is_a_bus_error() {
    let mut spi = ScriptedSpi::echoing();
    spi.replies.push(Some([0x00, 0x00]));
    spi.replies.push(None);
    {
        let mut d = Bd18378::new(&mut spi);
        assert_eq!(d.init(), Ok(()));
        assert_eq!(d.enable_channel(6), Ok(()));
        assert_eq!(d.update_all_channels(), Err(Error::BusError));
    }
    assert_eq!(spi.sent[17], [0x57, 0x01]);
}

#[test]
fn calibration_writes_one_transfer_to_the_channel_register() {
    let mut spi = ScriptedSpi::echoing();
    {
        let mut d = Bd18378::new(&mut spi);
        assert_eq!(d.init(), Ok(()));
        assert_eq!(d.set_channel_calibration(0, 0x05), Ok(()));
        assert_eq!(d.set_channel_calibration(11, 0xFF), Ok(()));
    }
    assert_eq!(spi.sent.len(), 18);
    assert_eq!(spi.sent[16], [0x48, 0x05]);
    assert_eq!(spi.sent[17], [0x53, 0xFF]);
}

#[test]
fn calibration_transport_failure_is_a_bus_error() {
    let mut spi = ScriptedSpi::echoing();
    spi.replies.push(None);
    let mut d = Bd18378::new(&mut spi);
    assert_eq!(d.init(), Ok(()));
    assert_eq!(d.set_channel_calibration(7, 0x01), Err(Error::BusError));
}

#[test]
fn register_addresses() {
    assert_eq!(WriteRegister::ChannelCalibration00.address(), 0x48);
    assert_eq!(WriteRegister::ChannelCalibration11.address(), 0x53);
    assert_eq!(WriteRegister::ChannelEnable00To05.address(), 0x56);
    assert_eq!(WriteRegister::ChannelEnable06To11.address(), 0x57);
    assert_eq!(WriteRegister::StatusReset.address(), 0x6B);
    assert_eq!(WriteRegister::SoftwareReset.address(), 0x6C);
    assert_eq!(WriteRegister::ReservedB9.address(), 0xB9);
    assert_eq!(ReadRegister::Status.address(), 0xA8);
    assert_eq!(WriteRegister::calibration(4), WriteRegister::ChannelCalibration04);
}

#[test]
fn register_from_address() {
    assert_eq!(WriteRegister::try_from(0x48u8), Ok(WriteRegister::ChannelCalibration00));
    assert_eq!(WriteRegister::try_from(0x7Au8), Ok(WriteRegister::Reserved7A));
    assert_eq!(WriteRegister::try_from(0x00u8), Err(()));
    assert_eq!(WriteRegister::try_from(0x54u8), Err(()));
    assert_eq!(WriteRegister::from_address(0xB6), Ok(WriteRegister::ReservedB6));
}
