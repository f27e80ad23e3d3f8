//! Register address space of the BD18378 LED driver IC.
use vstd::prelude::*;

verus! {

/// The writeable registers of the BD18378, each with its one-byte address.
#[derive(Debug, Clone, Copy, PartialEq, Eq, Structural)]
pub enum WriteRegister {
    // LED current calibration registers
    ChannelCalibration00,
    ChannelCalibration01,
    ChannelCalibration02,
    ChannelCalibration03,
    ChannelCalibration04,
    ChannelCalibration05,
    ChannelCalibration06,
    ChannelCalibration07,
    ChannelCalibration08,
    ChannelCalibration09,
    ChannelCalibration10,
    ChannelCalibration11,
    // LED enable registers
    ChannelEnable00To05,
    ChannelEnable06To11,
    // IC reset registers
    StatusReset,
    SoftwareReset,
    // Reserved registers used during IC initialization
    Reserved79,
    Reserved7A,
    Reserved7B,
    ReservedB5,
    ReservedB6,
    ReservedB7,
    ReservedB8,
    ReservedB9,
}

impl WriteRegister {
    /// The register's address on the bus.
    pub open spec fn spec_address(self) -> u8 {
        match self {
            WriteRegister::ChannelCalibration00 => 0x48,
            WriteRegister::ChannelCalibration01 => 0x49,
            WriteRegister::ChannelCalibration02 => 0x4A,
            WriteRegister::ChannelCalibration03 => 0x4B,
            WriteRegister::ChannelCalibration04 => 0x4C,
            WriteRegister::ChannelCalibration05 => 0x4D,
            WriteRegister::ChannelCalibration06 => 0x4E,
            WriteRegister::ChannelCalibration07 => 0x4F,
            WriteRegister::ChannelCalibration08 => 0x50,
            WriteRegister::ChannelCalibration09 => 0x51,
            WriteRegister::ChannelCalibration10 => 0x52,
            WriteRegister::ChannelCalibration11 => 0x53,
            WriteRegister::ChannelEnable00To05 => 0x56,
            WriteRegister::ChannelEnable06To11 => 0x57,
            WriteRegister::StatusReset => 0x6B,
            WriteRegister::SoftwareReset => 0x6C,
            WriteRegister::Reserved79 => 0x79,
            WriteRegister::Reserved7A => 0x7A,
            WriteRegister::Reserved7B => 0x7B,
            WriteRegister::ReservedB5 => 0xB5,
            WriteRegister::ReservedB6 => 0xB6,
            WriteRegister::ReservedB7 => 0xB7,
            WriteRegister::ReservedB8 => 0xB8,
            WriteRegister::ReservedB9 => 0xB9,
        }
    }

    /// Returns the register's one-byte address.
    #[verifier::when_used_as_spec(spec_address)]
    pub fn address(self) -> (r: u8)
        ensures
            r == self.spec_address(),
    {
        match self {
            WriteRegister::ChannelCalibration00 => 0x48,
            WriteRegister::ChannelCalibration01 => 0x49,
            WriteRegister::ChannelCalibration02 => 0x4A,
            WriteRegister::ChannelCalibration03 => 0x4B,
            WriteRegister::ChannelCalibration04 => 0x4C,
            WriteRegister::ChannelCalibration05 => 0x4D,
            WriteRegister::ChannelCalibration06 => 0x4E,
            WriteRegister::ChannelCalibration07 => 0x4F,
            WriteRegister::ChannelCalibration08 => 0x50,
            WriteRegister::ChannelCalibration09 => 0x51,
            WriteRegister::ChannelCalibration10 => 0x52,
            WriteRegister::ChannelCalibration11 => 0x53,
            WriteRegister::ChannelEnable00To05 => 0x56,
            WriteRegister::ChannelEnable06To11 => 0x57,
            WriteRegister::StatusReset => 0x6B,
            WriteRegister::SoftwareReset => 0x6C,
            WriteRegister::Reserved79 => 0x79,
            WriteRegister::Reserved7A => 0x7A,
            WriteRegister::Reserved7B => 0x7B,
            WriteRegister::ReservedB5 => 0xB5,
            WriteRegister::ReservedB6 => 0xB6,
            WriteRegister::ReservedB7 => 0xB7,
            WriteRegister::ReservedB8 => 0xB8,
            WriteRegister::ReservedB9 => 0xB9,
        }
    }

    /// The calibration register of channel `ch` (registers 0x48 to 0x53, in channel order).
    pub fn calibration(ch: usize) -> (r: WriteRegister)
        requires
            ch < 12,
        ensures
            r.spec_address() == 0x48 + ch,
    {
        match ch {
            0 => WriteRegister::ChannelCalibration00,
            1 => WriteRegister::ChannelCalibration01,
            2 => WriteRegister::ChannelCalibration02,
            3 => WriteRegister::ChannelCalibration03,
            4 => WriteRegister::ChannelCalibration04,
            5 => WriteRegister::ChannelCalibration05,
            6 => WriteRegister::ChannelCalibration06,
            7 => WriteRegister::ChannelCalibration07,
            8 => WriteRegister::ChannelCalibration08,
            9 => WriteRegister::ChannelCalibration09,
            10 => WriteRegister::ChannelCalibration10,
            _ => WriteRegister::ChannelCalibration11,
        }
    }

    /// Recovers the register whose address is `value`, or `Err(())` when no register has it.
    pub fn from_address(value: u8) -> (r: Result<WriteRegister, ()>)
        ensures
            r matches Ok(reg) ==> reg.spec_address() == value,
            r matches Ok(reg) ==> forall|o: WriteRegister| o.spec_address() == value ==> o == reg,
            r is Err <==> forall|reg: WriteRegister| reg.spec_address() != value,
    {
        match value {
            0x48 => Ok(WriteRegister::ChannelCalibration00),
            0x49 => Ok(WriteRegister::ChannelCalibration01),
            0x4A => Ok(WriteRegister::ChannelCalibration02),
            0x4B => Ok(WriteRegister::ChannelCalibration03),
            0x4C => Ok(WriteRegister::ChannelCalibration04),
            0x4D => Ok(WriteRegister::ChannelCalibration05),
            0x4E => Ok(WriteRegister::ChannelCalibration06),
            0x4F => Ok(WriteRegister::ChannelCalibration07),
            0x50 => Ok(WriteRegister::ChannelCalibration08),
            0x51 => Ok(WriteRegister::ChannelCalibration09),
            0x52 => Ok(WriteRegister::ChannelCalibration10),
            0x53 => Ok(WriteRegister::ChannelCalibration11),
            0x56 => Ok(WriteRegister::ChannelEnable00To05),
            0x57 => Ok(WriteRegister::ChannelEnable06To11),
            0x6B => Ok(WriteRegister::StatusReset),
            0x6C => Ok(WriteRegister::SoftwareReset),
            0x79 => Ok(WriteRegister::Reserved79),
            0x7A => Ok(WriteRegister::Reserved7A),
            0x7B => Ok(WriteRegister::Reserved7B),
            0xB5 => Ok(WriteRegister::ReservedB5),
            0xB6 => Ok(WriteRegister::ReservedB6),
            0xB7 => Ok(WriteRegister::ReservedB7),
            0xB8 => Ok(WriteRegister::ReservedB8),
            0xB9 => Ok(WriteRegister::ReservedB9),
            _ => Err(()),
        }
    }
}

impl TryFrom<u8> for WriteRegister {
    type Error = ();

    fn try_from(value: u8) -> (r: Result<WriteRegister, ()>) {
        match WriteRegister::from_address(value) {
            Ok(reg) => {
                proof {
                    let c = choose|o: WriteRegister| o.spec_address() == value;
                    assert(c.spec_address() == value);
                }
                Ok(reg)
            },
            Err(_) => Err(()),
        }
    }
}

impl vstd::std_specs::convert::TryFromSpecImpl<u8> for WriteRegister {
    open spec fn obeys_try_from_spec() -> bool {
        true
    }

    open spec fn try_from_spec(value: u8) -> Result<WriteRegister, ()> {
        if exists|reg: WriteRegister| reg.spec_address() == value {
            Ok(choose|reg: WriteRegister| reg.spec_address() == value)
        } else {
            Err(())
        }
    }
}

/// The readable registers of the BD18378.
#[derive(Debug, Clone, Copy, PartialEq, Eq, Structural)]
pub enum ReadRegister {
    Status,
}

impl ReadRegister {
    /// The register's address on the bus.
    pub open spec fn spec_address(self) -> u8 {
        match self {
            ReadRegister::Status => 0xA8,
        }
    }

    /// Returns the register's one-byte address.
    #[verifier::when_used_as_spec(spec_address)]
    pub fn address(self) -> (r: u8)
        ensures
            r == self.spec_address(),
    {
        match self {
            ReadRegister::Status => 0xA8,
        }
    }
}

} // verus!
