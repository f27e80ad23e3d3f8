//! The SPI handle of a driver, together with the record of every transfer made
//! through it.
use vstd::prelude::*;
use embedded_hal::spi::SpiDevice;

verus! {

/// One full-duplex transfer on the bus: the two bytes sent (register address and
/// value) and the two bytes read back, or `None` when the transport failed.
pub struct BusTransfer {
    pub sent: (u8, u8),
    pub reply: Option<(u8, u8)>,
}

/// An exclusively borrowed SPI device. Its log holds every transfer made through
/// it, oldest first; only `transfer` adds to it.
pub struct Bus<'a, SPI> {
    spi: &'a mut SPI,
    log: Ghost<Seq<BusTransfer>>,
}

impl<'a, SPI> Bus<'a, SPI> {
    /// The transfers made through this bus so far, oldest first.
    pub closed spec fn log(&self) -> Seq<BusTransfer> {
        self.log@
    }

    /// Takes the device for the bus; nothing has been sent yet.
    pub fn new(spi: &'a mut SPI) -> (r: Self)
        ensures
            r.log() == Seq::<BusTransfer>::empty(),
    {
        Bus { spi, log: Ghost(Seq::empty()) }
    }
}

impl<'a, SPI: SpiDevice> Bus<'a, SPI> {
    /// Relies on embedded_hal's `SpiDevice::transfer_in_place`: it sends the two
    /// bytes of `out` and overwrites the buffer with the two bytes read back;
    /// `Err` is a transport failure. What the device answers is not known in
    /// advance; the transfer, with its outcome, is added to the log.
    #[verifier::external_body]
    pub fn transfer(&mut self, out: [u8; 2]) -> (r: Option<[u8; 2]>)
        ensures
            final(self).log() == old(self).log().push(
                BusTransfer {
                    sent: (out[0], out[1]),
                    reply: match r {
                        Some(d) => Some((d[0], d[1])),
                        None => None,
                    },
                },
            ),
    {
        let mut data = out;
        match self.spi.transfer_in_place(&mut data) {
            Ok(()) => Some(data),
            Err(_) => None,
        }
    }
}

} // verus!
