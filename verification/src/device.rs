use crate::catalog::{LoRaChannels, ModemConfig};
use crate::error::ModemError;
use crate::packet::{parse_line, RxPacket, RxPacketView};
use crate::status::Status;
use vstd::prelude::*;

verus! {

/// What reading a packet gives for each answer to the reading of a line: a
/// failure of the transport is handed on as it is, and a line is decoded.
pub open spec fn packet_of_answer(answer: Result<String, ModemError>) -> Result<
    RxPacketView,
    ModemError,
> {
    match answer {
        Ok(line) => parse_line(line@),
        Err(e) => Err(e),
    }
}

/// True where `packet` is what `expected` describes.
pub open spec fn is_packet(
    packet: Result<RxPacket, ModemError>,
    expected: Result<RxPacketView, ModemError>,
) -> bool {
    match expected {
        Ok(view) => packet is Ok && packet.unwrap()@ == view,
        Err(e) => packet == Err::<RxPacket, ModemError>(e),
    }
}

/// Turns the answer to the reading of a line into the answer to the reading
/// of a packet.
pub fn packet_from_answer(answer: Result<String, ModemError>) -> (r: Result<RxPacket, ModemError>)
    ensures
        is_packet(r, packet_of_answer(answer)),
{
    match answer {
        Ok(line) => RxPacket::parse(line.as_str()),
        Err(e) => Err(e),
    }
}

/// What a modem on some transport offers. A device is opened before anything
/// else is asked of it; frequencies are given in hundredths of a megahertz.
pub trait LoraModemDevice {
    /// What one request to set the frequency may do: the device before it,
    /// the frequency asked for, the device after it and the answer. Each
    /// transport says this of itself; one that says nothing allows anything.
    open spec fn frequency_set(
        before: &Self,
        freq: u32,
        after: &Self,
        answer: Result<(), ModemError>,
    ) -> bool {
        true
    }

    /// What one reading of a line may do: the device before it, the device
    /// after it and the answer. Each transport says this of itself; one that
    /// says nothing allows anything.
    open spec fn line_read(before: &Self, after: &Self, answer: Result<String, ModemError>) -> bool {
        true
    }

    /// Opens the transport.
    fn open(&mut self) -> Result<(), ModemError>;

    /// Sets the modem to a predefined channel: one request to set the
    /// channel's frequency, and nothing else.
    fn set_channel(&mut self, channel: LoRaChannels) -> (r: Result<(), ModemError>)
        ensures
            Self::frequency_set(old(self), channel.spec_value(), final(self), r),
    {
        self.set_frequency(channel.value())
    }

    /// Sets the modem's frequency.
    fn set_frequency(&mut self, freq: u32) -> (r: Result<(), ModemError>)
        ensures
            Self::frequency_set(old(self), freq, final(self), r),
    ;

    /// Asks the modem for its current configuration.
    fn config(&mut self) -> Result<Status, ModemError>;

    /// Sets the modem to a preset.
    fn set_mode(&mut self, mode: ModemConfig) -> Result<(), ModemError>;

    /// Sends a payload as hex text and returns the number of bytes accepted.
    fn send_data(&mut self, data: Vec<u8>) -> Result<usize, ModemError>;

    /// Reads a packet from the modem: one reading of a line, and the packet
    /// that the line stands for, or the failure of either.
    fn read_packet(&mut self) -> (r: Result<RxPacket, ModemError>)
        ensures
            exists|answer: Result<String, ModemError>| #[trigger]
                Self::line_read(old(self), final(self), answer) && is_packet(
                    r,
                    packet_of_answer(answer),
                ),
    ;

    /// Reads one line from the transport.
    fn read_line(&mut self) -> (r: Result<String, ModemError>)
        ensures
            Self::line_read(old(self), final(self), r),
    ;
}

} // verus!
