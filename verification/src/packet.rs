use crate::error::ModemError;
use crate::hex::{decode_chars, hex_decode};
use crate::text::{
    parse_i16, parse_unsigned, signed_field, split, split_fields, to_chars, trim, trimmed,
    unsigned_field,
};
use vstd::prelude::*;
use vstd::slice::slice_subrange;

verus! {

/// A LoRa packet received from the modem.
#[derive(Debug)]
pub struct RxPacket {
    /// Signal strength.
    pub rssi: i16,
    /// Signal-to-noise ratio.
    pub snr: i16,
    /// Received binary data.
    pub data: Vec<u8>,
}

/// What a received packet holds.
pub struct RxPacketView {
    pub rssi: i16,
    pub snr: i16,
    pub data: Seq<u8>,
}

impl View for RxPacket {
    type V = RxPacketView;

    open spec fn view(&self) -> RxPacketView {
        RxPacketView { rssi: self.rssi, snr: self.snr, data: self.data@ }
    }
}

/// True for a line that begins with the marker `+RX ` of a received packet.
pub open spec fn has_marker(line: Seq<char>) -> bool {
    line.len() >= 4 && line[0] == '+' && line[1] == 'R' && line[2] == 'X' && line[3] == ' '
}

/// A line without the marker, where it begins with one.
pub open spec fn strip_marker(line: Seq<char>) -> Seq<char> {
    if has_marker(line) {
        line.subrange(4, line.len() as int)
    } else {
        line
    }
}

/// The fields of a line: the marker is taken off, then the white space around
/// the rest, and what is left is split at its commas.
pub open spec fn line_fields(line: Seq<char>) -> Seq<Seq<char>> {
    split_fields(trim(strip_marker(line)))
}

/// What a response line stands for. A line of fewer than four characters is
/// malformed, as is one that does not hold exactly the four fields length,
/// payload, rssi and snr. The fields are then judged in that order, the
/// declared length against the payload right after the payload itself.
pub open spec fn parse_line(line: Seq<char>) -> Result<RxPacketView, ModemError> {
    let fields = line_fields(line);
    if line.len() < 4 || fields.len() != 4 {
        Err(ModemError::MalformedLine)
    } else if unsigned_field(fields[0]) is None {
        Err(ModemError::InvalidField)
    } else if hex_decode(fields[1]) is None {
        Err(ModemError::InvalidPayload)
    } else if hex_decode(fields[1]).unwrap().len() != unsigned_field(fields[0]).unwrap() {
        Err(ModemError::LengthMismatch)
    } else if signed_field(fields[2]) is None || signed_field(fields[3]) is None {
        Err(ModemError::InvalidField)
    } else {
        Ok(
            RxPacketView {
                rssi: signed_field(fields[2]).unwrap(),
                snr: signed_field(fields[3]).unwrap(),
                data: hex_decode(fields[1]).unwrap(),
            },
        )
    }
}

/// A line with another number of fields than four is malformed, whatever the
/// fields hold.
pub proof fn lemma_field_count_decides(line: Seq<char>)
    requires
        line_fields(line).len() != 4,
    ensures
        parse_line(line) == Err::<RxPacketView, ModemError>(ModemError::MalformedLine),
{
}

/// A line of four fields whose first two are well formed, and whose declared
/// length is not the length of its payload, is refused for that mismatch.
pub proof fn lemma_length_mismatch(line: Seq<char>)
    requires
        line.len() >= 4,
        line_fields(line).len() == 4,
        unsigned_field(line_fields(line)[0]) is Some,
        hex_decode(line_fields(line)[1]) is Some,
        hex_decode(line_fields(line)[1]).unwrap().len() != unsigned_field(
            line_fields(line)[0],
        ).unwrap(),
    ensures
        parse_line(line) == Err::<RxPacketView, ModemError>(ModemError::LengthMismatch),
{
}

/// The payload of every packet that a line stands for has the length that the
/// line declares, and is what the line's hex text stands for.
pub proof fn lemma_declared_length(line: Seq<char>)
    requires
        parse_line(line) is Ok,
    ensures
        line_fields(line).len() == 4,
        unsigned_field(line_fields(line)[0]) == Some(parse_line(line).unwrap().data.len() as usize),
        hex_decode(line_fields(line)[1]) == Some(parse_line(line).unwrap().data),
{
}

/// The marker is optional: a line that does not begin with it stands for the
/// same with the marker put before it.
pub proof fn lemma_marker_is_optional(rest: Seq<char>)
    requires
        rest.len() >= 4,
        !has_marker(rest),
    ensures
        parse_line(seq!['+', 'R', 'X', ' '] + rest) == parse_line(rest),
{
    let line = seq!['+', 'R', 'X', ' '] + rest;
    assert(has_marker(line));
    assert(strip_marker(line) =~= rest);
}

impl RxPacket {
    /// Reads one response line of the modem: `+RX `, which may be left out,
    /// then length, hex payload, rssi and snr with commas between them.
    pub fn parse(line: &str) -> (r: Result<RxPacket, ModemError>)
        ensures
            match parse_line(line@) {
                Ok(packet) => r is Ok && r.unwrap()@ == packet,
                Err(e) => r == Err::<RxPacket, ModemError>(e),
            },
    {
        let chars = to_chars(line);
        let n = chars.len();
        if n < 4 {
            return Err(ModemError::MalformedLine);
        }
        let marked = chars[0] == '+' && chars[1] == 'R' && chars[2] == 'X' && chars[3] == ' ';
        let start: usize = if marked {
            4
        } else {
            0
        };
        let rest = slice_subrange(chars.as_slice(), start, n);
        assert(rest@ =~= strip_marker(line@));
        let body = trimmed(rest);
        let fields = split(body.as_slice());
        if fields.len() != 4 {
            return Err(ModemError::MalformedLine);
        }
        let len = match parse_unsigned(fields[0].as_slice()) {
            Some(len) => len,
            None => {
                return Err(ModemError::InvalidField);
            },
        };
        let data = match decode_chars(fields[1].as_slice()) {
            Ok(data) => data,
            Err(_) => {
                return Err(ModemError::InvalidPayload);
            },
        };
        if data.len() != len {
            return Err(ModemError::LengthMismatch);
        }
        let rssi = match parse_i16(fields[2].as_slice()) {
            Some(rssi) => rssi,
            None => {
                return Err(ModemError::InvalidField);
            },
        };
        let snr = match parse_i16(fields[3].as_slice()) {
            Some(snr) => snr,
            None => {
                return Err(ModemError::InvalidField);
            },
        };
        Ok(RxPacket { rssi, snr, data })
    }
}

impl<'a> TryFrom<&'a str> for RxPacket {
    type Error = ModemError;

    /// Reads one response line of the modem, as `parse` does.
    fn try_from(item: &'a str) -> (r: Result<RxPacket, ModemError>)
        ensures
            match parse_line(item@) {
                Ok(packet) => r is Ok && r.unwrap()@ == packet,
                Err(e) => r == Err::<RxPacket, ModemError>(e),
            },
    {
        RxPacket::parse(item)
    }
}

/// A packet owns its bytes, so no value in a contract can stand for the one
/// that the conversion returns: what it returns is stated over the packet's
/// view, in the conversion's own contract.
impl<'a> vstd::std_specs::convert::TryFromSpecImpl<&'a str> for RxPacket {
    open spec fn obeys_try_from_spec() -> bool {
        false
    }

    open spec fn try_from_spec(item: &'a str) -> Result<RxPacket, ModemError> {
        arbitrary()
    }
}

} // verus!
