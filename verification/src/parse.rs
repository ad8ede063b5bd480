//! BTHome v2 object walk over untrusted radio bytes: a whitelist of object
//! ids, a stop at the first unknown id, and a range check on every reading.

use vstd::prelude::*;
use vstd::slice::slice_subrange;

verus! {

/// Readings accumulated from one frame, stored as the integers the wire
/// carries: centidegrees, centipercent, percent and millivolts.
#[derive(Clone, Copy, Debug, PartialEq, Eq, Structural)]
pub struct Readings {
    /// Object `0x02`, `i16` little endian, 0.01 °C.
    pub temperature_centi: Option<i16>,
    /// Object `0x03`, `u16` little endian, 0.01 %.
    pub humidity_centi: Option<u16>,
    /// Object `0x01`, `u8` percent.
    pub battery_percent: Option<u8>,
    /// Object `0x0C`, `u16` little endian, 0.001 V.
    pub voltage_milli: Option<u16>,
}

/// The readings of a frame that carried none.
pub open spec fn no_readings() -> Readings {
    Readings {
        temperature_centi: None,
        humidity_centi: None,
        battery_percent: None,
        voltage_milli: None,
    }
}

impl Default for Readings {
    fn default() -> (r: Self)
        ensures
            r == no_readings(),
    {
        Readings {
            temperature_centi: None,
            humidity_centi: None,
            battery_percent: None,
            voltage_milli: None,
        }
    }
}

/// Outcome of a walk that ended cleanly.
#[derive(Clone, Copy, Debug, PartialEq, Eq, Structural)]
pub struct Parsed {
    pub readings: Readings,
    /// `Some(id)`: the walk stopped at the unrecognised object id `id`.
    pub unknown_object: Option<u8>,
}

/// Frame-level rejections.
#[derive(Clone, Copy, Debug, PartialEq, Eq, Structural)]
pub enum ParseError {
    /// `(device_info >> 5) != 2`.
    NotBthomeV2,
    /// A whitelisted object's bytes run past the end of the payload.
    Truncated,
    /// A reading lies outside its plausible physical range.
    OutOfRange,
}

/// Little-endian `u16` from two bytes.
pub open spec fn le_u16(lo: u8, hi: u8) -> u16 {
    (lo as int + 256 * (hi as int)) as u16
}

/// Whether `device_info` announces BTHome version 2.
pub open spec fn is_bthome_v2(device_info: u8) -> bool {
    (device_info >> 5u8) == 2
}

/// The object walk over `rest`, starting from the readings `acc`.
pub open spec fn walk(acc: Readings, rest: Seq<u8>) -> Result<Parsed, ParseError>
    decreases rest.len(),
{
    if rest.len() == 0 {
        Ok(Parsed { readings: acc, unknown_object: None })
    } else {
        let id = rest[0];
        let tail = rest.drop_first();
        if id == 0x00 || id == 0x10 || id == 0x11 {
            if tail.len() < 1 {
                Err(ParseError::Truncated)
            } else {
                walk(acc, tail.skip(1))
            }
        } else if id == 0x01 {
            if tail.len() < 1 {
                Err(ParseError::Truncated)
            } else if tail[0] > 100 {
                Err(ParseError::OutOfRange)
            } else {
                walk(Readings { battery_percent: Some(tail[0]), ..acc }, tail.skip(1))
            }
        } else if id == 0x02 {
            if tail.len() < 2 {
                Err(ParseError::Truncated)
            } else {
                let centi = le_u16(tail[0], tail[1]) as i16;
                if centi < -4000 || centi > 8500 {
                    Err(ParseError::OutOfRange)
                } else {
                    walk(Readings { temperature_centi: Some(centi), ..acc }, tail.skip(2))
                }
            }
        } else if id == 0x03 {
            if tail.len() < 2 {
                Err(ParseError::Truncated)
            } else {
                let centi = le_u16(tail[0], tail[1]);
                if centi > 10000 {
                    Err(ParseError::OutOfRange)
                } else {
                    walk(Readings { humidity_centi: Some(centi), ..acc }, tail.skip(2))
                }
            }
        } else if id == 0x0C {
            if tail.len() < 2 {
                Err(ParseError::Truncated)
            } else {
                let milli = le_u16(tail[0], tail[1]);
                if milli > 4000 {
                    Err(ParseError::OutOfRange)
                } else {
                    walk(Readings { voltage_milli: Some(milli), ..acc }, tail.skip(2))
                }
            }
        } else if id == 0x3E {
            if tail.len() < 4 {
                Err(ParseError::Truncated)
            } else {
                walk(acc, tail.skip(4))
            }
        } else {
            Ok(Parsed { readings: acc, unknown_object: Some(id) })
        }
    }
}

/// What `parse` returns for `device_info` and the plaintext object bytes.
pub open spec fn spec_parse(device_info: u8, payload: Seq<u8>) -> Result<Parsed, ParseError> {
    if !is_bthome_v2(device_info) {
        Err(ParseError::NotBthomeV2)
    } else {
        walk(no_readings(), payload)
    }
}

/// Walks the BTHome v2 object stream of one frame. `device_info` is the
/// first byte of the service data, `payload` the plaintext objects after it.
/// An unknown id stops the walk and returns what was accumulated.
pub fn parse(device_info: u8, payload: &[u8]) -> (r: Result<Parsed, ParseError>)
    ensures
        r == spec_parse(device_info, payload@),
{
    if (device_info >> 5u8) != 2 {
        return Err(ParseError::NotBthomeV2);
    }
    let mut readings = Readings::default();
    let mut rest: &[u8] = payload;
    while rest.len() > 0
        invariant
            spec_parse(device_info, payload@) == walk(readings, rest@),
        decreases rest@.len(),
    {
        let id = rest[0];
        let tail = slice_subrange(rest, 1, rest.len());
        assert(tail@ == rest@.drop_first());
        if id == 0x00 || id == 0x10 || id == 0x11 {
            rest = skip(tail, 1)?;
        } else if id == 0x01 {
            let (battery, after) = take_u8(tail)?;
            if battery > 100 {
                return Err(ParseError::OutOfRange);
            }
            readings.battery_percent = Some(battery);
            rest = after;
        } else if id == 0x02 {
            let (raw, after) = take_u16_le(tail)?;
            let centi = raw as i16;
            if centi < -4000 || centi > 8500 {
                return Err(ParseError::OutOfRange);
            }
            readings.temperature_centi = Some(centi);
            rest = after;
        } else if id == 0x03 {
            let (centi, after) = take_u16_le(tail)?;
            if centi > 10000 {
                return Err(ParseError::OutOfRange);
            }
            readings.humidity_centi = Some(centi);
            rest = after;
        } else if id == 0x0C {
            let (milli, after) = take_u16_le(tail)?;
            if milli > 4000 {
                return Err(ParseError::OutOfRange);
            }
            readings.voltage_milli = Some(milli);
            rest = after;
        } else if id == 0x3E {
            rest = skip(tail, 4)?;
        } else {
            return Ok(Parsed { readings, unknown_object: Some(id) });
        }
    }
    Ok(Parsed { readings, unknown_object: None })
}

/// Drops `n` ignored bytes, or reports the frame truncated.
pub fn skip(bytes: &[u8], n: usize) -> (r: Result<&[u8], ParseError>)
    ensures
        bytes@.len() < n ==> r == Err::<&[u8], ParseError>(ParseError::Truncated),
        bytes@.len() >= n ==> (r matches Ok(rest) && rest@ == bytes@.skip(n as int)),
{
    if bytes.len() < n {
        Err(ParseError::Truncated)
    } else {
        Ok(slice_subrange(bytes, n, bytes.len()))
    }
}

/// Takes one byte, or reports the frame truncated.
pub fn take_u8(bytes: &[u8]) -> (r: Result<(u8, &[u8]), ParseError>)
    ensures
        bytes@.len() < 1 ==> (r matches Err(e) && e == ParseError::Truncated),
        bytes@.len() >= 1 ==> (r matches Ok((v, rest)) && v == bytes@[0] && rest@ == bytes@.skip(1)),
{
    if bytes.len() < 1 {
        Err(ParseError::Truncated)
    } else {
        Ok((bytes[0], slice_subrange(bytes, 1, bytes.len())))
    }
}

/// Takes a little-endian `u16`, or reports the frame truncated.
pub fn take_u16_le(bytes: &[u8]) -> (r: Result<(u16, &[u8]), ParseError>)
    ensures
        bytes@.len() < 2 ==> (r matches Err(e) && e == ParseError::Truncated),
        bytes@.len() >= 2 ==> (r matches Ok((v, rest)) && v == le_u16(bytes@[0], bytes@[1])
            && rest@ == bytes@.skip(2)),
{
    if bytes.len() < 2 {
        Err(ParseError::Truncated)
    } else {
        let lo = bytes[0];
        let hi = bytes[1];
        Ok((lo as u16 + 256 * (hi as u16), slice_subrange(bytes, 2, bytes.len())))
    }
}

/// AD type of "Service Data - 16-bit UUID".
pub const AD_SERVICE_DATA_16: u8 = 0x16;

/// The service data bytes following the `0xFCD2` UUID in the first AD
/// structure of `adv` at or after `pos` that carries them; `None` when a
/// zero-length structure ends the significant part, a structure runs past
/// the end, or no such structure exists.
pub open spec fn fcd2_from(adv: Seq<u8>, pos: int) -> Option<Seq<u8>>
    decreases adv.len() - pos,
{
    if pos < 0 || pos >= adv.len() {
        None
    } else {
        let len = adv[pos] as int;
        if len == 0 || pos + 1 + len > adv.len() {
            None
        } else if len >= 3 && adv[pos + 1] == AD_SERVICE_DATA_16 && adv[pos + 2] == 0xD2u8
            && adv[pos + 3] == 0xFCu8 {
            Some(adv.subrange(pos + 4, pos + 1 + len))
        } else {
            fcd2_from(adv, pos + 1 + len)
        }
    }
}

/// BTHome service data (`device_info` byte, then the object bytes) of a raw
/// advertising payload: the data of the first AD structure of type `0x16`
/// whose 16-bit UUID, little endian on the wire, is `0xFCD2`.
pub fn fcd2_service_data(adv: &[u8]) -> (r: Option<&[u8]>)
    ensures
        r matches Some(d) ==> fcd2_from(adv@, 0) == Some(d@),
        r is None ==> fcd2_from(adv@, 0) is None,
{
    let mut pos: usize = 0;
    while pos < adv.len()
        invariant
            pos <= adv@.len(),
            fcd2_from(adv@, pos as int) == fcd2_from(adv@, 0),
        decreases adv@.len() - pos,
    {
        let len: usize = adv[pos] as usize;
        if len == 0 || len > adv.len() - pos - 1 {
            return None;
        }
        if len >= 3 && adv[pos + 1] == AD_SERVICE_DATA_16 && adv[pos + 2] == 0xD2u8 && adv[pos + 3]
            == 0xFCu8 {
            return Some(slice_subrange(adv, pos + 4, pos + 1 + len));
        }
        pos = pos + 1 + len;
    }
    None
}

} // verus!
