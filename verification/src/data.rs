//! The parsed measurement record and its decoder.

use vstd::prelude::*;
use crate::frame::START_HEADER_1;
use crate::frame::START_HEADER_2;
use crate::frame::be16;
use crate::frame::checksum_ok;
use crate::frame::lemma_be16_split;
use crate::frame::lemma_sum_bytes_bounds;
use crate::frame::sum_bytes;
use crate::reader::ReaderModel;
use crate::reader::feed;
use crate::reader::feed_completes;
use crate::reader::lemma_resynchronization;
use crate::reader::wf_frame;

verus! {

/// One complete measurement from the sensor: three concentration triples and
/// six particle-size-bucket counts, all unsigned 16-bit.
#[derive(Debug, Default, PartialEq, Eq, Structural)]
pub struct SensorData {
    /// PM1.0 concentration in µg/m³, corrected for standard atmosphere
    pub pm10: u16,
    /// PM2.5 concentration in µg/m³, corrected for standard atmosphere
    pub pm25: u16,
    /// PM10 concentration in µg/m³, corrected for standard atmosphere
    pub pm100: u16,
    /// PM1.0 concentration in µg/m³, in current atmosphere
    pub pm10_atmos: u16,
    /// PM2.5 concentration in µg/m³, in current atmosphere
    pub pm25_atmos: u16,
    /// PM10 concentration in µg/m³, in current atmosphere
    pub pm100_atmos: u16,
    /// Number of >0.3µm particles per 0.1L
    pub pm03_count: u16,
    /// Number of >0.5µm particles per 0.1L
    pub pm05_count: u16,
    /// Number of >1.0µm particles per 0.1L
    pub pm10_count: u16,
    /// Number of >2.5µm particles per 0.1L
    pub pm25_count: u16,
    /// Number of >5.0µm particles per 0.1L
    pub pm50_count: u16,
    /// Number of >10.0µm particles per 0.1L
    pub pm100_count: u16,
}

/// The measurement encoded in a frame buffer: each field is the big-endian
/// 16-bit value at its fixed pair of offsets between 4 and 27.
pub open spec fn decoded_fields(raw: Seq<u8>) -> SensorData
    recommends
        raw.len() >= 28,
{
    SensorData {
        pm10: be16(raw[4], raw[5]) as u16,
        pm25: be16(raw[6], raw[7]) as u16,
        pm100: be16(raw[8], raw[9]) as u16,
        pm10_atmos: be16(raw[10], raw[11]) as u16,
        pm25_atmos: be16(raw[12], raw[13]) as u16,
        pm100_atmos: be16(raw[14], raw[15]) as u16,
        pm03_count: be16(raw[16], raw[17]) as u16,
        pm05_count: be16(raw[18], raw[19]) as u16,
        pm10_count: be16(raw[20], raw[21]) as u16,
        pm25_count: be16(raw[22], raw[23]) as u16,
        pm50_count: be16(raw[24], raw[25]) as u16,
        pm100_count: be16(raw[26], raw[27]) as u16,
    }
}

impl SensorData {
    /// Decode a validated frame buffer. Performs no validation itself:
    /// callers must have checked the frame's checksum first.
    pub fn from_raw(raw: &[u8; 32]) -> (r: Self)
        ensures
            r == decoded_fields(raw@),
    {
        SensorData {
            pm10: be16_exec(raw[4], raw[5]),
            pm25: be16_exec(raw[6], raw[7]),
            pm100: be16_exec(raw[8], raw[9]),
            pm10_atmos: be16_exec(raw[10], raw[11]),
            pm25_atmos: be16_exec(raw[12], raw[13]),
            pm100_atmos: be16_exec(raw[14], raw[15]),
            pm03_count: be16_exec(raw[16], raw[17]),
            pm05_count: be16_exec(raw[18], raw[19]),
            pm10_count: be16_exec(raw[20], raw[21]),
            pm25_count: be16_exec(raw[22], raw[23]),
            pm50_count: be16_exec(raw[24], raw[25]),
            pm100_count: be16_exec(raw[26], raw[27]),
        }
    }
}

/// Read a big-endian 16-bit field from its two bytes.
fn be16_exec(hi: u8, lo: u8) -> (r: u16)
    ensures
        r == be16(hi, lo),
{
    (hi as u16) * 256 + (lo as u16)
}

/// High byte of a 16-bit value on the wire.
pub open spec fn hi8(x: u16) -> u8 {
    (x / 256) as u8
}

/// Low byte of a 16-bit value on the wire.
pub open spec fn lo8(x: u16) -> u8 {
    (x % 256) as u8
}

/// The summed region of a measurement response frame for `d`: both magic
/// bytes, the declared length 28, the twelve fields big-endian at offsets
/// 4 through 27, and two reserved zero bytes.
pub open spec fn response_body(d: SensorData) -> Seq<u8> {
    seq![
        START_HEADER_1,
        START_HEADER_2,
        0u8,
        28u8,
        hi8(d.pm10),
        lo8(d.pm10),
        hi8(d.pm25),
        lo8(d.pm25),
        hi8(d.pm100),
        lo8(d.pm100),
        hi8(d.pm10_atmos),
        lo8(d.pm10_atmos),
        hi8(d.pm25_atmos),
        lo8(d.pm25_atmos),
        hi8(d.pm100_atmos),
        lo8(d.pm100_atmos),
        hi8(d.pm03_count),
        lo8(d.pm03_count),
        hi8(d.pm05_count),
        lo8(d.pm05_count),
        hi8(d.pm10_count),
        lo8(d.pm10_count),
        hi8(d.pm25_count),
        lo8(d.pm25_count),
        hi8(d.pm50_count),
        lo8(d.pm50_count),
        hi8(d.pm100_count),
        lo8(d.pm100_count),
        0u8,
        0u8,
    ]
}

/// The full 32-byte measurement response frame for `d`: the summed region
/// followed by its 16-bit checksum, big-endian.
pub open spec fn response_frame(d: SensorData) -> Seq<u8> {
    let chk = sum_bytes(response_body(d));
    response_body(d) + seq![(chk / 256) as u8, (chk % 256) as u8]
}

/// Round trip: the response frame for any measurement is well formed, and
/// feeding it byte by byte into a scanning collector completes a frame,
/// passes the checksum test, and decodes back to the same measurement, with
/// the collector reset and unharmed.
pub proof fn lemma_response_round_trip(m: ReaderModel, d: SensorData)
    requires
        m.inv(),
        m.cursor == 0,
    ensures
        wf_frame(response_frame(d)),
        feed_completes(m, response_frame(d)),
        feed(m, response_frame(d)).inv(),
        feed(m, response_frame(d)).cursor == 0,
        feed(m, response_frame(d)).length == 28,
        checksum_ok(feed(m, response_frame(d)).data, 28),
        decoded_fields(feed(m, response_frame(d)).data) == d,
{
    let body = response_body(d);
    let chk = sum_bytes(body);
    lemma_sum_bytes_bounds(body);
    let f = response_frame(d);
    assert(f.len() == 32);
    assert(wf_frame(f));
    let noise = Seq::<u8>::empty();
    assert(noise + f =~= f);
    lemma_resynchronization(m, noise, f);
    let fin = feed(m, f);
    assert(fin.data.subrange(0, 32) == f);
    assert(fin.data.subrange(0, 30) =~= body) by {
        assert(forall|j: int| 0 <= j < 30 ==> fin.data.subrange(0, 32)[j] == fin.data[j]);
    }
    lemma_be16_split(chk);
    assert(f[30] == (chk / 256) as u8);
    assert(f[31] == (chk % 256) as u8);
    assert(fin.data[30] == fin.data.subrange(0, 32)[30]);
    assert(fin.data[31] == fin.data.subrange(0, 32)[31]);
    assert(sum_bytes(fin.data.subrange(0, 30)) == chk);
    assert(checksum_ok(fin.data, 28));
    lemma_be16_split(d.pm10 as int);
    lemma_be16_split(d.pm25 as int);
    lemma_be16_split(d.pm100 as int);
    lemma_be16_split(d.pm10_atmos as int);
    lemma_be16_split(d.pm25_atmos as int);
    lemma_be16_split(d.pm100_atmos as int);
    lemma_be16_split(d.pm03_count as int);
    lemma_be16_split(d.pm05_count as int);
    lemma_be16_split(d.pm10_count as int);
    lemma_be16_split(d.pm25_count as int);
    lemma_be16_split(d.pm50_count as int);
    lemma_be16_split(d.pm100_count as int);
    assert(decoded_fields(fin.data) == d);
}

} // verus!
