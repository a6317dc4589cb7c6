use crate::checksum::{calculate_crc, crc16_arc};
use crate::cursor::{be_i32_at, be_u16_at, be_u32_at, be_u64_at, truncated_at, ByteCursor};
use crate::error::CustomError;
use crate::protocol::{
    records_view, AVLData, AVLDataView, GPSElement, Integrity, IoElement, IoElementValue,
    IoElementView, TeltonikaCodec8, TeltonikaCodec8View,
};
use vstd::prelude::*;

verus! {

/// The width on the wire of the values of an I/O group.
#[derive(Debug, Clone, Copy, PartialEq, Eq, Structural)]
pub enum IoWidth {
    One,
    Two,
    Four,
    Eight,
}

impl IoWidth {
    /// The number of bytes of one value.
    pub open spec fn spec_bytes(&self) -> usize {
        match *self {
            IoWidth::One => 1,
            IoWidth::Two => 2,
            IoWidth::Four => 4,
            IoWidth::Eight => 8,
        }
    }

    /// The number of bytes of one value.
    #[verifier::when_used_as_spec(spec_bytes)]
    pub fn bytes(&self) -> (n: usize)
        ensures
            n == self.spec_bytes(),
    {
        match *self {
            IoWidth::One => 1,
            IoWidth::Two => 2,
            IoWidth::Four => 4,
            IoWidth::Eight => 8,
        }
    }
}

/// The big-endian unsigned value of the `width` bytes of `s` that start at `i`.
pub open spec fn be_value_at(s: Seq<u8>, i: int, width: IoWidth) -> int {
    match width {
        IoWidth::One => s[i] as int,
        IoWidth::Two => be_u16_at(s, i),
        IoWidth::Four => be_u32_at(s, i),
        IoWidth::Eight => be_u64_at(s, i),
    }
}

/// The I/O element whose id byte stands at `i`, its value behind it.
pub open spec fn io_element_at(s: Seq<u8>, i: int, width: IoWidth) -> IoElementValue {
    IoElementValue { id: s[i], value: be_value_at(s, i + 1, width) as u64 }
}

/// One I/O element read at `pos`: the element and where it ends, or
/// `Truncated` at `pos` when the id and the value do not both fit.
pub open spec fn spec_io_element(s: Seq<u8>, pos: int, width: IoWidth) -> Result<
    (IoElementValue, int),
    CustomError,
> {
    if pos + 1 + width.spec_bytes() <= s.len() {
        Ok((io_element_at(s, pos, width), pos + 1 + width.spec_bytes()))
    } else {
        Err(truncated_at(pos))
    }
}

/// One I/O group read at `pos`: a count byte, then that many elements. The
/// result holds the elements in wire order and the position behind the last.
/// `Truncated` points at the count when it is missing, and behind it when the
/// elements it announces do not all fit.
pub open spec fn spec_io_group(s: Seq<u8>, pos: int, width: IoWidth) -> Result<
    (Seq<IoElementValue>, int),
    CustomError,
> {
    if pos + 1 > s.len() {
        Err(truncated_at(pos))
    } else {
        let n = s[pos] as int;
        let size = 1 + width.spec_bytes();
        if pos + 1 + n * size > s.len() {
            Err(truncated_at(pos + 1))
        } else {
            Ok(
                (
                    Seq::new(n as nat, |k: int| io_element_at(s, pos + 1 + k * size, width)),
                    pos + 1 + n * size,
                ),
            )
        }
    }
}

/// Reads an I/O element with a one-byte value.
pub fn get_1_byte_io_element(cur: &mut ByteCursor) -> (r: Result<IoElementValue, CustomError>)
    requires
        old(cur).wf(),
    ensures
        final(cur).yields(
            *old(cur),
            r,
            spec_io_element(old(cur).bytes(), old(cur).position(), IoWidth::One),
        ),
{
    cur.peek_exact(2)?;
    let id: u8 = cur.be_u8()?;
    let value: u8 = cur.be_u8()?;
    Ok(IoElementValue { id, value: value as u64 })
}

/// Reads an I/O element with a two-byte value.
pub fn get_2_byte_io_element(cur: &mut ByteCursor) -> (r: Result<IoElementValue, CustomError>)
    requires
        old(cur).wf(),
    ensures
        final(cur).yields(
            *old(cur),
            r,
            spec_io_element(old(cur).bytes(), old(cur).position(), IoWidth::Two),
        ),
{
    cur.peek_exact(3)?;
    let id: u8 = cur.be_u8()?;
    let value: u16 = cur.be_u16()?;
    Ok(IoElementValue { id, value: value as u64 })
}

/// Reads an I/O element with a four-byte value.
pub fn get_4_byte_io_element(cur: &mut ByteCursor) -> (r: Result<IoElementValue, CustomError>)
    requires
        old(cur).wf(),
    ensures
        final(cur).yields(
            *old(cur),
            r,
            spec_io_element(old(cur).bytes(), old(cur).position(), IoWidth::Four),
        ),
{
    cur.peek_exact(5)?;
    let id: u8 = cur.be_u8()?;
    let value: u32 = cur.be_u32()?;
    Ok(IoElementValue { id, value: value as u64 })
}

/// Reads an I/O element with an eight-byte value.
pub fn get_8_byte_io_element(cur: &mut ByteCursor) -> (r: Result<IoElementValue, CustomError>)
    requires
        old(cur).wf(),
    ensures
        final(cur).yields(
            *old(cur),
            r,
            spec_io_element(old(cur).bytes(), old(cur).position(), IoWidth::Eight),
        ),
{
    cur.peek_exact(9)?;
    let id: u8 = cur.be_u8()?;
    let value: u64 = cur.be_u64()?;
    Ok(IoElementValue { id, value })
}

/// Reads an I/O element whose value is `width` wide.
pub fn get_io_element(cur: &mut ByteCursor, width: IoWidth) -> (r: Result<
    IoElementValue,
    CustomError,
>)
    requires
        old(cur).wf(),
    ensures
        final(cur).yields(
            *old(cur),
            r,
            spec_io_element(old(cur).bytes(), old(cur).position(), width),
        ),
{
    match width {
        IoWidth::One => get_1_byte_io_element(cur),
        IoWidth::Two => get_2_byte_io_element(cur),
        IoWidth::Four => get_4_byte_io_element(cur),
        IoWidth::Eight => get_8_byte_io_element(cur),
    }
}

/// Reads one I/O group: a count byte, then that many elements whose values
/// are `width` wide, kept in wire order. A count that announces more than the
/// buffer holds is refused before any element is read.
pub fn get_io_group(cur: &mut ByteCursor, width: IoWidth) -> (r: Result<
    Vec<IoElementValue>,
    CustomError,
>)
    requires
        old(cur).wf(),
    ensures
        match spec_io_group(old(cur).bytes(), old(cur).position(), width) {
            Ok((elements, end)) => r is Ok && r.unwrap()@ == elements && final(cur).advanced_to(
                *old(cur),
                end,
            ),
            Err(e) => r is Err && r.unwrap_err() == e && final(cur).stopped_at(*old(cur), e),
        },
{
    let ghost s = cur.bytes();
    let ghost start = cur.position();
    let n: u8 = cur.be_u8()?;
    let size: usize = 1 + width.bytes();
    assert(n * size <= 255 * 9) by (nonlinear_arith)
        requires
            0 <= n <= 255,
            0 <= size <= 9,
    ;
    cur.peek_exact(n as usize * size)?;
    let ghost first = start + 1;
    let ghost expected = spec_io_group(s, start, width).unwrap().0;
    let mut elements: Vec<IoElementValue> = Vec::new();
    let mut i: u8 = 0;
    while i < n
        invariant
            cur.wf(),
            cur.bytes() == s,
            0 <= start,
            first == start + 1,
            size == 1 + width.spec_bytes(),
            i <= n,
            cur.position() == first + i * size,
            first + n * size <= s.len(),
            expected == Seq::new(n as nat, |k: int| io_element_at(s, first + k * size, width)),
            elements@ == expected.subrange(0, i as int),
        decreases n - i,
    {
        proof {
            lemma_slot_fits(i as int, n as int, size as int);
        }
        let element = get_io_element(cur, width)?;
        elements.push(element);
        i += 1;
        assert(elements@ =~= expected.subrange(0, i as int));
    }
    assert(elements@ =~= expected);
    Ok(elements)
}

/// Slot `i` of `n` slots of `size` bytes each ends where slot `i + 1` begins,
/// and no later than the last slot ends.
pub proof fn lemma_slot_fits(i: int, n: int, size: int)
    requires
        0 <= i < n,
        0 <= size,
    ensures
        (i + 1) * size == i * size + size,
        (i + 1) * size <= n * size,
        0 <= i * size,
{
    assert((i + 1) * size == i * size + size) by (nonlinear_arith);
    assert((i + 1) * size <= n * size) by (nonlinear_arith)
        requires
            i + 1 <= n,
            0 <= size,
    ;
    assert(0 <= i * size) by (nonlinear_arith)
        requires
            0 <= i,
            0 <= size,
    ;
}

/// The I/O block of a record read at `pos`: the id of the event that caused
/// the record, the advisory total, then the groups of one-, two-, four- and
/// eight-byte values in that order. The first field that does not fit gives
/// the error.
pub open spec fn spec_io_elements(s: Seq<u8>, pos: int) -> Result<(IoElementView, int), CustomError> {
    if pos + 1 > s.len() {
        Err(truncated_at(pos))
    } else if pos + 2 > s.len() {
        Err(truncated_at(pos + 1))
    } else {
        match spec_io_group(s, pos + 2, IoWidth::One) {
            Err(e) => Err(e),
            Ok((one, end_1)) => match spec_io_group(s, end_1, IoWidth::Two) {
                Err(e) => Err(e),
                Ok((two, end_2)) => match spec_io_group(s, end_2, IoWidth::Four) {
                    Err(e) => Err(e),
                    Ok((four, end_4)) => match spec_io_group(s, end_4, IoWidth::Eight) {
                        Err(e) => Err(e),
                        Ok((eight, end_8)) => Ok(
                            (
                                IoElementView {
                                    event_io_id: s[pos],
                                    number_of_total_io: s[pos + 1],
                                    io_1_byte_elements: one,
                                    io_2_byte_elements: two,
                                    io_4_byte_elements: four,
                                    io_8_byte_elements: eight,
                                },
                                end_8,
                            ),
                        ),
                    },
                },
            },
        }
    }
}

/// Reads the I/O block of a record. The advisory total is handed on as sent;
/// it is not held against the number of elements read.
pub fn get_io_elements(cur: &mut ByteCursor) -> (r: Result<IoElement, CustomError>)
    requires
        old(cur).wf(),
    ensures
        match spec_io_elements(old(cur).bytes(), old(cur).position()) {
            Ok((io, end)) => r is Ok && r.unwrap().wf() && r.unwrap()@ == io && final(
                cur
            ).advanced_to(*old(cur), end),
            Err(e) => r is Err && r.unwrap_err() == e && final(cur).stopped_at(*old(cur), e),
        },
{
    let event_io_id: u8 = cur.be_u8()?;
    let number_of_total_io: u8 = cur.be_u8()?;
    let io_1_byte_elements = get_io_group(cur, IoWidth::One)?;
    let io_2_byte_elements = get_io_group(cur, IoWidth::Two)?;
    let io_4_byte_elements = get_io_group(cur, IoWidth::Four)?;
    let io_8_byte_elements = get_io_group(cur, IoWidth::Eight)?;
    Ok(
        IoElement {
            event_io_id,
            number_of_total_io,
            number_of_1_byte_elements: io_1_byte_elements.len() as u8,
            io_1_byte_elements: Some(io_1_byte_elements),
            number_of_2_byte_elements: io_2_byte_elements.len() as u8,
            io_2_byte_elements: Some(io_2_byte_elements),
            number_of_4_byte_elements: io_4_byte_elements.len() as u8,
            io_4_byte_elements: Some(io_4_byte_elements),
            number_of_8_byte_elements: io_8_byte_elements.len() as u8,
            io_8_byte_elements: Some(io_8_byte_elements),
        },
    )
}

/// The number of bytes of a GPS fix on the wire.
pub const GPS_BLOCK_LEN: usize = 15;

/// The GPS fix read at `pos`: longitude, latitude, altitude, angle, visible
/// satellites and speed, in that order; `Truncated` at `pos` when the fifteen
/// bytes do not all fit.
pub open spec fn spec_gps_element(s: Seq<u8>, pos: int) -> Result<(GPSElement, int), CustomError> {
    if pos + 15 <= s.len() {
        Ok(
            (
                GPSElement {
                    longitude: be_i32_at(s, pos) as i32,
                    latitude: be_i32_at(s, pos + 4) as i32,
                    altitude: be_u16_at(s, pos + 8) as u16,
                    angle: be_u16_at(s, pos + 10) as u16,
                    visible_satellites: s[pos + 12],
                    speed: be_u16_at(s, pos + 13) as u16,
                },
                pos + 15,
            ),
        )
    } else {
        Err(truncated_at(pos))
    }
}

/// Reads a GPS fix.
pub fn get_gps_element(cur: &mut ByteCursor) -> (r: Result<GPSElement, CustomError>)
    requires
        old(cur).wf(),
    ensures
        final(cur).yields(*old(cur), r, spec_gps_element(old(cur).bytes(), old(cur).position())),
{
    cur.peek_exact(GPS_BLOCK_LEN)?;
    let longitude: i32 = cur.be_i32()?;
    let latitude: i32 = cur.be_i32()?;
    let altitude: u16 = cur.be_u16()?;
    let angle: u16 = cur.be_u16()?;
    let visible_satellites: u8 = cur.be_u8()?;
    let speed: u16 = cur.be_u16()?;
    Ok(GPSElement { longitude, latitude, altitude, angle, visible_satellites, speed })
}

/// The AVL record read at `pos`: timestamp, priority, GPS fix and I/O block,
/// in that order. The first field that does not fit gives the error.
pub open spec fn spec_avl_data(s: Seq<u8>, pos: int) -> Result<(AVLDataView, int), CustomError> {
    if pos + 8 > s.len() {
        Err(truncated_at(pos))
    } else if pos + 9 > s.len() {
        Err(truncated_at(pos + 8))
    } else {
        match spec_gps_element(s, pos + 9) {
            Err(e) => Err(e),
            Ok((gps, p)) => match spec_io_elements(s, p) {
                Err(e) => Err(e),
                Ok((io, end)) => Ok(
                    (
                        AVLDataView {
                            timestamp: be_u64_at(s, pos) as u64,
                            priority: s[pos + 8],
                            gps,
                            io,
                        },
                        end,
                    ),
                ),
            },
        }
    }
}

/// Reads one AVL record. No part of a record is handed out when a later part fails.
pub fn get_avl_data(cur: &mut ByteCursor) -> (r: Result<AVLData, CustomError>)
    requires
        old(cur).wf(),
    ensures
        match spec_avl_data(old(cur).bytes(), old(cur).position()) {
            Ok((record, end)) => r is Ok && r.unwrap().wf() && r.unwrap()@ == record && final(
                cur
            ).advanced_to(*old(cur), end),
            Err(e) => r is Err && r.unwrap_err() == e && final(cur).stopped_at(*old(cur), e),
        },
{
    let timestamp: u64 = cur.be_u64()?;
    let priority: u8 = cur.be_u8()?;
    let gps = get_gps_element(cur)?;
    let io = get_io_elements(cur)?;
    Ok(AVLData { timestamp, priority, gps, io })
}

/// `count` AVL records read one after another from `pos`: the records in wire
/// order and the position behind the last, or the error of the first record
/// that fails.
pub open spec fn spec_records(s: Seq<u8>, pos: int, count: nat) -> Result<
    (Seq<AVLDataView>, int),
    CustomError,
>
    decreases count,
{
    if count == 0 {
        Ok((Seq::empty(), pos))
    } else {
        match spec_records(s, pos, (count - 1) as nat) {
            Err(e) => Err(e),
            Ok((records, p)) => match spec_avl_data(s, p) {
                Err(e) => Err(e),
                Ok((record, end)) => Ok((records.push(record), end)),
            },
        }
    }
}

/// Once one record has failed, asking for more records fails the same way.
pub proof fn lemma_records_error_persists(s: Seq<u8>, pos: int, failed: nat, count: nat)
    requires
        failed <= count,
        spec_records(s, pos, failed) is Err,
    ensures
        spec_records(s, pos, count) == spec_records(s, pos, failed),
    decreases count,
{
    if failed < count {
        lemma_records_error_persists(s, pos, failed, (count - 1) as nat);
    }
}

/// Reads `count` AVL records, in wire order.
pub fn get_records(cur: &mut ByteCursor, count: u8) -> (r: Result<Vec<AVLData>, CustomError>)
    requires
        old(cur).wf(),
    ensures
        match spec_records(old(cur).bytes(), old(cur).position(), count as nat) {
            Ok((records, end)) => {
                &&& r is Ok
                &&& r.unwrap()@.len() == count
                &&& records_view(r.unwrap()@) == records
                &&& forall|i: int| 0 <= i < r.unwrap()@.len() ==> (#[trigger] r.unwrap()@[i]).wf()
                &&& final(cur).advanced_to(*old(cur), end)
            },
            Err(e) => r is Err && r.unwrap_err() == e && final(cur).stopped_at(*old(cur), e),
        },
{
    let ghost s = cur.bytes();
    let ghost start = cur.position();
    let mut records: Vec<AVLData> = Vec::new();
    let mut i: u8 = 0;
    assert(records_view(records@) =~= Seq::<AVLDataView>::empty());
    while i < count
        invariant
            cur.wf(),
            cur.bytes() == s,
            s == old(cur).bytes(),
            start == old(cur).position(),
            i <= count,
            records@.len() == i,
            start <= cur.position(),
            spec_records(s, start, i as nat) == Ok::<(Seq<AVLDataView>, int), CustomError>(
                (records_view(records@), cur.position()),
            ),
            forall|k: int| 0 <= k < records@.len() ==> (#[trigger] records@[k]).wf(),
        decreases count - i,
    {
        let ghost before = records@;
        match get_avl_data(cur) {
            Ok(record) => {
                records.push(record);
                i += 1;
                assert(records_view(records@) =~= records_view(before).push(record@));
            },
            Err(e) => {
                proof {
                    assert(spec_records(s, start, (i + 1) as nat) == Err::<
                        (Seq<AVLDataView>, int),
                        CustomError,
                    >(e));
                    lemma_records_error_persists(s, start, (i + 1) as nat, count as nat);
                }
                return Err(e);
            },
        }
    }
    Ok(records)
}

/// The four bytes of `s` at `pos` are the zero preamble of a frame.
pub open spec fn is_frame_preamble(s: Seq<u8>, pos: int) -> bool {
    s[pos] == 0 && s[pos + 1] == 0 && s[pos + 2] == 0 && s[pos + 3] == 0
}

/// The head of a frame read at `pos`: the zero preamble, the data length, and
/// the presence of as many bytes as the data length declares. The result is
/// the data length and the position of the first declared byte.
pub open spec fn spec_frame_header(s: Seq<u8>, pos: int) -> Result<(u32, int), CustomError> {
    if pos + 4 > s.len() {
        Err(truncated_at(pos))
    } else if !is_frame_preamble(s, pos) {
        Err(CustomError::InvalidPreamble { offset: pos as usize })
    } else if pos + 8 > s.len() {
        Err(truncated_at(pos + 4))
    } else if pos + 8 + be_u32_at(s, pos + 4) > s.len() {
        Err(truncated_at(pos + 8))
    } else {
        Ok((be_u32_at(s, pos + 4) as u32, pos + 8))
    }
}

/// Reads the head of a frame and hands out the data length with the bytes it
/// declares, which are the range of the checksum. The cursor stops in front of
/// them: they are looked at, not consumed.
pub fn get_frame_header<'a>(cur: &mut ByteCursor<'a>) -> (r: Result<(u32, &'a [u8]), CustomError>)
    requires
        old(cur).wf(),
    ensures
        match spec_frame_header(old(cur).bytes(), old(cur).position()) {
            Ok((data_length, end)) => {
                &&& r is Ok
                &&& r.unwrap().0 == data_length
                &&& r.unwrap().1@ == old(cur).bytes().subrange(end, end + data_length)
                &&& final(cur).advanced_to(*old(cur), end)
            },
            Err(e) => r is Err && r.unwrap_err() == e && final(cur).stopped_at(*old(cur), e),
        },
{
    let preamble = cur.peek_exact(4)?;
    if preamble[0] != 0 || preamble[1] != 0 || preamble[2] != 0 || preamble[3] != 0 {
        return Err(CustomError::InvalidPreamble { offset: cur.offset() });
    }
    cur.take_exact(4)?;
    let data_length: u32 = cur.be_u32()?;
    let declared = cur.peek_exact(data_length as usize)?;
    Ok((data_length, declared))
}

/// What follows the head of a frame, read at `pos`: the codec id, which must
/// be 8; the record count and that many records; the echo of the record
/// count; and the transmitted checksum, four bytes wide. `crc` is the checksum
/// computed over the declared range. The result is the frame, the outcome of
/// the two integrity checks, and the position behind the checksum.
pub open spec fn spec_frame_body(s: Seq<u8>, pos: int, data_length: u32, crc: u16) -> Result<
    (TeltonikaCodec8View, Integrity, int),
    CustomError,
> {
    if pos + 1 > s.len() {
        Err(truncated_at(pos))
    } else if s[pos] != 8 {
        Err(CustomError::UnsupportedCodec { offset: pos as usize })
    } else if pos + 2 > s.len() {
        Err(truncated_at(pos + 1))
    } else {
        match spec_records(s, pos + 2, s[pos + 1] as nat) {
            Err(e) => Err(e),
            Ok((records, p)) => if p + 1 > s.len() {
                Err(truncated_at(p))
            } else if p + 5 > s.len() {
                Err(truncated_at(p + 1))
            } else {
                Ok(
                    (
                        TeltonikaCodec8View {
                            data_length,
                            codec_id: 8,
                            number_of_data: s[pos + 1],
                            avl_data: records,
                        },
                        Integrity {
                            record_count_matches: s[p] == s[pos + 1],
                            checksum_matches: be_u32_at(s, p + 1) == crc,
                        },
                        p + 5,
                    ),
                )
            },
        }
    }
}

/// Reads what follows the head of a frame, given the data length that the
/// head declared and the checksum computed over the declared range. A
/// mismatch of the record-count echo or of the checksum does not stop the
/// decode: the frame is handed out with the outcome of both checks.
pub fn get_frame_body(cur: &mut ByteCursor, data_length: u32, crc: u16) -> (r: Result<
    (TeltonikaCodec8, Integrity),
    CustomError,
>)
    requires
        old(cur).wf(),
    ensures
        match spec_frame_body(old(cur).bytes(), old(cur).position(), data_length, crc) {
            Ok((frame, integrity, end)) => {
                &&& r is Ok
                &&& r.unwrap().0.wf()
                &&& r.unwrap().0@ == frame
                &&& r.unwrap().1 == integrity
                &&& final(cur).advanced_to(*old(cur), end)
            },
            Err(e) => r is Err && r.unwrap_err() == e && final(cur).stopped_at(*old(cur), e),
        },
{
    let codec = cur.peek_exact(1)?;
    if codec[0] != 8 {
        return Err(CustomError::UnsupportedCodec { offset: cur.offset() });
    }
    let codec_id: u8 = cur.be_u8()?;
    let number_of_data: u8 = cur.be_u8()?;
    let avl_data = get_records(cur, number_of_data)?;
    let echo: u8 = cur.be_u8()?;
    let transmitted: u32 = cur.be_u32()?;
    let integrity = Integrity {
        record_count_matches: echo == number_of_data,
        checksum_matches: transmitted == crc as u32,
    };
    Ok((TeltonikaCodec8 { data_length, codec_id, number_of_data, avl_data }, integrity))
}

/// One whole frame read from the start of `s`: the head, then the rest with
/// the CRC-16/ARC of the declared range as the expected checksum.
pub open spec fn spec_codec_8(s: Seq<u8>) -> Result<
    (TeltonikaCodec8View, Integrity, int),
    CustomError,
> {
    match spec_frame_header(s, 0) {
        Err(e) => Err(e),
        Ok((data_length, p)) => spec_frame_body(
            s,
            p,
            data_length,
            crc16_arc(s.subrange(p, p + data_length)),
        ),
    }
}

/// Decodes one Codec 8 frame from the start of `input`. On success the result
/// is the bytes behind the frame, the frame, and the outcome of its two
/// integrity checks; the checksum is computed over the declared range before
/// any of it is decoded.
pub fn parse_teltonika_codec_8(input: &[u8]) -> (r: Result<
    (&[u8], TeltonikaCodec8, Integrity),
    CustomError,
>)
    ensures
        match spec_codec_8(input@) {
            Ok((frame, integrity, end)) => {
                &&& r is Ok
                &&& r.unwrap().0@ == input@.subrange(end, input@.len() as int)
                &&& r.unwrap().1.wf()
                &&& r.unwrap().1@ == frame
                &&& r.unwrap().2 == integrity
            },
            Err(e) => r is Err && r.unwrap_err() == e,
        },
{
    let mut cur = ByteCursor::new(input);
    let (data_length, declared) = get_frame_header(&mut cur)?;
    let crc: u16 = calculate_crc(declared);
    let (frame, integrity) = get_frame_body(&mut cur, data_length, crc)?;
    Ok((cur.rest(), frame, integrity))
}

} // verus!
