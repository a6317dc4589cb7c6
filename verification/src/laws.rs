use crate::checksum::crc16_arc;
use crate::cursor::be_u32_at;
use crate::error::CustomError;
use crate::imei::{first_non_digit, spec_imei, spec_imei_digits};
use crate::parser::{
    io_element_at, lemma_slot_fits, spec_avl_data, spec_codec_8, spec_frame_body, spec_frame_header,
    spec_gps_element, spec_io_elements, spec_io_group, spec_records, IoWidth,
};
use vstd::prelude::*;

verus! {

/// How the outcome `cut` of a decoder on the first `k` bytes of a buffer goes
/// with its outcome `whole` on all of the buffer, when that is a success: the
/// same where the value ends within the first `k` bytes, and `Truncated`
/// where it does not.
pub open spec fn cut_short<T>(
    whole: Result<(T, int), CustomError>,
    cut: Result<(T, int), CustomError>,
    k: int,
) -> bool {
    match whole {
        Ok((_, end)) => if end <= k {
            cut == whole
        } else {
            cut matches Err(e) && e is Truncated
        },
        Err(_) => true,
    }
}

/// A decoder's success ends between where it began and the end of the buffer.
pub open spec fn ends_within<T>(whole: Result<(T, int), CustomError>, pos: int, len: nat) -> bool {
    whole matches Ok((_, end)) ==> pos <= end <= len
}

/// An I/O group decodes from a prefix of the buffer as from the whole of it
/// when the prefix holds all of the group, and is `Truncated` when it does not.
pub proof fn lemma_io_group_prefix(s: Seq<u8>, k: int, pos: int, width: IoWidth)
    requires
        0 <= pos,
        0 <= k <= s.len(),
    ensures
        ends_within(spec_io_group(s, pos, width), pos, s.len()),
        cut_short(spec_io_group(s, pos, width), spec_io_group(s.subrange(0, k), pos, width), k),
{
    let t = s.subrange(0, k);
    if spec_io_group(s, pos, width) is Ok {
        let n = s[pos] as int;
        let size = 1 + width.spec_bytes();
        assert(0 <= n * size) by (nonlinear_arith)
            requires
                0 <= n,
                0 <= size,
        ;
        let end = pos + 1 + n * size;
        if end <= k {
            let cut = Seq::new(n as nat, |j: int| io_element_at(t, pos + 1 + j * size, width));
            let whole = Seq::new(n as nat, |j: int| io_element_at(s, pos + 1 + j * size, width));
            assert forall|j: int| 0 <= j < n implies #[trigger] cut[j] == whole[j] by {
                lemma_slot_fits(j, n, size);
            }
            assert(cut =~= whole);
        }
    }
}

/// The I/O block of a record decodes from a prefix of the buffer as from the
/// whole of it when the prefix holds all of the block, and is `Truncated`
/// when it does not.
pub proof fn lemma_io_elements_prefix(s: Seq<u8>, k: int, pos: int)
    requires
        0 <= pos,
        0 <= k <= s.len(),
    ensures
        ends_within(spec_io_elements(s, pos), pos, s.len()),
        cut_short(spec_io_elements(s, pos), spec_io_elements(s.subrange(0, k), pos), k),
{
    let t = s.subrange(0, k);
    if spec_io_elements(s, pos) is Ok {
        lemma_io_group_prefix(s, k, pos + 2, IoWidth::One);
        let end_1 = spec_io_group(s, pos + 2, IoWidth::One).unwrap().1;
        lemma_io_group_prefix(s, k, end_1, IoWidth::Two);
        let end_2 = spec_io_group(s, end_1, IoWidth::Two).unwrap().1;
        lemma_io_group_prefix(s, k, end_2, IoWidth::Four);
        let end_4 = spec_io_group(s, end_2, IoWidth::Four).unwrap().1;
        lemma_io_group_prefix(s, k, end_4, IoWidth::Eight);
    }
}

/// An AVL record decodes from a prefix of the buffer as from the whole of it
/// when the prefix holds all of the record, and is `Truncated` when it does
/// not.
pub proof fn lemma_avl_data_prefix(s: Seq<u8>, k: int, pos: int)
    requires
        0 <= pos,
        0 <= k <= s.len(),
    ensures
        ends_within(spec_avl_data(s, pos), pos, s.len()),
        cut_short(spec_avl_data(s, pos), spec_avl_data(s.subrange(0, k), pos), k),
{
    if spec_avl_data(s, pos) is Ok {
        let p = spec_gps_element(s, pos + 9).unwrap().1;
        lemma_io_elements_prefix(s, k, p);
    }
}

/// A run of AVL records decodes from a prefix of the buffer as from the whole
/// of it when the prefix holds all of the records, and is `Truncated` when it
/// does not. A decoded run holds as many records as were asked for.
pub proof fn lemma_records_prefix(s: Seq<u8>, k: int, pos: int, count: nat)
    requires
        0 <= pos <= k <= s.len(),
    ensures
        ends_within(spec_records(s, pos, count), pos, s.len()),
        spec_records(s, pos, count) matches Ok((records, _)) ==> records.len() == count,
        cut_short(spec_records(s, pos, count), spec_records(s.subrange(0, k), pos, count), k),
    decreases count,
{
    if count > 0 && spec_records(s, pos, count) is Ok {
        lemma_records_prefix(s, k, pos, (count - 1) as nat);
        let p = spec_records(s, pos, (count - 1) as nat).unwrap().1;
        lemma_avl_data_prefix(s, k, p);
    }
}

/// The head of a frame decodes from a prefix of the buffer as from the whole
/// of it when the prefix holds the head and the bytes it declares, and is
/// `Truncated` when it does not.
pub proof fn lemma_frame_header_prefix(s: Seq<u8>, k: int, pos: int)
    requires
        0 <= pos,
        0 <= k <= s.len(),
    ensures
        spec_frame_header(s, pos) matches Ok((data_length, p)) ==> {
            &&& p == pos + 8
            &&& p + data_length <= s.len()
            &&& if p + data_length <= k {
                spec_frame_header(s.subrange(0, k), pos) == spec_frame_header(s, pos)
            } else {
                spec_frame_header(s.subrange(0, k), pos) matches Err(e) && e is Truncated
            }
        },
{
}

/// What follows the head of a frame decodes from a prefix of the buffer as
/// from the whole of it when the prefix holds all of it, and is `Truncated`
/// when it does not.
pub proof fn lemma_frame_body_prefix(s: Seq<u8>, k: int, pos: int, data_length: u32, crc: u16)
    requires
        0 <= pos,
        0 <= k <= s.len(),
    ensures
        spec_frame_body(s, pos, data_length, crc) matches Ok((_, _, end)) ==> {
            &&& pos + 7 <= end <= s.len()
            &&& if end <= k {
                spec_frame_body(s.subrange(0, k), pos, data_length, crc) == spec_frame_body(
                    s,
                    pos,
                    data_length,
                    crc,
                )
            } else {
                spec_frame_body(s.subrange(0, k), pos, data_length, crc) matches Err(e)
                    && e is Truncated
            }
        },
{
    if spec_frame_body(s, pos, data_length, crc) is Ok {
        lemma_records_prefix(s, pos + 2, pos + 2, s[pos + 1] as nat);
        if pos + 2 <= k {
            lemma_records_prefix(s, k, pos + 2, s[pos + 1] as nat);
        }
    }
}

/// Every frame that decodes ends within its input, behind the bytes that its
/// data length declares or, where the records run past them, behind the
/// records.
pub proof fn lemma_frame_ends_within_input(s: Seq<u8>)
    requires
        spec_codec_8(s) is Ok,
    ensures
        15 <= spec_codec_8(s).unwrap().2 <= s.len(),
        8 + spec_codec_8(s).unwrap().0.data_length <= s.len(),
{
    lemma_frame_header_prefix(s, 0, 0);
    let (data_length, p) = spec_frame_header(s, 0).unwrap();
    lemma_frame_body_prefix(s, 0, p, data_length, crc16_arc(s.subrange(p, p + data_length)));
}

/// A frame cut short anywhere before its end is refused as `Truncated`:
/// whenever an input decodes to a frame that ends at `end`, each of its
/// prefixes shorter than `end` fails to decode, and fails with `Truncated`.
pub proof fn lemma_truncated_frame_is_refused(s: Seq<u8>, k: int)
    requires
        spec_codec_8(s) is Ok,
        0 <= k < spec_codec_8(s).unwrap().2,
    ensures
        k <= s.len(),
        spec_codec_8(s.subrange(0, k)) matches Err(e) && e is Truncated,
{
    lemma_frame_ends_within_input(s);
    lemma_frame_header_prefix(s, k, 0);
    let (data_length, p) = spec_frame_header(s, 0).unwrap();
    let crc = crc16_arc(s.subrange(p, p + data_length));
    lemma_frame_body_prefix(s, k, p, data_length, crc);
    if p + data_length <= k {
        assert(s.subrange(0, k).subrange(p, p + data_length) =~= s.subrange(p, p + data_length));
    }
}

/// What stands behind a frame has no part in how it decodes: whenever an
/// input decodes to a frame that ends at `end`, each of its prefixes that
/// holds those `end` bytes and the bytes that the data length declares
/// decodes to the same frame, with the same outcome of the integrity checks
/// and the same end.
pub proof fn lemma_frame_ignores_what_follows(s: Seq<u8>, k: int)
    requires
        spec_codec_8(s) is Ok,
        spec_codec_8(s).unwrap().2 <= k <= s.len(),
        8 + spec_codec_8(s).unwrap().0.data_length <= k,
    ensures
        spec_codec_8(s.subrange(0, k)) == spec_codec_8(s),
{
    lemma_frame_ends_within_input(s);
    lemma_frame_header_prefix(s, k, 0);
    let (data_length, p) = spec_frame_header(s, 0).unwrap();
    let crc = crc16_arc(s.subrange(p, p + data_length));
    lemma_frame_body_prefix(s, k, p, data_length, crc);
    assert(s.subrange(0, k).subrange(p, p + data_length) =~= s.subrange(p, p + data_length));
}

/// What a decoded frame says of its input: the codec id is 8, the data
/// length and the record count are the ones sent, and there are as many
/// records as the record count says.
pub proof fn lemma_frame_reports_its_input(s: Seq<u8>)
    requires
        spec_codec_8(s) is Ok,
    ensures
        spec_codec_8(s).unwrap().0.codec_id == 8 == s[8],
        spec_codec_8(s).unwrap().0.data_length == be_u32_at(s, 4),
        spec_codec_8(s).unwrap().0.number_of_data == s[9],
        spec_codec_8(s).unwrap().0.avl_data.len() == s[9],
{
    lemma_frame_ends_within_input(s);
    lemma_records_prefix(s, 10, 10, s[9] as nat);
}

/// The two integrity checks of a decoded frame, held against its input. The
/// frame ends with the echo of the record count, one byte, and the
/// transmitted checksum, four bytes. The record-count check passes exactly
/// when the echo equals the record count, which is also the number of
/// records; the checksum check passes exactly when the transmitted checksum,
/// all 32 bits of it, equals the CRC-16/ARC of the bytes that the data length
/// declares. So in a frame that passes both, the two counts agree and the
/// checksum is the one recomputed over the declared range.
pub proof fn lemma_integrity_checks(s: Seq<u8>)
    requires
        spec_codec_8(s) is Ok,
    ensures
        ({
            let (frame, integrity, end) = spec_codec_8(s).unwrap();
            &&& integrity.record_count_matches <==> s[end - 5] == frame.number_of_data
            &&& integrity.record_count_matches ==> s[end - 5] == frame.avl_data.len()
            &&& integrity.checksum_matches <==> be_u32_at(s, end - 4) == crc16_arc(
                s.subrange(8, 8 + frame.data_length),
            )
            &&& integrity.spec_verdict() is Ok <==> integrity.record_count_matches
                && integrity.checksum_matches
        }),
{
    lemma_frame_reports_its_input(s);
}

/// An IMEI handshake cut short anywhere before its end is refused as
/// `Truncated`, and what stands behind a handshake has no part in how it
/// decodes. A decoded handshake is seventeen bytes long and its IMEI has
/// fifteen characters, each an ASCII decimal digit.
pub proof fn lemma_imei_prefix(s: Seq<u8>, k: int)
    requires
        spec_imei(s) is Ok,
        0 <= k <= s.len(),
    ensures
        spec_imei(s).unwrap().1 == 17 <= s.len(),
        spec_imei(s).unwrap().0.len() == 15,
        forall|i: int| 0 <= i < 15 ==> '0' <= #[trigger] spec_imei(s).unwrap().0[i] <= '9',
        k < 17 ==> (spec_imei(s.subrange(0, k)) matches Err(e) && e is Truncated),
        k >= 17 ==> spec_imei(s.subrange(0, k)) == spec_imei(s),
{
    let t = s.subrange(0, k);
    lemma_all_digits(s, 2, 17);
    if k >= 17 {
        lemma_same_digits(s, t, 2, 17);
        assert(spec_imei_digits(t, 2).unwrap().0 =~= spec_imei_digits(s, 2).unwrap().0);
    }
}

/// Where no byte of `from..to` fails to be a digit, each of them is one.
pub proof fn lemma_all_digits(s: Seq<u8>, from: int, to: int)
    requires
        from <= to,
        first_non_digit(s, from, to) >= to,
    ensures
        forall|i: int| from <= i < to ==> 0x30 <= #[trigger] s[i] <= 0x39,
    decreases to - from,
{
    if from < to {
        lemma_first_non_digit_bounds(s, from + 1, to);
        lemma_all_digits(s, from + 1, to);
    }
}

/// The first byte that is no digit lies in `from..to`, or is reported as `to`.
pub proof fn lemma_first_non_digit_bounds(s: Seq<u8>, from: int, to: int)
    requires
        from <= to,
    ensures
        from <= first_non_digit(s, from, to) <= to,
    decreases to - from,
{
    if from < to {
        lemma_first_non_digit_bounds(s, from + 1, to);
    }
}

/// Two buffers that agree on `from..to` have their first byte that is no
/// digit at the same place there.
pub proof fn lemma_same_digits(s: Seq<u8>, t: Seq<u8>, from: int, to: int)
    requires
        0 <= from <= to <= s.len(),
        to <= t.len(),
        forall|i: int| from <= i < to ==> s[i] == t[i],
    ensures
        first_non_digit(s, from, to) == first_non_digit(t, from, to),
    decreases to - from,
{
    if from < to {
        lemma_same_digits(s, t, from + 1, to);
    }
}

} // verus!
