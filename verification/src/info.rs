//! The PSP's answer to a TSC information request.
use vstd::prelude::*;

use crate::le;

verus! {

broadcast use vstd::array::group_array_axioms;

/// Decoded response from `SNP_MSG_TSC_INFO_RSP`.
///
/// Layout: status (`u32`), a reserved `u32`, tsc_scale (`u64`), tsc_offset (`u64`),
/// tsc_factor (`u32`), and 100 reserved bytes; 128 bytes in all. [`TscInfoResp::to_bytes`] and
/// [`TscInfoResp::from_bytes`] go by that layout, with every number in little-endian order;
/// where the fields of a value lie in memory is left to the compiler.
///
/// The reserved fields carry no meaning. They are public only because contracts in other modules
/// cannot speak of a struct that hides a field.
#[derive(Debug, Clone, Copy)]
pub struct TscInfoResp {
    pub status: u32,
    pub _rsvd1: u32,
    pub tsc_scale: u64,
    pub tsc_offset: u64,
    pub tsc_factor: u32,
    pub _rsvd2: [u8; 100],
}

impl Default for TscInfoResp {
    /// The response whose fields, reserved ones included, are all zero.
    fn default() -> (resp: Self)
        ensures
            resp.status == 0,
            resp._rsvd1 == 0,
            resp.tsc_scale == 0,
            resp.tsc_offset == 0,
            resp.tsc_factor == 0,
            resp._rsvd2@ == Seq::new(100, |i: int| 0u8),
    {
        TscInfoResp {
            status: 0,
            _rsvd1: 0,
            tsc_scale: 0,
            tsc_offset: 0,
            tsc_factor: 0,
            _rsvd2: [0u8; 100],
        }
    }
}

impl TscInfoResp {
    /// The bytes of the message, field after field.
    pub open spec fn layout(self) -> Seq<u8> {
        le::le_bytes(self.status as nat, 4) + le::le_bytes(self._rsvd1 as nat, 4) + le::le_bytes(
            self.tsc_scale as nat,
            8,
        ) + le::le_bytes(self.tsc_offset as nat, 8) + le::le_bytes(self.tsc_factor as nat, 4)
            + self._rsvd2@
    }

    /// The message as its 128 bytes.
    pub fn to_bytes(&self) -> (bytes: [u8; 128])
        ensures
            bytes@ == self.layout(),
            self.status == bytes@[0] + 0x100 * bytes@[1] + 0x1_0000 * bytes@[2] + 0x100_0000 * bytes@[3],
            self._rsvd1 == bytes@[4] + 0x100 * bytes@[5] + 0x1_0000 * bytes@[6] + 0x100_0000 * bytes@[7],
            self.tsc_scale == bytes@[8] + 0x100 * bytes@[9] + 0x1_0000 * bytes@[10] + 0x100_0000
                * bytes@[11] + 0x1_0000_0000 * bytes@[12] + 0x100_0000_0000 * bytes@[13]
                + 0x1_0000_0000_0000 * bytes@[14] + 0x100_0000_0000_0000 * bytes@[15],
            self.tsc_offset == bytes@[16] + 0x100 * bytes@[17] + 0x1_0000 * bytes@[18] + 0x100_0000
                * bytes@[19] + 0x1_0000_0000 * bytes@[20] + 0x100_0000_0000 * bytes@[21]
                + 0x1_0000_0000_0000 * bytes@[22] + 0x100_0000_0000_0000 * bytes@[23],
            self.tsc_factor == bytes@[24] + 0x100 * bytes@[25] + 0x1_0000 * bytes@[26] + 0x100_0000 * bytes@[27],
            forall|i: int| 0 <= i < 100 ==> #[trigger] self._rsvd2@[i] == bytes@[28 + i],
    {
        let mut bytes: [u8; 128] = [0u8; 128];
        le::put_le(&mut bytes, 0, 4, self.status as u64);
        le::put_le(&mut bytes, 4, 4, self._rsvd1 as u64);
        le::put_le(&mut bytes, 8, 8, self.tsc_scale);
        le::put_le(&mut bytes, 16, 8, self.tsc_offset);
        le::put_le(&mut bytes, 24, 4, self.tsc_factor as u64);
        proof {
            self.lemma_field_lengths();
        }
        let ghost head = bytes@.subrange(0, 28);
        assert(head =~= self.layout().subrange(0, 28));
        let mut i: usize = 0;
        while i < 100
            invariant
                i <= 100,
                bytes@.subrange(0, 28) == head,
                forall|j: int| 0 <= j < i ==> bytes@[28 + j] == self._rsvd2@[j],
            decreases 100 - i,
        {
            let ghost before = bytes@;
            bytes[28 + i] = self._rsvd2[i];
            assert(bytes@.subrange(0, 28) =~= before.subrange(0, 28));
            i = i + 1;
        }
        proof {
            assert forall|k: int| 0 <= k < 128 implies bytes@[k] == self.layout()[k] by {
                if k < 28 {
                    assert(bytes@[k] == head[k]);
                    assert(self.layout()[k] == self.layout().subrange(0, 28)[k]);
                } else {
                    assert(bytes@[28 + (k - 28)] == self._rsvd2@[k - 28]);
                }
            }
            assert(bytes@ =~= self.layout());
            layout_is_little_endian(*self);
        }
        bytes
    }

    /// The message that 128 bytes hold. Every sequence of 128 bytes is one.
    pub fn from_bytes(bytes: &[u8; 128]) -> (resp: TscInfoResp)
        ensures
            resp.status == le::le_value(bytes@.subrange(0, 4)),
            resp._rsvd1 == le::le_value(bytes@.subrange(4, 8)),
            resp.tsc_scale == le::le_value(bytes@.subrange(8, 16)),
            resp.tsc_offset == le::le_value(bytes@.subrange(16, 24)),
            resp.tsc_factor == le::le_value(bytes@.subrange(24, 28)),
            resp._rsvd2@ == bytes@.subrange(28, 128),
            resp.status == bytes@[0] + 0x100 * bytes@[1] + 0x1_0000 * bytes@[2] + 0x100_0000 * bytes@[3],
            resp._rsvd1 == bytes@[4] + 0x100 * bytes@[5] + 0x1_0000 * bytes@[6] + 0x100_0000 * bytes@[7],
            resp.tsc_scale == bytes@[8] + 0x100 * bytes@[9] + 0x1_0000 * bytes@[10] + 0x100_0000
                * bytes@[11] + 0x1_0000_0000 * bytes@[12] + 0x100_0000_0000 * bytes@[13]
                + 0x1_0000_0000_0000 * bytes@[14] + 0x100_0000_0000_0000 * bytes@[15],
            resp.tsc_offset == bytes@[16] + 0x100 * bytes@[17] + 0x1_0000 * bytes@[18] + 0x100_0000
                * bytes@[19] + 0x1_0000_0000 * bytes@[20] + 0x100_0000_0000 * bytes@[21]
                + 0x1_0000_0000_0000 * bytes@[22] + 0x100_0000_0000_0000 * bytes@[23],
            resp.tsc_factor == bytes@[24] + 0x100 * bytes@[25] + 0x1_0000 * bytes@[26] + 0x100_0000 * bytes@[27],
            forall|i: int| 0 <= i < 100 ==> #[trigger] resp._rsvd2@[i] == bytes@[28 + i],
    {
        proof {
            le::lemma_byte_range_values();
            le::lemma_le_value_bound(bytes@.subrange(0, 4));
            le::lemma_le_value_bound(bytes@.subrange(4, 8));
            le::lemma_le_value_bound(bytes@.subrange(24, 28));
            lemma_numbers_at(bytes@);
        }
        let mut rsvd2: [u8; 100] = [0u8; 100];
        let mut i: usize = 0;
        while i < 100
            invariant
                i <= 100,
                forall|j: int| 0 <= j < i ==> rsvd2@[j] == bytes@[28 + j],
            decreases 100 - i,
        {
            rsvd2[i] = bytes[28 + i];
            i = i + 1;
        }
        assert(rsvd2@ =~= bytes@.subrange(28, 128));
        TscInfoResp {
            status: le::get_le(bytes, 0, 4) as u32,
            _rsvd1: le::get_le(bytes, 4, 4) as u32,
            tsc_scale: le::get_le(bytes, 8, 8),
            tsc_offset: le::get_le(bytes, 16, 8),
            tsc_factor: le::get_le(bytes, 24, 4) as u32,
            _rsvd2: rsvd2,
        }
    }

    proof fn lemma_field_lengths(self)
        ensures
            le::le_bytes(self.status as nat, 4).len() == 4,
            le::le_bytes(self._rsvd1 as nat, 4).len() == 4,
            le::le_bytes(self.tsc_scale as nat, 8).len() == 8,
            le::le_bytes(self.tsc_offset as nat, 8).len() == 8,
            le::le_bytes(self.tsc_factor as nat, 4).len() == 4,
    {
        le::lemma_le_bytes_len(self.status as nat, 4);
        le::lemma_le_bytes_len(self._rsvd1 as nat, 4);
        le::lemma_le_bytes_len(self.tsc_scale as nat, 8);
        le::lemma_le_bytes_len(self.tsc_offset as nat, 8);
        le::lemma_le_bytes_len(self.tsc_factor as nat, 4);
    }
}

/// The message is exactly 128 bytes long, with status at offset 0, the first reserved field at 4,
/// tsc_scale at 8, tsc_offset at 16, tsc_factor at 24 and the reserved bytes at 28.
pub proof fn layout_offsets(resp: TscInfoResp)
    ensures
        resp.layout().len() == 128,
        resp.layout().subrange(0, 4) == le::le_bytes(resp.status as nat, 4),
        resp.layout().subrange(4, 8) == le::le_bytes(resp._rsvd1 as nat, 4),
        resp.layout().subrange(8, 16) == le::le_bytes(resp.tsc_scale as nat, 8),
        resp.layout().subrange(16, 24) == le::le_bytes(resp.tsc_offset as nat, 8),
        resp.layout().subrange(24, 28) == le::le_bytes(resp.tsc_factor as nat, 4),
        resp.layout().subrange(28, 128) == resp._rsvd2@,
{
    resp.lemma_field_lengths();
    assert(resp.layout().subrange(0, 4) =~= le::le_bytes(resp.status as nat, 4));
    assert(resp.layout().subrange(4, 8) =~= le::le_bytes(resp._rsvd1 as nat, 4));
    assert(resp.layout().subrange(8, 16) =~= le::le_bytes(resp.tsc_scale as nat, 8));
    assert(resp.layout().subrange(16, 24) =~= le::le_bytes(resp.tsc_offset as nat, 8));
    assert(resp.layout().subrange(24, 28) =~= le::le_bytes(resp.tsc_factor as nat, 4));
    assert(resp.layout().subrange(28, 128) =~= resp._rsvd2@);
}

/// Reading the fields of a written message at their offsets gives back every field, so two
/// responses with the same bytes are the same response.
pub proof fn layout_decodes(resp: TscInfoResp)
    ensures
        le::le_value(resp.layout().subrange(0, 4)) == resp.status,
        le::le_value(resp.layout().subrange(4, 8)) == resp._rsvd1,
        le::le_value(resp.layout().subrange(8, 16)) == resp.tsc_scale,
        le::le_value(resp.layout().subrange(16, 24)) == resp.tsc_offset,
        le::le_value(resp.layout().subrange(24, 28)) == resp.tsc_factor,
        forall|other: TscInfoResp| #[trigger] other.layout() == resp.layout() ==> other == resp,
{
    lemma_decodes_fields(resp);
    assert forall|other: TscInfoResp| #[trigger] other.layout() == resp.layout() implies other
        == resp by {
        lemma_decodes_fields(other);
        layout_offsets(resp);
        layout_offsets(other);
        assert(other._rsvd2 =~= resp._rsvd2);
    }
}

/// Every 128 bytes are the layout of the response whose fields they spell at the offsets.
pub proof fn layout_encodes(bytes: Seq<u8>, resp: TscInfoResp)
    requires
        bytes.len() == 128,
        resp.status == le::le_value(bytes.subrange(0, 4)),
        resp._rsvd1 == le::le_value(bytes.subrange(4, 8)),
        resp.tsc_scale == le::le_value(bytes.subrange(8, 16)),
        resp.tsc_offset == le::le_value(bytes.subrange(16, 24)),
        resp.tsc_factor == le::le_value(bytes.subrange(24, 28)),
        resp._rsvd2@ == bytes.subrange(28, 128),
    ensures
        resp.layout() == bytes,
{
    le::le_bytes_of_le_value(bytes.subrange(0, 4));
    le::le_bytes_of_le_value(bytes.subrange(4, 8));
    le::le_bytes_of_le_value(bytes.subrange(8, 16));
    le::le_bytes_of_le_value(bytes.subrange(16, 24));
    le::le_bytes_of_le_value(bytes.subrange(24, 28));
    assert(resp.layout() =~= bytes);
}

proof fn lemma_decodes_fields(resp: TscInfoResp)
    ensures
        le::le_value(resp.layout().subrange(0, 4)) == resp.status,
        le::le_value(resp.layout().subrange(4, 8)) == resp._rsvd1,
        le::le_value(resp.layout().subrange(8, 16)) == resp.tsc_scale,
        le::le_value(resp.layout().subrange(16, 24)) == resp.tsc_offset,
        le::le_value(resp.layout().subrange(24, 28)) == resp.tsc_factor,
{
    layout_offsets(resp);
    le::lemma_byte_range_values();
    le::le_value_of_le_bytes(resp.status as nat, 4);
    le::le_value_of_le_bytes(resp._rsvd1 as nat, 4);
    le::le_value_of_le_bytes(resp.tsc_scale as nat, 8);
    le::le_value_of_le_bytes(resp.tsc_offset as nat, 8);
    le::le_value_of_le_bytes(resp.tsc_factor as nat, 4);
}

/// Every number of the message is the sum of its bytes times the powers of 256, counted from the
/// number's offset on, and the reserved bytes follow as they are.
pub proof fn layout_is_little_endian(resp: TscInfoResp)
    ensures
        resp.layout().len() == 128,
        resp.status == resp.layout()[0] + 0x100 * resp.layout()[1] + 0x1_0000 * resp.layout()[2] + 0x100_0000 * resp.layout()[3],
        resp._rsvd1 == resp.layout()[4] + 0x100 * resp.layout()[5] + 0x1_0000 * resp.layout()[6] + 0x100_0000 * resp.layout()[7],
        resp.tsc_scale == resp.layout()[8] + 0x100 * resp.layout()[9] + 0x1_0000 * resp.layout()[10] + 0x100_0000
            * resp.layout()[11] + 0x1_0000_0000 * resp.layout()[12] + 0x100_0000_0000 * resp.layout()[13]
            + 0x1_0000_0000_0000 * resp.layout()[14] + 0x100_0000_0000_0000 * resp.layout()[15],
        resp.tsc_offset == resp.layout()[16] + 0x100 * resp.layout()[17] + 0x1_0000 * resp.layout()[18] + 0x100_0000
            * resp.layout()[19] + 0x1_0000_0000 * resp.layout()[20] + 0x100_0000_0000 * resp.layout()[21]
            + 0x1_0000_0000_0000 * resp.layout()[22] + 0x100_0000_0000_0000 * resp.layout()[23],
        resp.tsc_factor == resp.layout()[24] + 0x100 * resp.layout()[25] + 0x1_0000 * resp.layout()[26] + 0x100_0000 * resp.layout()[27],
        forall|i: int| 0 <= i < 100 ==> #[trigger] resp._rsvd2@[i] == resp.layout()[28 + i],
{
    layout_offsets(resp);
    layout_decodes(resp);
    lemma_numbers_at(resp.layout());
    assert forall|i: int| 0 <= i < 100 implies #[trigger] resp._rsvd2@[i] == resp.layout()[28
        + i] by {
        assert(resp._rsvd2@[i] == resp.layout().subrange(28, 128)[i]);
    }
}

proof fn lemma_numbers_at(bytes: Seq<u8>)
    requires
        bytes.len() == 128,
    ensures
        le::le_value(bytes.subrange(0, 4)) == bytes[0] + 0x100 * bytes[1] + 0x1_0000 * bytes[2] + 0x100_0000 * bytes[3],
        le::le_value(bytes.subrange(4, 8)) == bytes[4] + 0x100 * bytes[5] + 0x1_0000 * bytes[6] + 0x100_0000 * bytes[7],
        le::le_value(bytes.subrange(8, 16)) == bytes[8] + 0x100 * bytes[9] + 0x1_0000 * bytes[10] + 0x100_0000
            * bytes[11] + 0x1_0000_0000 * bytes[12] + 0x100_0000_0000 * bytes[13]
            + 0x1_0000_0000_0000 * bytes[14] + 0x100_0000_0000_0000 * bytes[15],
        le::le_value(bytes.subrange(16, 24)) == bytes[16] + 0x100 * bytes[17] + 0x1_0000 * bytes[18] + 0x100_0000
            * bytes[19] + 0x1_0000_0000 * bytes[20] + 0x100_0000_0000 * bytes[21]
            + 0x1_0000_0000_0000 * bytes[22] + 0x100_0000_0000_0000 * bytes[23],
        le::le_value(bytes.subrange(24, 28)) == bytes[24] + 0x100 * bytes[25] + 0x1_0000 * bytes[26] + 0x100_0000 * bytes[27],
{
    le::le_value_of_four(bytes.subrange(0, 4));
    le::le_value_of_four(bytes.subrange(4, 8));
    le::le_value_of_eight(bytes.subrange(8, 16));
    le::le_value_of_eight(bytes.subrange(16, 24));
    le::le_value_of_four(bytes.subrange(24, 28));
}

} // verus!
