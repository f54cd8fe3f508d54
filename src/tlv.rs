use vstd::prelude::*;

use crate::error::UwbError;

verus! {

/// Size of the header in front of every TLV record: one tag byte and one length byte.
pub const TLV_HEADER_SIZE: usize = 2;

/// One configuration parameter: a one-byte tag and a value of 0 to 255 bytes.
#[derive(Debug, Clone, PartialEq, Eq)]
pub struct ConfigTlv {
    pub cfg_id: u8,
    pub v: Vec<u8>,
}

/// An application configuration parameter.
pub type AppConfigTlv = ConfigTlv;

/// A radar configuration parameter.
pub type RadarConfigTlv = ConfigTlv;

impl View for ConfigTlv {
    type V = (u8, Seq<u8>);

    open spec fn view(&self) -> (u8, Seq<u8>) {
        (self.cfg_id, self.v@)
    }
}

/// The abstract records held by a vector of TLVs.
pub open spec fn tlvs_view(tlvs: Seq<ConfigTlv>) -> Seq<(u8, Seq<u8>)> {
    tlvs.map_values(|t: ConfigTlv| t@)
}

/// Prefixes `front` to a decoded sequence, keeping a failure a failure.
pub open spec fn prepend(
    front: Seq<(u8, Seq<u8>)>,
    rest: Option<Seq<(u8, Seq<u8>)>>,
) -> Option<Seq<(u8, Seq<u8>)>> {
    match rest {
        Some(r) => Some(front + r),
        None => None,
    }
}

/// Decodes exactly `count` records from `b`, which they must fill to the last byte.
pub open spec fn tlv_decode(count: nat, b: Seq<u8>) -> Option<Seq<(u8, Seq<u8>)>>
    decreases count,
{
    if count == 0 {
        if b.len() == 0 {
            Some(Seq::empty())
        } else {
            None
        }
    } else if b.len() < 2 || b.len() < 2 + b[1] {
        None
    } else {
        let end = 2 + b[1] as int;
        prepend(seq![(b[0], b.subrange(2, end))], tlv_decode((count - 1) as nat, b.subrange(end, b.len() as int)))
    }
}

/// The wire form of a sequence of records: tag, length, value, one after another.
pub open spec fn tlv_encode(recs: Seq<(u8, Seq<u8>)>) -> Seq<u8>
    decreases recs.len(),
{
    if recs.len() == 0 {
        Seq::empty()
    } else {
        seq![recs[0].0, recs[0].1.len() as u8] + recs[0].1 + tlv_encode(recs.drop_first())
    }
}

/// Every value fits the one-byte length field.
pub open spec fn well_formed_records(recs: Seq<(u8, Seq<u8>)>) -> bool {
    forall|i: int| 0 <= i < recs.len() ==> #[trigger] recs[i].1.len() <= 255
}

proof fn lemma_encode_first(recs: Seq<(u8, Seq<u8>)>)
    requires
        recs.len() > 0,
        well_formed_records(recs),
    ensures
        ({
            let e = tlv_encode(recs);
            let end = 2 + recs[0].1.len() as int;
            &&& e.len() >= end
            &&& e[0] == recs[0].0
            &&& e[1] as int == recs[0].1.len()
            &&& e.subrange(2, end) == recs[0].1
            &&& e.subrange(end, e.len() as int) == tlv_encode(recs.drop_first())
        }),
{
    let e = tlv_encode(recs);
    let end = 2 + recs[0].1.len() as int;
    assert(recs[0].1.len() <= 255);
    assert(e.subrange(2, end) =~= recs[0].1);
    assert(e.subrange(end, e.len() as int) =~= tlv_encode(recs.drop_first()));
}

proof fn lemma_drop_first_well_formed(recs: Seq<(u8, Seq<u8>)>)
    requires
        recs.len() > 0,
        well_formed_records(recs),
    ensures
        well_formed_records(recs.drop_first()),
{
    assert forall|i: int| 0 <= i < recs.drop_first().len() implies #[trigger] recs.drop_first()[i].1.len()
        <= 255 by {
        assert(recs.drop_first()[i] == recs[i + 1]);
    }
}

/// Parsing the encoding of `n` well-formed records with count `n` gives back
/// those records, and one trailing byte more makes the same parse fail.
pub proof fn lemma_tlv_full_consumption(recs: Seq<(u8, Seq<u8>)>, extra: u8)
    requires
        well_formed_records(recs),
    ensures
        tlv_decode(recs.len(), tlv_encode(recs)) == Some(recs),
        tlv_decode(recs.len(), tlv_encode(recs).push(extra)) is None,
    decreases recs.len(),
{
    if recs.len() == 0 {
        assert(tlv_encode(recs).push(extra).len() == 1);
    } else {
        let e = tlv_encode(recs);
        let ex = e.push(extra);
        let end = 2 + recs[0].1.len() as int;
        lemma_encode_first(recs);
        lemma_drop_first_well_formed(recs);
        lemma_tlv_full_consumption(recs.drop_first(), extra);
        assert(ex.subrange(2, end) =~= e.subrange(2, end));
        assert(ex.subrange(end, ex.len() as int) =~= tlv_encode(recs.drop_first()).push(extra));
        assert(seq![(recs[0].0, recs[0].1)] + recs.drop_first() =~= recs);
    }
}

/// Parsing the encoding of well-formed records with a count other than their
/// number fails, whether the buffer holds fewer or more records than asked.
pub proof fn lemma_tlv_count_mismatch(recs: Seq<(u8, Seq<u8>)>, count: nat)
    requires
        well_formed_records(recs),
        count != recs.len(),
    ensures
        tlv_decode(count, tlv_encode(recs)) is None,
    decreases recs.len(),
{
    if recs.len() == 0 {
    } else if count == 0 {
        lemma_encode_first(recs);
    } else {
        lemma_encode_first(recs);
        lemma_drop_first_well_formed(recs);
        lemma_tlv_count_mismatch(recs.drop_first(), (count - 1) as nat);
    }
}

/// Copies `b[start..start + len]` into a fresh vector.
fn copy_range(b: &[u8], start: usize, len: usize) -> (r: Vec<u8>)
    requires
        start + len <= b@.len(),
    ensures
        r@ == b@.subrange(start as int, start + len),
{
    let mut r: Vec<u8> = Vec::with_capacity(len);
    let mut i: usize = 0;
    while i < len
        invariant
            start + len <= b.len(),
            i <= len,
            r@ == b@.subrange(start as int, start + i),
        decreases len - i,
    {
        r.push(b[start + i]);
        i = i + 1;
        assert(r@ =~= b@.subrange(start as int, start + i));
    }
    r
}

/// Parses exactly `count` TLV records that together fill `buffer`.
///
/// Fails with `BadParameters` when a header or a value runs past the end of
/// the buffer, or when bytes are left over after the last record.
pub fn parse_tlv_sequence(count: usize, buffer: &[u8]) -> (r: Result<Vec<ConfigTlv>, UwbError>)
    ensures
        match tlv_decode(count as nat, buffer@) {
            Some(recs) => r is Ok && tlvs_view(r->Ok_0@) == recs,
            None => r == Err::<Vec<ConfigTlv>, UwbError>(UwbError::BadParameters),
        },
{
    let len = buffer.len();
    let mut pos: usize = 0;
    let mut i: usize = 0;
    let mut tlvs: Vec<ConfigTlv> = Vec::new();
    proof {
        assert(buffer@.subrange(0, len as int) =~= buffer@);
        match tlv_decode(count as nat, buffer@) {
            Some(recs) => {
                assert(tlvs_view(tlvs@) + recs =~= recs);
            },
            None => {},
        }
    }
    while i < count
        invariant
            len == buffer@.len(),
            i <= count,
            pos <= len,
            tlv_decode(count as nat, buffer@) == prepend(
                tlvs_view(tlvs@),
                tlv_decode((count - i) as nat, buffer@.subrange(pos as int, len as int)),
            ),
        decreases count - i,
    {
        let ghost s = buffer@.subrange(pos as int, len as int);
        if len - pos < TLV_HEADER_SIZE {
            return Err(UwbError::BadParameters);
        }
        let value_len = buffer[pos + 1] as usize;
        if len - pos - TLV_HEADER_SIZE < value_len {
            return Err(UwbError::BadParameters);
        }
        let value = copy_range(buffer, pos + TLV_HEADER_SIZE, value_len);
        let tlv = ConfigTlv { cfg_id: buffer[pos], v: value };
        let ghost old_tlvs = tlvs@;
        proof {
            let end = 2 + s[1] as int;
            assert(s[0] == buffer@[pos as int]);
            assert(s[1] == buffer@[pos + 1]);
            assert(s.subrange(2, end) =~= value@);
            assert(s.subrange(end, s.len() as int) =~= buffer@.subrange(
                pos + 2 + value_len,
                len as int,
            ));
        }
        tlvs.push(tlv);
        pos = pos + TLV_HEADER_SIZE + value_len;
        i = i + 1;
        proof {
            assert(tlvs_view(tlvs@) =~= tlvs_view(old_tlvs) + seq![(buffer@[pos - value_len - 2], value@)]);
            match tlv_decode((count - i) as nat, buffer@.subrange(pos as int, len as int)) {
                Some(rest) => {
                    assert(tlvs_view(old_tlvs) + (seq![(buffer@[pos - value_len - 2], value@)] + rest)
                        =~= tlvs_view(tlvs@) + rest);
                },
                None => {},
            }
        }
    }
    if pos != len {
        return Err(UwbError::BadParameters);
    }
    proof {
        assert(buffer@.subrange(pos as int, len as int).len() == 0);
        assert(tlvs_view(tlvs@) + Seq::<(u8, Seq<u8>)>::empty() =~= tlvs_view(tlvs@));
    }
    Ok(tlvs)
}

/// The wire form of one record.
pub open spec fn tlv_encode_one(rec: (u8, Seq<u8>)) -> Seq<u8> {
    seq![rec.0, rec.1.len() as u8] + rec.1
}

proof fn lemma_encode_push(recs: Seq<(u8, Seq<u8>)>, rec: (u8, Seq<u8>))
    ensures
        tlv_encode(recs.push(rec)) == tlv_encode(recs) + tlv_encode_one(rec),
    decreases recs.len(),
{
    if recs.len() == 0 {
        let p = recs.push(rec);
        assert(p.drop_first() =~= Seq::<(u8, Seq<u8>)>::empty());
        assert(p[0] == rec);
        assert(tlv_encode(p.drop_first()) == Seq::<u8>::empty());
        assert(tlv_encode(recs) == Seq::<u8>::empty());
        assert(tlv_encode(p) =~= tlv_encode(recs) + tlv_encode_one(rec));
    } else {
        lemma_encode_push(recs.drop_first(), rec);
        let p = recs.push(rec);
        assert(p.drop_first() =~= recs.drop_first().push(rec));
        assert(p[0] == recs[0]);
        let head = seq![recs[0].0, recs[0].1.len() as u8] + recs[0].1;
        assert(tlv_encode(p) == head + tlv_encode(p.drop_first()));
        assert(tlv_encode(recs) == head + tlv_encode(recs.drop_first()));
        assert(tlv_encode(p) =~= tlv_encode(recs) + tlv_encode_one(rec));
    }
}

/// Serializes TLV records into their wire form, one after another.
pub fn serialize_tlvs(tlvs: &[ConfigTlv]) -> (r: Vec<u8>)
    requires
        forall|i: int| 0 <= i < tlvs@.len() ==> (#[trigger] tlvs@[i]).v@.len() <= 255,
    ensures
        r@ == tlv_encode(tlvs_view(tlvs@)),
        well_formed_records(tlvs_view(tlvs@)),
{
    let mut buf: Vec<u8> = Vec::new();
    let mut i: usize = 0;
    while i < tlvs.len()
        invariant
            i <= tlvs@.len(),
            buf@ == tlv_encode(tlvs_view(tlvs@.take(i as int))),
        decreases tlvs@.len() - i,
    {
        let tlv = &tlvs[i];
        let ghost before = buf@;
        buf.push(tlv.cfg_id);
        buf.push(tlv.v.len() as u8);
        let mut j: usize = 0;
        while j < tlv.v.len()
            invariant
                j <= tlv.v@.len(),
                buf@ == before + seq![tlv.cfg_id, tlv.v@.len() as u8] + tlv.v@.take(j as int),
            decreases tlv.v@.len() - j,
        {
            buf.push(tlv.v[j]);
            j = j + 1;
            assert(buf@ =~= before + seq![tlv.cfg_id, tlv.v@.len() as u8] + tlv.v@.take(j as int));
        }
        proof {
            assert(tlv.v@.take(j as int) =~= tlv.v@);
            assert(tlvs_view(tlvs@.take(i + 1)) =~= tlvs_view(tlvs@.take(i as int)).push(tlv@));
            lemma_encode_push(tlvs_view(tlvs@.take(i as int)), tlv@);
            assert(buf@ =~= before + tlv_encode_one(tlv@));
        }
        i = i + 1;
    }
    assert(tlvs@.take(i as int) =~= tlvs@);
    assert forall|k: int| 0 <= k < tlvs_view(tlvs@).len() implies #[trigger] tlvs_view(tlvs@)[k].1.len()
        <= 255 by {
        assert(tlvs@[k].v@.len() <= 255);
    }
    buf
}

/// The outcome of setting one configuration parameter.
#[derive(Debug, Clone, Copy, PartialEq, Eq, Structural)]
pub struct ConfigStatus {
    pub cfg_id: u8,
    pub status: u8,
}

/// Serializes configuration statuses as `cfg_id, status` byte pairs, in order.
pub fn serialize_config_status(statuses: &[ConfigStatus]) -> (r: Vec<u8>)
    requires
        2 * statuses@.len() <= usize::MAX,
    ensures
        r@.len() == 2 * statuses@.len(),
        forall|i: int|
            0 <= i < statuses@.len() ==> r@[2 * i] == (#[trigger] statuses@[i]).cfg_id && r@[2 * i
                + 1] == statuses@[i].status,
{
    let mut buf: Vec<u8> = Vec::new();
    let mut i: usize = 0;
    while i < statuses.len()
        invariant
            i <= statuses@.len(),
            buf@.len() == 2 * i,
            forall|j: int|
                0 <= j < i ==> buf@[2 * j] == (#[trigger] statuses@[j]).cfg_id && buf@[2 * j + 1]
                    == statuses@[j].status,
        decreases statuses@.len() - i,
    {
        buf.push(statuses[i].cfg_id);
        buf.push(statuses[i].status);
        i = i + 1;
    }
    buf
}

/// The record count carried by the control API: a negative count asks for no record.
pub open spec fn param_count(no_of_params: i32) -> nat {
    if no_of_params < 0 {
        0
    } else {
        no_of_params as nat
    }
}

/// Parses `no_of_params` application configuration TLVs that fill `byte_array`.
pub fn parse_app_config_tlv_vec(no_of_params: i32, byte_array: &[u8]) -> (r: Result<
    Vec<AppConfigTlv>,
    UwbError,
>)
    ensures
        match tlv_decode(param_count(no_of_params), byte_array@) {
            Some(recs) => r is Ok && tlvs_view(r->Ok_0@) == recs,
            None => r == Err::<Vec<AppConfigTlv>, UwbError>(UwbError::BadParameters),
        },
{
    let count: usize = if no_of_params < 0 {
        0
    } else {
        no_of_params as usize
    };
    parse_tlv_sequence(count, byte_array)
}

/// Parses `no_of_params` radar configuration TLVs that fill `byte_array`.
pub fn parse_radar_config_tlv_vec(no_of_params: i32, byte_array: &[u8]) -> (r: Result<
    Vec<RadarConfigTlv>,
    UwbError,
>)
    ensures
        match tlv_decode(param_count(no_of_params), byte_array@) {
            Some(recs) => r is Ok && tlvs_view(r->Ok_0@) == recs,
            None => r == Err::<Vec<RadarConfigTlv>, UwbError>(UwbError::BadParameters),
        },
{
    let count: usize = if no_of_params < 0 {
        0
    } else {
        no_of_params as usize
    };
    parse_tlv_sequence(count, byte_array)
}

} // verus!
