use vstd::prelude::*;

verus! {

/// Protobuf base-128 varint encoding of `v`: seven bits per byte, least
/// significant group first, the high bit set on every byte but the last.
pub open spec fn varint(v: nat) -> Seq<u8>
    decreases v,
{
    if v < 128 {
        seq![v as u8]
    } else {
        seq![((v % 128) + 128) as u8] + varint(v / 128)
    }
}

/// A length-delimited field: its key (field number, wire type 2), the length
/// of the value, and the value.
pub open spec fn bytes_field(field: nat, value: Seq<u8>) -> Seq<u8> {
    varint(field * 8 + 2) + varint(value.len()) + value
}

/// Appends the varint encoding of `v`.
pub fn encode_varint(out: &mut Vec<u8>, v: u64)
    ensures
        final(out)@ == old(out)@ + varint(v as nat),
{
    let ghost start = out@;
    let mut rest = v;
    while rest >= 128
        invariant
            out@ + varint(rest as nat) == start + varint(v as nat),
        decreases rest,
    {
        let ghost before = out@;
        out.push((rest % 128 + 128) as u8);
        proof {
            let b = ((rest % 128) + 128) as u8;
            assert(varint(rest as nat) == seq![b] + varint((rest / 128) as nat));
            assert(out@ + varint((rest / 128) as nat) =~= before + varint(rest as nat));
        }
        rest = rest / 128;
    }
    let ghost before = out@;
    out.push(rest as u8);
    assert(out@ =~= before + varint(rest as nat));
}

/// Appends `value` as length-delimited field `field`.
pub fn encode_bytes_field(out: &mut Vec<u8>, field: u32, value: &[u8])
    ensures
        final(out)@ == old(out)@ + bytes_field(field as nat, value@),
{
    let ghost start = out@;
    encode_varint(out, (field as u64) * 8 + 2);
    encode_varint(out, value.len() as u64);
    let ghost head = out@;
    let mut i: usize = 0;
    while i < value.len()
        invariant
            i <= value@.len(),
            out@ == head + value@.subrange(0, i as int),
        decreases value@.len() - i,
    {
        out.push(value[i]);
        assert(value@.subrange(0, i + 1) =~= value@.subrange(0, i as int).push(value@[i as int]));
        i = i + 1;
    }
    assert(value@.subrange(0, value@.len() as int) =~= value@);
    assert(out@ =~= start + bytes_field(field as nat, value@));
}

} // verus!
