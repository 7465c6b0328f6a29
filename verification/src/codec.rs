use vstd::prelude::*;

verus! {

/// `256` to the power `n`: the number of values that `n` bytes can hold.
pub open spec fn pow256(n: nat) -> nat
    decreases n,
{
    if n == 0 {
        1
    } else {
        256 * pow256((n - 1) as nat)
    }
}

/// The `n` low-order bytes of `v` in big-endian order, most significant
/// first.
pub open spec fn be_bytes(v: nat, n: nat) -> Seq<u8>
    decreases n,
{
    if n == 0 {
        Seq::empty()
    } else {
        be_bytes(v / 256, (n - 1) as nat).push((v % 256) as u8)
    }
}

/// The number whose big-endian bytes are `s`.
pub open spec fn be_value(s: Seq<u8>) -> nat
    decreases s.len(),
{
    if s.len() == 0 {
        0
    } else {
        be_value(s.drop_last()) * 256 + (s.last() as nat)
    }
}

/// Lexicographic order of byte strings, in which a proper prefix comes first
/// (the order of `Vec<u8>` and `[u8]`).
pub open spec fn lex_lt(a: Seq<u8>, b: Seq<u8>) -> bool
    decreases a.len(),
{
    if a.len() == 0 || b.len() == 0 {
        a.len() == 0 && b.len() > 0
    } else if a[0] != b[0] {
        a[0] < b[0]
    } else {
        lex_lt(a.drop_first(), b.drop_first())
    }
}

pub proof fn lemma_pow256_pos(n: nat)
    ensures
        pow256(n) > 0,
    decreases n,
{
    if n > 0 {
        lemma_pow256_pos((n - 1) as nat);
    }
}

pub proof fn lemma_pow256_values()
    ensures
        pow256(0) == 1,
        pow256(1) == 0x100,
        pow256(2) == 0x1_0000,
        pow256(4) == 0x1_0000_0000,
        pow256(8) == 0x1_0000_0000_0000_0000,
        pow256(15) == 0x1_0000_0000_0000_0000_0000_0000_0000_00,
        pow256(16) == 0x1_0000_0000_0000_0000_0000_0000_0000_0000,
{
    reveal_with_fuel(pow256, 17);
}

/// Numbers split as high part and low byte compare as their high parts
/// first, then as their low bytes.
proof fn lemma_split_order(hv: nat, lv: nat, hw: nat, lw: nat)
    requires
        lv < 256,
        lw < 256,
    ensures
        (hv * 256 + lv < hw * 256 + lw) <==> (hv < hw || (hv == hw && lv < lw)),
{
}

pub proof fn lemma_be_bytes_len(v: nat, n: nat)
    ensures
        be_bytes(v, n).len() == n,
    decreases n,
{
    if n > 0 {
        lemma_be_bytes_len(v / 256, (n - 1) as nat);
    }
}

/// Big-endian bytes decode back to the number they encode.
pub proof fn lemma_be_value_of_bytes(v: nat, n: nat)
    requires
        v < pow256(n),
    ensures
        be_value(be_bytes(v, n)) == v,
    decreases n,
{
    if n > 0 {
        let t = be_bytes(v / 256, (n - 1) as nat);
        lemma_be_value_of_bytes(v / 256, (n - 1) as nat);
        assert(t.push((v % 256) as u8).drop_last() =~= t);
    }
}

/// The big-endian value of a string of bytes fits in that many bytes.
pub proof fn lemma_be_value_bound(s: Seq<u8>)
    ensures
        be_value(s) < pow256(s.len()),
    decreases s.len(),
{
    if s.len() > 0 {
        lemma_be_value_bound(s.drop_last());
    }
}

/// Appending a byte shifts the value by one byte.
pub proof fn lemma_be_value_push(s: Seq<u8>, b: u8)
    ensures
        be_value(s.push(b)) == be_value(s) * 256 + b,
{
    assert(s.push(b).drop_last() =~= s);
}

/// Strings of one byte compare as their bytes.
proof fn lemma_lex_single(x: u8, y: u8)
    ensures
        lex_lt(seq![x], seq![y]) <==> x < y,
{
    let a: Seq<u8> = seq![x];
    let b: Seq<u8> = seq![y];
    assert(a.drop_first() =~= Seq::<u8>::empty());
    assert(b.drop_first() =~= Seq::<u8>::empty());
    assert(a[0] == x && b[0] == y);
    assert(!lex_lt(a.drop_first(), b.drop_first()));
}

/// Big-endian encoding turns the order of numbers into the lexicographic order
/// of their bytes.
pub proof fn lemma_be_bytes_order(v: nat, w: nat, n: nat)
    requires
        v < pow256(n),
        w < pow256(n),
    ensures
        lex_lt(be_bytes(v, n), be_bytes(w, n)) <==> v < w,
    decreases n,
{
    if n > 0 {
        let tv = be_bytes(v / 256, (n - 1) as nat);
        let tw = be_bytes(w / 256, (n - 1) as nat);
        let xv = (v % 256) as u8;
        let xw = (w % 256) as u8;
        lemma_be_bytes_len(v / 256, (n - 1) as nat);
        lemma_be_bytes_len(w / 256, (n - 1) as nat);
        lemma_be_bytes_order(v / 256, w / 256, (n - 1) as nat);
        assert(tv.push(xv) =~= tv + seq![xv]);
        assert(tw.push(xw) =~= tw + seq![xw]);
        lemma_lex_concat(tv, seq![xv], tw, seq![xw]);
        lemma_lex_single(xv, xw);
        if tv == tw {
            lemma_be_bytes_injective(v / 256, w / 256, (n - 1) as nat);
        }
        lemma_split_order(v / 256, v % 256, w / 256, w % 256);
    }
}

/// Big-endian encoding of numbers that fit is one-to-one.
pub proof fn lemma_be_bytes_injective(v: nat, w: nat, n: nat)
    requires
        v < pow256(n),
        w < pow256(n),
        be_bytes(v, n) == be_bytes(w, n),
    ensures
        v == w,
{
    lemma_be_value_of_bytes(v, n);
    lemma_be_value_of_bytes(w, n);
}

/// Strings of equal length compare as their first differing byte.
pub proof fn lemma_lex_concat(a1: Seq<u8>, a2: Seq<u8>, b1: Seq<u8>, b2: Seq<u8>)
    requires
        a1.len() == b1.len(),
    ensures
        lex_lt(a1 + a2, b1 + b2) <==> (lex_lt(a1, b1) || (a1 == b1 && lex_lt(a2, b2))),
    decreases a1.len(),
{
    if a1.len() == 0 {
        assert(a1 + a2 =~= a2);
        assert(b1 + b2 =~= b2);
        assert(a1 =~= b1);
    } else {
        let a = a1 + a2;
        let b = b1 + b2;
        assert(a[0] == a1[0]);
        assert(b[0] == b1[0]);
        assert(a.drop_first() =~= a1.drop_first() + a2);
        assert(b.drop_first() =~= b1.drop_first() + b2);
        lemma_lex_concat(a1.drop_first(), a2, b1.drop_first(), b2);
        if a1[0] == b1[0] && a1.drop_first() == b1.drop_first() {
            assert forall|i: int| 0 <= i < a1.len() implies a1[i] == b1[i] by {
                if i > 0 {
                    assert(a1[i] == a1.drop_first()[i - 1]);
                    assert(b1[i] == b1.drop_first()[i - 1]);
                }
            }
            assert(a1 =~= b1);
        }
        if a1 == b1 {
            assert(a1.drop_first() == b1.drop_first());
        }
    }
}

/// Lexicographic order is irreflexive and asymmetric.
pub proof fn lemma_lex_asymmetric(a: Seq<u8>, b: Seq<u8>)
    ensures
        !lex_lt(a, a),
        lex_lt(a, b) ==> !lex_lt(b, a),
    decreases a.len(),
{
    if a.len() > 0 && b.len() > 0 {
        lemma_lex_asymmetric(a.drop_first(), b.drop_first());
    }
    if a.len() > 0 {
        lemma_lex_asymmetric(a.drop_first(), a.drop_first());
    }
}

/// Appends the `n` big-endian bytes of `v`.
pub fn push_be(out: &mut Vec<u8>, v: u128, n: usize)
    requires
        n <= 16,
    ensures
        final(out)@ == old(out)@ + be_bytes(v as nat, n as nat),
    decreases n,
{
    if n > 0 {
        let ghost start = out@;
        push_be(out, v / 256, n - 1);
        out.push((v % 256) as u8);
        proof {
            let t = be_bytes((v / 256) as nat, (n - 1) as nat);
            assert(out@ =~= start + t.push((v % 256) as u8));
        }
    } else {
        assert(out@ + be_bytes(v as nat, 0) =~= out@);
    }
}

proof fn lemma_pow256_monotone(a: nat, b: nat)
    requires
        a <= b,
    ensures
        pow256(a) <= pow256(b),
    decreases b - a,
{
    if a < b {
        lemma_pow256_monotone(a, (b - 1) as nat);
    }
}

/// Reads the `n` bytes at `start` as a big-endian number.
pub fn read_be(bytes: &[u8], start: usize, n: usize) -> (r: u128)
    requires
        start + n <= bytes@.len(),
        n <= 16,
    ensures
        r == be_value(bytes@.subrange(start as int, start + n)),
{
    proof {
        lemma_pow256_values();
    }
    let len = bytes.len();
    let mut acc: u128 = 0;
    let mut i: usize = 0;
    while i < n
        invariant
            len == bytes@.len(),
            start + n <= bytes@.len(),
            n <= 16,
            i <= n,
            acc == be_value(bytes@.subrange(start as int, start + i)),
            pow256(16) == 0x1_0000_0000_0000_0000_0000_0000_0000_0000,
        decreases n - i,
    {
        let ghost t = bytes@.subrange(start as int, start + i);
        proof {
            lemma_be_value_bound(t);
            lemma_pow256_monotone((i + 1) as nat, 16);
            assert(pow256((i + 1) as nat) == 256 * pow256(i as nat));
        }
        let b = bytes[start + i];
        proof {
            lemma_be_value_push(t, b);
            assert(bytes@.subrange(start as int, start + i + 1) =~= t.push(b));
        }
        acc = acc * 256 + b as u128;
        i = i + 1;
    }
    acc
}

} // verus!
