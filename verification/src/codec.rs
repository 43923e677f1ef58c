//! Run-length chunk codec.
//!
//! The encoding is value-then-conditional-count: each value is written once;
//! when a value repeats the immediately preceding written value, the encoder
//! switches into run mode, absorbs further repeats, and then writes the
//! number of absorbed repeats before the next distinct value. A maximal run
//! of `k >= 2` equal values `v` is therefore written as `v, v, k - 2`, and a
//! lone value as just `v`. The decoder inverts this exactly, and
//! `lemma_rle_round_trip` proves the inversion for every input sequence.
use crate::CHUNK_DIM3;
use vstd::prelude::*;

verus! {

/// Encoder output from position `i` of `s` onward, in normal mode, where
/// `prev` is the value written immediately before (if any).
pub open spec fn enc_normal(s: Seq<u32>, i: int, prev: Option<u32>) -> Seq<u32>
    decreases s.len() - i,
    when 0 <= i <= s.len()
{
    if i == s.len() {
        Seq::empty()
    } else {
        let v = s[i];
        if prev == Some(v) {
            seq![v] + enc_run(s, i + 1, v, 0)
        } else {
            seq![v] + enc_normal(s, i + 1, Some(v))
        }
    }
}

/// Encoder output from position `i` of `s` onward, in run mode: the current
/// run value is `v` and `n` repeats of it have been absorbed so far. The
/// first element of the output is always the final repeat count.
pub open spec fn enc_run(s: Seq<u32>, i: int, v: u32, n: nat) -> Seq<u32>
    decreases s.len() - i,
    when 0 <= i <= s.len()
{
    if i == s.len() {
        seq![n as u32]
    } else {
        if s[i] == v {
            enc_run(s, i + 1, v, n + 1)
        } else {
            seq![n as u32, s[i]] + enc_normal(s, i + 1, Some(s[i]))
        }
    }
}

/// The compressed form of a sequence.
pub open spec fn rle_compress_spec(s: Seq<u32>) -> Seq<u32> {
    enc_normal(s, 0, None)
}

/// Decoder of a compressed stream `d`, where `prev` is the value the decoder
/// wrote immediately before (if any). Writing a value equal to `prev` makes
/// the next stream element a repeat count for that value; a stream that ends
/// where a count is owed is malformed (`None`).
pub open spec fn dec(d: Seq<u32>, prev: Option<u32>) -> Option<Seq<u32>>
    decreases d.len(),
{
    if d.len() == 0 {
        Some(Seq::empty())
    } else {
        let v = d[0];
        if prev == Some(v) {
            if d.len() < 2 {
                None
            } else {
                match dec(d.skip(2), None) {
                    Some(rest) => Some(Seq::new(1 + d[1] as nat, |j: int| v) + rest),
                    None => None,
                }
            }
        } else {
            match dec(d.skip(1), Some(v)) {
                Some(rest) => Some(seq![v] + rest),
                None => None,
            }
        }
    }
}

/// The decoded form of a compressed stream, or `None` if it is malformed.
pub open spec fn rle_decompress_spec(d: Seq<u32>) -> Option<Seq<u32>> {
    dec(d, None)
}

/// Decoding inverts encoding from run mode: if the encoder is in run mode at
/// position `i` with `n` absorbed repeats of `v`, and the decoder has just
/// written `v`, the decoder reproduces the absorbed repeats and the rest of
/// the input.
proof fn lemma_round_trip_run(s: Seq<u32>, i: int, v: u32, n: nat)
    requires
        0 <= i <= s.len(),
        n + s.len() - i <= u32::MAX,
    ensures
        dec(seq![v] + enc_run(s, i, v, n), Some(v)) == Some(
            Seq::new(n + 1, |j: int| v) + s.skip(i),
        ),
    decreases s.len() - i,
{
    let d = seq![v] + enc_run(s, i, v, n);
    if i == s.len() {
        assert(d =~= seq![v, n as u32]);
        assert(n as u32 as nat == n);
        assert(d.skip(2) =~= Seq::<u32>::empty());
        assert(dec(Seq::<u32>::empty(), None) == Some(Seq::<u32>::empty()));
        assert(dec(d, Some(v)) == Some(Seq::new(1 + n, |j: int| v) + Seq::<u32>::empty()));
        assert(Seq::new(1 + n, |j: int| v) + Seq::<u32>::empty() =~= Seq::new(n + 1, |j: int| v)
            + s.skip(i));
    } else if s[i] == v {
        lemma_round_trip_run(s, i + 1, v, n + 1);
        assert(d == seq![v] + enc_run(s, i + 1, v, n + 1));
        assert(Seq::new(n + 2, |j: int| v) + s.skip(i + 1) =~= Seq::new(n + 1, |j: int| v) + s.skip(
            i,
        ));
    } else {
        let w = s[i];
        lemma_round_trip_normal(s, i + 1, Some(w));
        assert(d =~= seq![v, n as u32, w] + enc_normal(s, i + 1, Some(w)));
        assert(d[0] == v && d[1] == n as u32);
        // After consuming the count, the decoder continues on the rest of the
        // stream with no previous value, writes `w`, and proceeds in normal
        // mode.
        let d2 = d.skip(2);
        assert(d2 =~= seq![w] + enc_normal(s, i + 1, Some(w)));
        assert(d2[0] == w);
        assert(d2.skip(1) =~= enc_normal(s, i + 1, Some(w)));
        assert(dec(d2, None) == Some(seq![w] + s.skip(i + 1)));
        assert(Seq::new(1 + n, |j: int| v) + (seq![w] + s.skip(i + 1)) =~= Seq::new(
            n + 1,
            |j: int| v,
        ) + s.skip(i));
    }
}

/// Decoding inverts encoding from normal mode: the decoder's previous value
/// mirrors the encoder's, and the decoder reproduces the input from `i` on.
proof fn lemma_round_trip_normal(s: Seq<u32>, i: int, prev: Option<u32>)
    requires
        0 <= i <= s.len(),
        s.len() - i <= u32::MAX,
    ensures
        dec(enc_normal(s, i, prev), prev) == Some(s.skip(i)),
    decreases s.len() - i,
{
    if i == s.len() {
        assert(s.skip(i) =~= Seq::<u32>::empty());
    } else {
        let v = s[i];
        if prev == Some(v) {
            lemma_round_trip_run(s, i + 1, v, 0);
            assert(Seq::new(1, |j: int| v) + s.skip(i + 1) =~= s.skip(i));
        } else {
            lemma_round_trip_normal(s, i + 1, Some(v));
            let d = enc_normal(s, i, prev);
            assert(d =~= seq![v] + enc_normal(s, i + 1, Some(v)));
            assert(d[0] == v);
            assert(d.skip(1) =~= enc_normal(s, i + 1, Some(v)));
            assert(seq![v] + s.skip(i + 1) =~= s.skip(i));
        }
    }
}

/// Codec round trip: decompressing the compressed form of any sequence (in
/// particular any chunk-sized one) gives the sequence back.
pub proof fn lemma_rle_round_trip(s: Seq<u32>)
    requires
        s.len() <= u32::MAX,
    ensures
        rle_decompress_spec(rle_compress_spec(s)) == Some(s),
{
    lemma_round_trip_normal(s, 0, None);
    assert(s.skip(0) =~= s);
}

/// In run mode over a uniform rest of the input, the encoder only counts:
/// the output is the single final repeat count.
proof fn lemma_enc_run_uniform(s: Seq<u32>, i: int, v: u32, n: nat)
    requires
        0 <= i <= s.len(),
        forall|k: int| i <= k < s.len() ==> s[k] == v,
    ensures
        enc_run(s, i, v, n) == seq![(n + s.len() - i) as u32],
    decreases s.len() - i,
{
    if i < s.len() {
        lemma_enc_run_uniform(s, i + 1, v, n + 1);
    }
}

/// A uniform sequence of at least two values compresses to the value written
/// twice followed by the count of the remaining repeats.
pub proof fn lemma_compress_uniform(s: Seq<u32>, v: u32)
    requires
        s.len() >= 2,
        forall|k: int| 0 <= k < s.len() ==> s[k] == v,
    ensures
        rle_compress_spec(s) == seq![v, v, (s.len() - 2) as u32],
{
    lemma_enc_run_uniform(s, 2, v, 0);
    assert(enc_normal(s, 1, Some(v)) == seq![v] + seq![(s.len() - 2) as u32]);
    assert(rle_compress_spec(s) == seq![v] + (seq![v] + seq![(s.len() - 2) as u32]));
    assert(seq![v] + (seq![v] + seq![(s.len() - 2) as u32]) =~= seq![v, v, (s.len() - 2) as u32]);
}

/// Compresses a sequence of values into the value-then-conditional-count
/// stream. Repeat counts are 32-bit, which bounds the inputs the encoder
/// accepts; a chunk's worth of values is far within the bound.
pub fn compress_rle(data: &Vec<u32>) -> (out: Vec<u32>)
    requires
        data@.len() <= u32::MAX,
    ensures
        out@ == rle_compress_spec(data@),
{
    let len = data.len();
    let mut outvec: Vec<u32> = Vec::new();
    let mut rle_elem: Option<u32> = None;
    let mut rle_len: u32 = 0;
    let mut prev: Option<u32> = None;
    let mut i: usize = 0;
    while i < len
        invariant
            len == data@.len(),
            data@.len() <= u32::MAX,
            0 <= i <= len,
            match rle_elem {
                Some(v) => rle_len + data@.len() - i <= u32::MAX && rle_compress_spec(data@)
                    == outvec@ + enc_run(data@, i as int, v, rle_len as nat),
                None => rle_compress_spec(data@) == outvec@ + enc_normal(data@, i as int, prev),
            },
        decreases len - i,
    {
        let v = data[i];
        match rle_elem {
            Some(r) => {
                if r == v {
                    rle_len = rle_len + 1;
                } else {
                    outvec.push(rle_len);
                    outvec.push(v);
                    proof {
                        assert(enc_run(data@, i as int, r, rle_len as nat) == seq![
                            rle_len,
                            v,
                        ] + enc_normal(data@, i + 1, Some(v)));
                        assert(outvec@ + enc_normal(data@, i + 1, Some(v)) =~= outvec@.subrange(
                            0,
                            outvec@.len() - 2,
                        ) + enc_run(data@, i as int, r, rle_len as nat));
                    }
                    prev = Some(v);
                    rle_elem = None;
                }
            },
            None => {
                outvec.push(v);
                let start_run = match prev {
                    Some(p) => p == v,
                    None => false,
                };
                proof {
                    if start_run {
                        assert(enc_normal(data@, i as int, prev) == seq![v] + enc_run(
                            data@,
                            i + 1,
                            v,
                            0,
                        ));
                        assert(outvec@ + enc_run(data@, i + 1, v, 0) =~= outvec@.subrange(
                            0,
                            outvec@.len() - 1,
                        ) + enc_normal(data@, i as int, prev));
                    } else {
                        assert(enc_normal(data@, i as int, prev) == seq![v] + enc_normal(
                            data@,
                            i + 1,
                            Some(v),
                        ));
                        assert(outvec@ + enc_normal(data@, i + 1, Some(v)) =~= outvec@.subrange(
                            0,
                            outvec@.len() - 1,
                        ) + enc_normal(data@, i as int, prev));
                    }
                }
                if start_run {
                    prev = None;
                    rle_len = 0;
                    rle_elem = Some(v);
                } else {
                    prev = Some(v);
                }
            },
        }
        i = i + 1;
    }
    match rle_elem {
        Some(v) => {
            outvec.push(rle_len);
            proof {
                assert(enc_run(data@, len as int, v, rle_len as nat) == seq![rle_len]);
                assert(outvec@ =~= outvec@.subrange(0, outvec@.len() - 1) + seq![rle_len]);
            }
        },
        None => {
            proof {
                assert(enc_normal(data@, len as int, prev) == Seq::<u32>::empty());
                assert(outvec@ + Seq::<u32>::empty() =~= outvec@);
            }
        },
    }
    outvec
}

/// Decompresses a stream produced by `compress_rle` into exactly `CHUNK_DIM3`
/// values; reports `None` when the stream is malformed (a repeat count is
/// missing) or decodes to any other length.
pub fn decompress_rle(data: &Vec<u32>) -> (r: Option<Vec<u32>>)
    ensures
        match r {
            Some(out) => rle_decompress_spec(data@) == Some(out@) && out@.len() == CHUNK_DIM3,
            None => rle_decompress_spec(data@) is None || (rle_decompress_spec(data@)
                matches Some(s) && s.len() != CHUNK_DIM3),
        },
{
    let len = data.len();
    let mut out: Vec<u32> = Vec::new();
    let mut prev: Option<u32> = None;
    let mut j: usize = 0;
    proof {
        assert(data@.skip(0) =~= data@);
    }
    while j < len
        invariant
            len == data@.len(),
            0 <= j <= len,
            out@.len() <= CHUNK_DIM3,
            dec(data@, None) == match dec(data@.skip(j as int), prev) {
                Some(rest) => Some(out@ + rest),
                None => None::<Seq<u32>>,
            },
        decreases len - j,
    {
        let v = data[j];
        proof {
            assert(data@.skip(j as int)[0] == v);
        }
        let is_run = match prev {
            Some(p) => p == v,
            None => false,
        };
        if is_run {
            if j + 1 >= len {
                proof {
                    assert(data@.skip(j as int).len() < 2);
                    assert(dec(data@.skip(j as int), prev) is None);
                }
                return None;
            }
            let c = data[j + 1];
            proof {
                assert(data@.skip(j as int)[1] == c);
                assert(data@.skip(j as int).skip(2) =~= data@.skip(j + 2));
            }
            if (out.len() as u64) + 1 + (c as u64) > (CHUNK_DIM3 as u64) {
                proof {
                    let tail = dec(data@.skip(j + 2), None);
                    if tail is Some {
                        let rest = Seq::new(1 + c as nat, |k: int| v) + tail->Some_0;
                        assert(dec(data@.skip(j as int), prev) == Some(rest));
                        assert((out@ + rest).len() > CHUNK_DIM3);
                    }
                }
                return None;
            }
            out.push(v);
            let ghost snap = out@;
            let mut k: u32 = 0;
            while k < c
                invariant
                    0 <= k <= c,
                    out@ =~= snap + Seq::new(k as nat, |t: int| v),
                decreases c - k,
            {
                out.push(v);
                k = k + 1;
            }
            proof {
                assert(out@ =~= snap.subrange(0, snap.len() - 1) + Seq::new(
                    1 + c as nat,
                    |t: int| v,
                ));
            }
            prev = None;
            j = j + 2;
        } else {
            out.push(v);
            proof {
                assert(data@.skip(j as int).skip(1) =~= data@.skip(j + 1));
                let tail = dec(data@.skip(j + 1), Some(v));
                if tail is Some {
                    let rest = tail->Some_0;
                    assert(out@ + rest =~= out@.subrange(0, out@.len() - 1) + (seq![v] + rest));
                }
            }
            if out.len() > CHUNK_DIM3 {
                proof {
                    let tail = dec(data@.skip(j + 1), Some(v));
                    if tail is Some {
                        assert((out@ + tail->Some_0).len() > CHUNK_DIM3);
                    }
                }
                return None;
            }
            prev = Some(v);
            j = j + 1;
        }
    }
    proof {
        assert(data@.skip(len as int) =~= Seq::<u32>::empty());
        assert(dec(Seq::<u32>::empty(), prev) == Some(Seq::<u32>::empty()));
        assert(out@ + Seq::<u32>::empty() =~= out@);
    }
    if out.len() == CHUNK_DIM3 {
        Some(out)
    } else {
        None
    }
}

} // verus!
