//! Byte-preserving run-length codec for cached payloads.
//!
//! The encoded form is a sequence of tokens. A byte other than
//! [`RUN_MARKER`] stands for itself. `RUN_MARKER` opens a run token of three
//! bytes: the marker, a count between 1 and 255, and the byte that the run
//! repeats. The encoder writes a run token for every run longer than
//! [`MIN_RUN`] bytes and for every run of the marker byte itself, so that the
//! decoder is never in doubt.

use vstd::prelude::*;

verus! {

/// The escape byte that opens a run token.
pub const RUN_MARKER: u8 = 0xFF;

/// Runs of at most this many bytes are written out literally.
pub const MIN_RUN: usize = 3;

/// The longest run that one token can carry.
pub const MAX_RUN: usize = 255;

/// `count` copies of `byte`.
pub open spec fn repeated(byte: u8, count: nat) -> Seq<u8> {
    Seq::new(count, |k: int| byte)
}

/// How many of the bytes of `data` from position `from` on equal `byte`,
/// counting at most `budget` of them.
pub open spec fn run_continues(data: Seq<u8>, byte: u8, from: int, budget: nat) -> nat
    decreases budget,
{
    if budget > 0 && 0 <= from < data.len() && data[from] == byte {
        1 + run_continues(data, byte, from + 1, (budget - 1) as nat)
    } else {
        0
    }
}

/// The length of the run that `data` starts with, capped at [`MAX_RUN`].
/// At least 1 for non-empty data.
pub open spec fn leading_run(data: Seq<u8>) -> nat {
    1 + run_continues(data, data[0], 1, (MAX_RUN - 1) as nat)
}

/// The token that stands for `count` copies of `byte`.
pub open spec fn run_token(byte: u8, count: nat) -> Seq<u8> {
    if count > MIN_RUN || byte == RUN_MARKER {
        seq![RUN_MARKER, count as u8, byte]
    } else {
        repeated(byte, count)
    }
}

/// The encoded form of `data`: one token per maximal run, runs longer than
/// [`MAX_RUN`] split greedily.
pub open spec fn spec_compress(data: Seq<u8>) -> Seq<u8>
    decreases data.len(),
    via spec_compress_decreases
{
    if data.len() == 0 {
        Seq::empty()
    } else {
        let n = leading_run(data);
        run_token(data[0], n) + spec_compress(data.skip(n as int))
    }
}

/// `prefix` put in front of a decoded remainder, if there is one.
pub open spec fn prepend(prefix: Seq<u8>, rest: Option<Seq<u8>>) -> Option<Seq<u8>> {
    match rest {
        Some(r) => Some(prefix + r),
        None => None,
    }
}

/// What `encoded` decodes to, or `None` where it is malformed: a run token
/// that is cut short, or one with a count of zero.
pub open spec fn spec_decompress(encoded: Seq<u8>) -> Option<Seq<u8>>
    decreases encoded.len(),
{
    if encoded.len() == 0 {
        Some(Seq::empty())
    } else if encoded[0] != RUN_MARKER {
        prepend(seq![encoded[0]], spec_decompress(encoded.skip(1)))
    } else if encoded.len() < 3 || encoded[1] == 0 {
        None
    } else {
        prepend(repeated(encoded[2], encoded[1] as nat), spec_decompress(encoded.skip(3)))
    }
}

/// A run never counts more bytes than its budget, nor more than are left.
pub proof fn lemma_run_bounds(data: Seq<u8>, byte: u8, from: int, budget: nat)
    requires
        0 <= from,
    ensures
        run_continues(data, byte, from, budget) <= budget,
        from <= data.len() ==> from + run_continues(data, byte, from, budget) <= data.len(),
        run_continues(data, byte, from, budget) > 0 ==> from < data.len(),
    decreases budget,
{
    if budget > 0 && from < data.len() && data[from] == byte {
        lemma_run_bounds(data, byte, from + 1, (budget - 1) as nat);
    }
}

/// Every byte that a run counts equals the run's byte.
pub proof fn lemma_run_bytes(data: Seq<u8>, byte: u8, from: int, budget: nat, k: int)
    requires
        0 <= from,
        0 <= k < run_continues(data, byte, from, budget),
    ensures
        from + k < data.len(),
        data[from + k] == byte,
    decreases budget,
{
    if k > 0 {
        lemma_run_bytes(data, byte, from + 1, (budget - 1) as nat, k - 1);
    }
}

/// The run that non-empty data starts with lies inside the data, is at most
/// [`MAX_RUN`] long, and repeats the first byte.
pub proof fn lemma_leading_run(data: Seq<u8>)
    requires
        data.len() > 0,
    ensures
        1 <= leading_run(data) <= MAX_RUN,
        leading_run(data) <= data.len(),
        data.subrange(0, leading_run(data) as int) == repeated(data[0], leading_run(data)),
{
    let n = leading_run(data);
    lemma_run_bounds(data, data[0], 1, (MAX_RUN - 1) as nat);
    assert forall|k: int| 0 <= k < n implies #[trigger] data[k] == data[0] by {
        if k > 0 {
            lemma_run_bytes(data, data[0], 1, (MAX_RUN - 1) as nat, k - 1);
        }
    }
    assert(data.subrange(0, n as int) =~= repeated(data[0], n));
}

#[via_fn]
proof fn spec_compress_decreases(data: Seq<u8>) {
    if data.len() > 0 {
        lemma_leading_run(data);
    }
}

/// Bytes written literally decode to themselves.
proof fn lemma_decompress_literal(byte: u8, count: nat, rest: Seq<u8>)
    requires
        byte != RUN_MARKER,
    ensures
        spec_decompress(repeated(byte, count) + rest) == prepend(
            repeated(byte, count),
            spec_decompress(rest),
        ),
    decreases count,
{
    let whole = repeated(byte, count) + rest;
    if count == 0 {
        assert(whole =~= rest);
        match spec_decompress(rest) {
            Some(r) => {
                assert(repeated(byte, 0) + r =~= r);
            },
            None => {},
        }
    } else {
        let shorter = repeated(byte, (count - 1) as nat);
        lemma_decompress_literal(byte, (count - 1) as nat, rest);
        assert(whole.len() > 0 && whole[0] == byte);
        assert(whole.skip(1) =~= shorter + rest);
        match spec_decompress(rest) {
            Some(r) => {
                assert(seq![byte] + (shorter + r) =~= repeated(byte, count) + r);
            },
            None => {},
        }
    }
}

/// A token decodes to the run it stands for.
proof fn lemma_decompress_token(byte: u8, count: nat, rest: Seq<u8>)
    requires
        1 <= count <= MAX_RUN,
    ensures
        spec_decompress(run_token(byte, count) + rest) == prepend(
            repeated(byte, count),
            spec_decompress(rest),
        ),
{
    if count > MIN_RUN || byte == RUN_MARKER {
        let whole = run_token(byte, count) + rest;
        assert(whole.len() >= 3);
        assert(whole[0] == RUN_MARKER && whole[1] == count as u8 && whole[2] == byte);
        assert(whole.skip(3) =~= rest);
    } else {
        lemma_decompress_literal(byte, count, rest);
    }
}

/// Decoding undoes encoding: for every payload, `spec_decompress` of
/// `spec_compress` of it is the payload again.
pub proof fn lemma_round_trip(data: Seq<u8>)
    ensures
        spec_decompress(spec_compress(data)) == Some(data),
    decreases data.len(),
{
    if data.len() == 0 {
    } else {
        let n = leading_run(data);
        lemma_leading_run(data);
        let rest = data.skip(n as int);
        lemma_round_trip(rest);
        lemma_decompress_token(data[0], n, spec_compress(rest));
        assert(data.subrange(0, n as int) + rest =~= data);
    }
}

/// An encoding is at most three times as long as the payload.
pub proof fn lemma_compress_len(data: Seq<u8>)
    ensures
        spec_compress(data).len() <= 3 * data.len(),
    decreases data.len(),
{
    if data.len() > 0 {
        lemma_leading_run(data);
        lemma_compress_len(data.skip(leading_run(data) as int));
    }
}

/// Encodes `data`. The result is `spec_compress` of the payload, which
/// `decompress_data` turns back into the payload.
pub fn compress_data(data: &[u8]) -> (encoded: Vec<u8>)
    ensures
        encoded@ == spec_compress(data@),
        spec_decompress(encoded@) == Some(data@),
        encoded@.len() <= 3 * data@.len(),
{
    let mut encoded: Vec<u8> = Vec::new();
    let mut i: usize = 0;
    proof {
        assert(data@.skip(0) =~= data@);
    }
    while i < data.len()
        invariant
            i <= data.len(),
            spec_compress(data@) == encoded@ + spec_compress(data@.skip(i as int)),
        decreases data.len() - i,
    {
        let byte = data[i];
        let ghost tail = data@.skip(i as int);
        let mut count: usize = 1;
        while i + count < data.len() && data[i + count] == byte && count < MAX_RUN
            invariant
                i < data.len(),
                1 <= count <= MAX_RUN,
                i + count <= data.len(),
                tail == data@.skip(i as int),
                byte == tail[0],
                count + run_continues(tail, byte, count as int, (MAX_RUN - count) as nat)
                    == leading_run(tail),
            decreases data.len() - i - count,
        {
            count = count + 1;
        }
        proof {
            lemma_leading_run(tail);
            assert(run_continues(tail, byte, count as int, (MAX_RUN - count) as nat) == 0);
            assert(count == leading_run(tail));
            assert(tail.skip(count as int) =~= data@.skip(i + count));
        }
        let ghost before = encoded@;
        if count > MIN_RUN || byte == RUN_MARKER {
            encoded.push(RUN_MARKER);
            encoded.push(count as u8);
            encoded.push(byte);
            proof {
                assert(encoded@ =~= before + run_token(byte, count as nat));
            }
        } else {
            let mut written: usize = 0;
            while written < count
                invariant
                    written <= count,
                    encoded@ == before + repeated(byte, written as nat),
                decreases count - written,
            {
                encoded.push(byte);
                written = written + 1;
                proof {
                    assert(encoded@ =~= before + repeated(byte, written as nat));
                }
            }
        }
        proof {
            assert(encoded@ + spec_compress(data@.skip(i + count)) =~= before + (run_token(
                byte,
                count as nat,
            ) + spec_compress(tail.skip(count as int))));
        }
        i = i + count;
    }
    proof {
        lemma_round_trip(data@);
        lemma_compress_len(data@);
        assert(encoded@ + Seq::<u8>::empty() =~= encoded@);
    }
    encoded
}

/// Decodes `encoded`. `None` exactly where the input is malformed.
pub fn decompress_data(encoded: &[u8]) -> (decoded: Option<Vec<u8>>)
    ensures
        match decoded {
            Some(bytes) => spec_decompress(encoded@) == Some(bytes@),
            None => spec_decompress(encoded@) is None,
        },
{
    let mut decoded: Vec<u8> = Vec::new();
    let mut i: usize = 0;
    proof {
        assert(encoded@.skip(0) =~= encoded@);
        match spec_decompress(encoded@) {
            Some(r) => {
                assert(Seq::<u8>::empty() + r =~= r);
            },
            None => {},
        }
    }
    while i < encoded.len()
        invariant
            i <= encoded.len(),
            spec_decompress(encoded@) == prepend(
                decoded@,
                spec_decompress(encoded@.skip(i as int)),
            ),
        decreases encoded.len() - i,
    {
        let first = encoded[i];
        let ghost tail = encoded@.skip(i as int);
        let ghost before = decoded@;
        if first != RUN_MARKER {
            decoded.push(first);
            proof {
                assert(tail.skip(1) =~= encoded@.skip(i + 1));
                match spec_decompress(tail.skip(1)) {
                    Some(r) => {
                        assert(before + (seq![first] + r) =~= decoded@ + r);
                    },
                    None => {},
                }
            }
            i = i + 1;
        } else if encoded.len() - i < 3 || encoded[i + 1] == 0 {
            return None;
        } else {
            let count = encoded[i + 1];
            let byte = encoded[i + 2];
            let mut written: u8 = 0;
            while written < count
                invariant
                    written <= count,
                    decoded@ == before + repeated(byte, written as nat),
                decreases count - written,
            {
                decoded.push(byte);
                written = written + 1;
                proof {
                    assert(decoded@ =~= before + repeated(byte, written as nat));
                }
            }
            proof {
                assert(tail.skip(3) =~= encoded@.skip(i + 3));
                match spec_decompress(tail.skip(3)) {
                    Some(r) => {
                        assert(before + (repeated(byte, count as nat) + r) =~= decoded@ + r);
                    },
                    None => {},
                }
            }
            i = i + 3;
        }
    }
    proof {
        assert(encoded@.skip(i as int) =~= Seq::<u8>::empty());
        assert(decoded@ + Seq::<u8>::empty() =~= decoded@);
    }
    Some(decoded)
}

} // verus!
