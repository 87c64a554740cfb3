//! Byte codec for audio chunks.
//!
//! A chunk travels to the conversion service as raw interleaved samples:
//! each 32-bit sample word is laid out as four little-endian bytes.  The
//! decoder accepts only whole words, so a converted payload whose length
//! is not a multiple of four is rejected rather than misread.

use vstd::prelude::*;

verus! {

/// The four little-endian bytes of one sample word.
pub open spec fn word_bytes(s: u32) -> Seq<u8> {
    seq![
        (s & 0xff) as u8,
        ((s >> 8) & 0xff) as u8,
        ((s >> 16) & 0xff) as u8,
        ((s >> 24) & 0xff) as u8,
    ]
}

/// The sample word read back from four little-endian bytes.
pub open spec fn word_of_bytes(b0: u8, b1: u8, b2: u8, b3: u8) -> u32 {
    (b0 as u32) | ((b1 as u32) << 8) | ((b2 as u32) << 16) | ((b3 as u32) << 24)
}

/// Little-endian encoding of a whole sample sequence, word by word.
pub open spec fn encoded(samples: Seq<u32>) -> Seq<u8>
    decreases samples.len(),
{
    if samples.len() == 0 {
        Seq::empty()
    } else {
        word_bytes(samples[0]) + encoded(samples.skip(1))
    }
}

/// The samples read back from a byte sequence, four bytes at a time.
/// Meaningful when the length is a multiple of four; a trailing fragment
/// shorter than one word is ignored here and rejected by the decoder.
pub open spec fn decoded(bytes: Seq<u8>) -> Seq<u32>
    decreases bytes.len(),
{
    if bytes.len() < 4 {
        Seq::empty()
    } else {
        seq![word_of_bytes(bytes[0], bytes[1], bytes[2], bytes[3])] + decoded(bytes.skip(4))
    }
}

/// Reading the four bytes of a word back yields the word.
pub proof fn lemma_word_round_trip(s: u32)
    ensures
        word_of_bytes(
            (s & 0xff) as u8,
            ((s >> 8) & 0xff) as u8,
            ((s >> 16) & 0xff) as u8,
            ((s >> 24) & 0xff) as u8,
        ) == s,
{
    assert(((s & 0xff) as u8 as u32) | (((s >> 8) & 0xff) as u8 as u32) << 8
        | (((s >> 16) & 0xff) as u8 as u32) << 16 | (((s >> 24) & 0xff) as u8 as u32) << 24
        == s) by (bit_vector);
}

/// Appending one sample extends the encoding by that sample's four bytes.
pub proof fn lemma_encoded_push(samples: Seq<u32>, s: u32)
    ensures
        encoded(samples.push(s)) == encoded(samples) + word_bytes(s),
    decreases samples.len(),
{
    reveal_with_fuel(encoded, 3);
    if samples.len() == 0 {
        assert(samples.push(s).skip(1) =~= Seq::<u32>::empty());
        assert(encoded(samples.push(s)) =~= encoded(samples) + word_bytes(s));
    } else {
        assert(samples.push(s)[0] == samples[0]);
        assert(samples.push(s).skip(1) =~= samples.skip(1).push(s));
        lemma_encoded_push(samples.skip(1), s);
        assert(encoded(samples.push(s)) == word_bytes(samples[0]) + (encoded(samples.skip(1))
            + word_bytes(s)));
        assert(word_bytes(samples[0]) + (encoded(samples.skip(1)) + word_bytes(s)) =~= (
        word_bytes(samples[0]) + encoded(samples.skip(1))) + word_bytes(s));
    }
}

/// The encoding is four bytes per sample.
pub proof fn lemma_encoded_len(samples: Seq<u32>)
    ensures
        encoded(samples).len() == 4 * samples.len(),
    decreases samples.len(),
{
    if samples.len() > 0 {
        lemma_encoded_len(samples.skip(1));
    }
}

/// Law: decoding an encoded sample sequence gives back exactly that
/// sequence — the codec loses nothing and invents nothing.
pub proof fn lemma_codec_round_trip(samples: Seq<u32>)
    ensures
        decoded(encoded(samples)) == samples,
    decreases samples.len(),
{
    lemma_encoded_len(samples);
    if samples.len() == 0 {
        assert(decoded(encoded(samples)) =~= samples);
    } else {
        lemma_codec_round_trip(samples.skip(1));
        lemma_word_round_trip(samples[0]);
        assert(encoded(samples).skip(4) =~= encoded(samples.skip(1)));
        assert(decoded(encoded(samples)) =~= samples);
    }
}

/// Encodes samples for the wire: four little-endian bytes per sample word.
pub fn encode_samples(samples: &[u32]) -> (out: Vec<u8>)
    ensures
        out@ == encoded(samples@),
{
    let mut out: Vec<u8> = Vec::new();
    let mut i: usize = 0;
    while i < samples.len()
        invariant
            0 <= i <= samples@.len(),
            out@ == encoded(samples@.take(i as int)),
        decreases samples@.len() - i,
    {
        let s = samples[i];
        proof {
            assert(s & 0xff < 256 && (s >> 8) & 0xff < 256 && (s >> 16) & 0xff < 256 && (s
                >> 24) & 0xff < 256) by (bit_vector);
        }
        out.push((s & 0xff) as u8);
        out.push(((s >> 8) & 0xff) as u8);
        out.push(((s >> 16) & 0xff) as u8);
        out.push(((s >> 24) & 0xff) as u8);
        proof {
            lemma_encoded_push(samples@.take(i as int), s);
            assert(samples@.take(i + 1 as int) =~= samples@.take(i as int).push(s));
        }
        i = i + 1;
    }
    proof {
        assert(samples@.take(samples@.len() as int) =~= samples@);
    }
    out
}

/// Appending one word's bytes to a whole number of encoded words extends
/// the decoding by exactly that word.
pub proof fn lemma_decoded_append_word(prefix: Seq<u8>, b0: u8, b1: u8, b2: u8, b3: u8)
    requires
        prefix.len() % 4 == 0,
    ensures
        decoded(prefix + seq![b0, b1, b2, b3]) == decoded(prefix).push(
            word_of_bytes(b0, b1, b2, b3),
        ),
    decreases prefix.len(),
{
    reveal_with_fuel(decoded, 3);
    let whole = prefix + seq![b0, b1, b2, b3];
    if prefix.len() == 0 {
        assert(whole.skip(4) =~= Seq::<u8>::empty());
        assert(decoded(whole) =~= decoded(prefix).push(word_of_bytes(b0, b1, b2, b3)));
    } else {
        assert(prefix.len() >= 4);
        assert(whole[0] == prefix[0] && whole[1] == prefix[1] && whole[2] == prefix[2] && whole[3]
            == prefix[3]);
        assert(whole.skip(4) =~= prefix.skip(4) + seq![b0, b1, b2, b3]);
        assert(prefix.skip(4).len() % 4 == 0);
        lemma_decoded_append_word(prefix.skip(4), b0, b1, b2, b3);
        assert(decoded(whole) == seq![word_of_bytes(prefix[0], prefix[1], prefix[2], prefix[3])]
            + decoded(prefix.skip(4)).push(word_of_bytes(b0, b1, b2, b3)));
        assert(decoded(prefix) == seq![word_of_bytes(prefix[0], prefix[1], prefix[2], prefix[3])]
            + decoded(prefix.skip(4)));
        assert(decoded(whole) =~= decoded(prefix).push(word_of_bytes(b0, b1, b2, b3)));
    }
}

/// Decodes a converted payload back into sample words.  Returns the
/// decoded samples exactly when the payload is a whole number of words,
/// and `None` — never a partial read — otherwise.
pub fn decode_samples(bytes: &[u8]) -> (out: Option<Vec<u32>>)
    ensures
        bytes@.len() % 4 == 0 ==> (out matches Some(v) && v@ == decoded(bytes@)),
        bytes@.len() % 4 != 0 ==> out is None,
{
    if bytes.len() % 4 != 0 {
        return None;
    }
    let mut out: Vec<u32> = Vec::new();
    let mut i: usize = 0;
    while i < bytes.len()
        invariant
            0 <= i <= bytes@.len(),
            i % 4 == 0,
            bytes@.len() % 4 == 0,
            out@ == decoded(bytes@.take(i as int)),
        decreases bytes@.len() - i,
    {
        proof {
            assert(i + 4 <= bytes@.len()) by (nonlinear_arith)
                requires
                    i % 4 == 0,
                    bytes@.len() % 4 == 0,
                    i < bytes@.len(),
            ;
        }
        let b0 = bytes[i];
        let b1 = bytes[i + 1];
        let b2 = bytes[i + 2];
        let b3 = bytes[i + 3];
        let word = (b0 as u32) | ((b1 as u32) << 8) | ((b2 as u32) << 16) | ((b3 as u32) << 24);
        out.push(word);
        proof {
            assert(bytes@.take(i as int).len() % 4 == 0);
            lemma_decoded_append_word(bytes@.take(i as int), b0, b1, b2, b3);
            assert(bytes@.take(i + 4 as int) =~= bytes@.take(i as int) + seq![b0, b1, b2, b3]);
        }
        i = i + 4;
    }
    proof {
        assert(bytes@.take(bytes@.len() as int) =~= bytes@);
    }
    Some(out)
}

} // verus!
