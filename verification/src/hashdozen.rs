//! The hashing pipeline: padding, block folding, two-operand combination,
//! digest formatting, and the deterministic salt generator.
//!
//! Every stage is a pure function over byte sequences; its mathematical
//! meaning is given by the `spec` functions below, and each executable
//! function is proved to return exactly the value its spec function names.

use vstd::prelude::*;

verus! {

// ---------------------------------------------------------------------------
// Specification model
// ---------------------------------------------------------------------------

/// Rotate an 8-bit value right by `n` positions. The rotation count is
/// reduced modulo 8, so rotating by 9 equals rotating by 1.
pub open spec fn rotr(x: u8, n: u8) -> u8 {
    let k = n % 8;
    if k == 0 {
        x
    } else {
        (x >> k) | (x << ((8 - k) as u8))
    }
}

/// The per-byte diffusion primitive:
/// `mix(a, b) = rotate_right(a, b mod 8) XOR rotate_right(b, a mod 8)`.
/// Rotating each operand by an amount derived from the other makes the
/// result depend on the pairing of the values, not just on their XOR.
pub open spec fn mix(a: u8, b: u8) -> u8 {
    rotr(a, b) ^ rotr(b, a)
}

/// The fixed-width (8-byte) big-endian encoding of a length, appended by the
/// padder so that the digest is bound to the input's length.
pub open spec fn length_marker(n: u64) -> Seq<u8> {
    seq![
        (n >> 56) as u8,
        (n >> 48) as u8,
        (n >> 40) as u8,
        (n >> 32) as u8,
        (n >> 24) as u8,
        (n >> 16) as u8,
        (n >> 8) as u8,
        n as u8,
    ]
}

/// How many `0xFF` fill bytes the padder appends to bring a sequence of
/// length `n` up to a multiple of 6.
pub open spec fn fill_count(n: nat) -> nat {
    if n % 6 == 0 {
        0
    } else {
        (6 - n % 6) as nat
    }
}

/// The padder: append the big-endian encoding of the original length, then
/// `0xFF` bytes until the total length is a multiple of 6.
pub open spec fn pad_spec(s: Seq<u8>) -> Seq<u8> {
    let marked = s + length_marker(s.len() as u64);
    marked + Seq::new(fill_count(marked.len()), |i: int| 255u8)
}

/// Combine two 6-byte blocks position-wise with `mix`; the accumulator (or
/// primary operand) supplies `a`, the older chunk (or salt) supplies `b`.
pub open spec fn mix_block(a: Seq<u8>, b: Seq<u8>) -> Seq<u8> {
    Seq::new(6, |i: int| mix(a[i], b[i]))
}

/// The block folder: a sequence whose length is a positive multiple of 6 is
/// reduced to one 6-byte block. The accumulator starts as the final 6-byte
/// chunk and is combined with each next older chunk in turn, so the newest
/// chunk is folded first and the oldest last.
pub open spec fn fold_spec(s: Seq<u8>) -> Seq<u8>
    recommends
        s.len() >= 6,
        s.len() % 6 == 0,
    decreases s.len(),
{
    if s.len() < 12 {
        s
    } else {
        mix_block(fold_spec(s.subrange(6, s.len() as int)), s.subrange(0, 6))
    }
}

/// The uppercase hexadecimal digit for a value below 16.
pub open spec fn hex_digit(n: u8) -> char
    recommends
        n < 16,
{
    if n == 0 {
        '0'
    } else if n == 1 {
        '1'
    } else if n == 2 {
        '2'
    } else if n == 3 {
        '3'
    } else if n == 4 {
        '4'
    } else if n == 5 {
        '5'
    } else if n == 6 {
        '6'
    } else if n == 7 {
        '7'
    } else if n == 8 {
        '8'
    } else if n == 9 {
        '9'
    } else if n == 10 {
        'A'
    } else if n == 11 {
        'B'
    } else if n == 12 {
        'C'
    } else if n == 13 {
        'D'
    } else if n == 14 {
        'E'
    } else {
        'F'
    }
}

/// A byte rendered as two uppercase hex digits, zero-padded.
pub open spec fn byte_hex(b: u8) -> Seq<char> {
    seq![hex_digit(b / 16), hex_digit(b % 16)]
}

/// The formatter: a 6-byte block rendered as `HHHH-HHHH-HHHH`, a dash after
/// the 2nd and after the 4th byte's digits. Always 14 characters.
pub open spec fn format_spec(b: Seq<u8>) -> Seq<char>
    recommends
        b.len() == 6,
{
    byte_hex(b[0]) + byte_hex(b[1]) + seq!['-'] + byte_hex(b[2]) + byte_hex(b[3]) + seq!['-']
        + byte_hex(b[4]) + byte_hex(b[5])
}

/// The single-operand pipeline: pad, fold, format.
pub open spec fn digest_spec(s: Seq<u8>) -> Seq<char> {
    format_spec(fold_spec(pad_spec(s)))
}

/// The salt generator: `salt[i] = s[i] XOR s[len - 1 - i]`, the palindrome
/// XOR of the input with its own reversal.
///
/// Known limitation, kept by design: a palindromic input, and the middle
/// index of an odd-length input, yield zero salt bytes at those positions.
pub open spec fn salt_spec(s: Seq<u8>) -> Seq<u8> {
    Seq::new(s.len(), |i: int| s[i] ^ s[s.len() - 1 - i])
}

/// The dual-operand pipeline: each operand is padded and folded on its own,
/// the two blocks are combined position-wise with `mix` (primary supplies
/// `a`, salt supplies `b`), and the result is formatted.
pub open spec fn combined_digest_spec(data: Seq<u8>, salt: Seq<u8>) -> Seq<char> {
    format_spec(mix_block(fold_spec(pad_spec(data)), fold_spec(pad_spec(salt))))
}

// ---------------------------------------------------------------------------
// Executable pipeline stages
// ---------------------------------------------------------------------------

fn rotate_byte(x: u8, n: u8) -> (r: u8)
    ensures
        r == rotr(x, n),
{
    let k: u8 = n % 8;
    if k == 0 {
        x
    } else {
        (x >> k) | (x << (8 - k))
    }
}

fn mix_bytes(a: u8, b: u8) -> (r: u8)
    ensures
        r == mix(a, b),
{
    rotate_byte(a, b) ^ rotate_byte(b, a)
}

/// The padded sequence always has a length that is a multiple of 6 and at
/// least 12: the 8-byte marker alone already rounds up past one block.
pub proof fn lemma_pad_shape(s: Seq<u8>)
    ensures
        pad_spec(s).len() == s.len() + 8 + fill_count(s.len() + 8),
        pad_spec(s).len() % 6 == 0,
        pad_spec(s).len() >= 12,
{
}

/// Pad out to a multiple of 6 bytes: append the big-endian encoding of the
/// current length, then `0xFF` until the length divides evenly.
fn pad(data: &mut Vec<u8>)
    ensures
        final(data)@ == pad_spec(old(data)@),
{
    let n: u64 = data.len() as u64;
    data.push((n >> 56) as u8);
    data.push((n >> 48) as u8);
    data.push((n >> 40) as u8);
    data.push((n >> 32) as u8);
    data.push((n >> 24) as u8);
    data.push((n >> 16) as u8);
    data.push((n >> 8) as u8);
    data.push(n as u8);
    let ghost marked: Seq<u8> = data@;
    proof {
        assert(marked =~= old(data)@ + length_marker(n));
    }
    while data.len() % 6 > 0
        invariant
            marked == old(data)@ + length_marker(old(data)@.len() as u64),
            marked.len() <= data@.len(),
            data@.len() <= marked.len() + fill_count(marked.len()),
            data@ == marked + Seq::new((data@.len() - marked.len()) as nat, |i: int| 255u8),
        decreases marked.len() + fill_count(marked.len()) - data@.len(),
    {
        proof {
            // The loop runs only below the next multiple of 6, so one more
            // fill byte still fits under the bound.
            assert((marked.len() + fill_count(marked.len())) % 6 == 0);
            assert(data@.len() < marked.len() + fill_count(marked.len()));
        }
        data.push(255);
        proof {
            assert(data@ =~= marked + Seq::new(
                (data@.len() - marked.len()) as nat,
                |i: int| 255u8,
            ));
        }
    }
    proof {
        assert(data@.len() == marked.len() + fill_count(marked.len()));
        assert(data@ =~= pad_spec(old(data)@));
    }
}

/// Folding a sequence whose length is a positive multiple of 6 always yields
/// a complete 6-byte block.
pub proof fn lemma_fold_len(s: Seq<u8>)
    requires
        s.len() >= 6,
        s.len() % 6 == 0,
    ensures
        fold_spec(s).len() == 6,
    decreases s.len(),
{
    if s.len() >= 12 {
        lemma_fold_len(s.subrange(6, s.len() as int));
    }
}

/// Compress a padded sequence into one 6-byte block: seed the accumulator
/// with the final 6 bytes, then walk backward one 6-byte chunk at a time,
/// mixing each older chunk into the accumulator.
fn compress(data: Vec<u8>) -> (r: Vec<u8>)
    requires
        data@.len() >= 6,
        data@.len() % 6 == 0,
    ensures
        r@ == fold_spec(data@),
        r@.len() == 6,
{
    let len: usize = data.len();
    let mut mainblock: Vec<u8> = Vec::new();
    let mut i: usize = len - 6;
    while i < len
        invariant
            len == data@.len(),
            len >= 6,
            len - 6 <= i <= len,
            mainblock@ == data@.subrange(len - 6, i as int),
        decreases len - i,
    {
        mainblock.push(data[i]);
        i = i + 1;
        proof {
            assert(mainblock@ =~= data@.subrange(len - 6, i as int));
        }
    }
    proof {
        assert(mainblock@ == data@.subrange(len - 6, len as int));
        assert(fold_spec(data@.subrange(len - 6, len as int)) == data@.subrange(
            len - 6,
            len as int,
        ));
    }
    let mut pos: usize = len - 6;
    while pos >= 6
        invariant
            len == data@.len(),
            len >= 6,
            len % 6 == 0,
            pos % 6 == 0,
            pos <= len - 6,
            mainblock@.len() == 6,
            mainblock@ == fold_spec(data@.subrange(pos as int, len as int)),
        decreases pos,
    {
        pos = pos - 6;
        let ghost acc: Seq<u8> = mainblock@;
        let mut next: Vec<u8> = Vec::new();
        let mut j: usize = 0;
        while j < 6
            invariant
                len == data@.len(),
                pos + 6 <= len,
                mainblock@.len() == 6,
                j <= 6,
                next@.len() == j,
                forall|k: int| 0 <= k < j ==> next@[k] == mix(mainblock@[k], data@[pos + k]),
            decreases 6 - j,
        {
            next.push(mix_bytes(mainblock[j], data[pos + j]));
            j = j + 1;
        }
        proof {
            let whole = data@.subrange(pos as int, len as int);
            assert(whole.len() >= 12);
            assert(whole.subrange(6, whole.len() as int) =~= data@.subrange(
                pos + 6,
                len as int,
            ));
            assert(whole.subrange(0, 6) =~= data@.subrange(pos as int, pos + 6));
            assert(next@ =~= mix_block(acc, data@.subrange(pos as int, pos + 6)));
            assert(fold_spec(whole) == mix_block(
                fold_spec(data@.subrange(pos + 6, len as int)),
                data@.subrange(pos as int, pos + 6),
            ));
        }
        mainblock = next;
    }
    proof {
        assert(data@.subrange(0, len as int) =~= data@);
    }
    mainblock
}

fn hex_digit_str(n: u8) -> (r: &'static str)
    requires
        n < 16,
    ensures
        r@ =~= seq![hex_digit(n)],
{
    proof {
        reveal_strlit("0");
        reveal_strlit("1");
        reveal_strlit("2");
        reveal_strlit("3");
        reveal_strlit("4");
        reveal_strlit("5");
        reveal_strlit("6");
        reveal_strlit("7");
        reveal_strlit("8");
        reveal_strlit("9");
        reveal_strlit("A");
        reveal_strlit("B");
        reveal_strlit("C");
        reveal_strlit("D");
        reveal_strlit("E");
        reveal_strlit("F");
    }
    if n == 0 {
        "0"
    } else if n == 1 {
        "1"
    } else if n == 2 {
        "2"
    } else if n == 3 {
        "3"
    } else if n == 4 {
        "4"
    } else if n == 5 {
        "5"
    } else if n == 6 {
        "6"
    } else if n == 7 {
        "7"
    } else if n == 8 {
        "8"
    } else if n == 9 {
        "9"
    } else if n == 10 {
        "A"
    } else if n == 11 {
        "B"
    } else if n == 12 {
        "C"
    } else if n == 13 {
        "D"
    } else if n == 14 {
        "E"
    } else {
        "F"
    }
}

fn push_byte_hex(out: &mut String, b: u8)
    ensures
        final(out)@ == old(out)@ + byte_hex(b),
{
    out.append(hex_digit_str(b / 16));
    out.append(hex_digit_str(b % 16));
    proof {
        assert(out@ =~= old(out)@ + byte_hex(b));
    }
}

/// Render a 6-byte block as `HHHH-HHHH-HHHH`: two uppercase hex digits per
/// byte, a dash after the 2nd and after the 4th byte.
fn format_hash(data: Vec<u8>) -> (r: String)
    requires
        data@.len() == 6,
    ensures
        r@ == format_spec(data@),
{
    let mut outstr = String::new();
    push_byte_hex(&mut outstr, data[0]);
    push_byte_hex(&mut outstr, data[1]);
    outstr.append("-");
    push_byte_hex(&mut outstr, data[2]);
    push_byte_hex(&mut outstr, data[3]);
    outstr.append("-");
    push_byte_hex(&mut outstr, data[4]);
    push_byte_hex(&mut outstr, data[5]);
    proof {
        reveal_strlit("-");
        assert(outstr@ =~= format_spec(data@));
    }
    outstr
}

// ---------------------------------------------------------------------------
// Entry points
// ---------------------------------------------------------------------------

/// The single failure of the hashing entry points: an operand of zero
/// length, over which padding and folding are undefined.
#[derive(Clone, Copy, Debug, PartialEq, Eq, Structural)]
pub struct EmptyInputError;

/// A digest is always exactly 14 characters: 12 hex digits and 2 dashes.
pub proof fn lemma_digest_length(s: Seq<u8>)
    ensures
        digest_spec(s).len() == 14,
{
    lemma_pad_shape(s);
    lemma_fold_len(pad_spec(s));
}

/// A combined digest has the same fixed 14-character shape.
pub proof fn lemma_combined_digest_length(data: Seq<u8>, salt: Seq<u8>)
    ensures
        combined_digest_spec(data, salt).len() == 14,
{
}

/// Run the single-operand pipeline: pad, fold into one block, format.
fn run_hash(input: Vec<u8>) -> (r: String)
    ensures
        r@ == digest_spec(input@),
{
    let ghost iv: Seq<u8> = input@;
    let mut input = input;
    pad(&mut input);
    proof {
        lemma_pad_shape(iv);
    }
    let datablocks = compress(input);
    format_hash(datablocks)
}

/// The primary single-operand entry point: `hash(data)`.
///
/// Fails exactly when the input is empty; otherwise returns the digest of
/// the padded, folded input, always 14 characters.
pub fn hash(input: Vec<u8>) -> (r: Result<String, EmptyInputError>)
    ensures
        r is Ok <==> input@.len() > 0,
        r is Ok ==> r->Ok_0@ == digest_spec(input@) && r->Ok_0@.len() == 14,
{
    if input.len() == 0 {
        Err(EmptyInputError)
    } else {
        let ghost iv: Seq<u8> = input@;
        let digest = run_hash(input);
        proof {
            lemma_digest_length(iv);
        }
        Ok(digest)
    }
}

/// The dual-operand entry point: `hash(data, salt)` with a separately
/// supplied salt. Each operand is padded and folded independently and the
/// two blocks are combined with `mix` (data supplies `a`, salt supplies
/// `b`). This is deliberately not the same value as hashing the
/// concatenation of data and salt in one stream.
///
/// Fails exactly when either operand is empty.
pub fn hash_with_salt(data: Vec<u8>, salt: Vec<u8>) -> (r: Result<String, EmptyInputError>)
    ensures
        r is Ok <==> (data@.len() > 0 && salt@.len() > 0),
        r is Ok ==> r->Ok_0@ == combined_digest_spec(data@, salt@) && r->Ok_0@.len() == 14,
{
    if data.len() == 0 || salt.len() == 0 {
        return Err(EmptyInputError);
    }
    let ghost dv: Seq<u8> = data@;
    let ghost sv: Seq<u8> = salt@;
    let mut data = data;
    let mut salt = salt;
    pad(&mut data);
    pad(&mut salt);
    proof {
        lemma_pad_shape(dv);
        lemma_pad_shape(sv);
    }
    let datablock = compress(data);
    let saltblock = compress(salt);
    let mut finalblock: Vec<u8> = Vec::new();
    let mut j: usize = 0;
    while j < 6
        invariant
            datablock@ == fold_spec(pad_spec(dv)),
            saltblock@ == fold_spec(pad_spec(sv)),
            datablock@.len() == 6,
            saltblock@.len() == 6,
            j <= 6,
            finalblock@.len() == j,
            forall|k: int|
                0 <= k < j ==> finalblock@[k] == mix(datablock@[k], saltblock@[k]),
        decreases 6 - j,
    {
        finalblock.push(mix_bytes(datablock[j], saltblock[j]));
        j = j + 1;
    }
    proof {
        assert(finalblock@ =~= mix_block(fold_spec(pad_spec(dv)), fold_spec(pad_spec(sv))));
        lemma_combined_digest_length(dv, sv);
    }
    Ok(format_hash(finalblock))
}

/// Produce the deterministic salt for an input: position-wise XOR of the
/// input with its own reversal, the same length as the input.
///
/// Known limitation, kept by design: a palindromic input, and the middle
/// byte of an odd-length input, yield zero bytes at those positions.
pub fn generate_salt(input: &Vec<u8>) -> (r: Vec<u8>)
    ensures
        r@ == salt_spec(input@),
        r@.len() == input@.len(),
{
    let len: usize = input.len();
    let mut salt: Vec<u8> = Vec::new();
    let mut i: usize = 0;
    while i < len
        invariant
            len == input@.len(),
            i <= len,
            salt@.len() == i,
            forall|k: int| 0 <= k < i ==> salt@[k] == (input@[k] ^ input@[len - 1 - k]),
        decreases len - i,
    {
        salt.push(input[i] ^ input[len - 1 - i]);
        i = i + 1;
    }
    proof {
        assert(salt@ =~= salt_spec(input@));
    }
    salt
}

/// Take a data value and return it salted: the input followed by its
/// generated salt, exactly doubling the length.
pub fn generate_salted_input(input: Vec<u8>) -> (r: Vec<u8>)
    ensures
        r@ == input@ + salt_spec(input@),
        r@.len() == 2 * input@.len(),
{
    let mut input = input;
    let mut salt = generate_salt(&input);
    input.append(&mut salt);
    input
}

/// A shortcut that salts the input and then hashes the widened value in a
/// single stream: `hash(input ++ salt(input))`. Fails exactly when the
/// input is empty.
pub fn salt_then_hash(input: Vec<u8>) -> (r: Result<String, EmptyInputError>)
    ensures
        r is Ok <==> input@.len() > 0,
        r is Ok ==> r->Ok_0@ == digest_spec(input@ + salt_spec(input@)) && r->Ok_0@.len() == 14,
{
    let saltydata = generate_salted_input(input);
    hash(saltydata)
}

// ---------------------------------------------------------------------------
// Laws
// ---------------------------------------------------------------------------

/// Determinism: the digest is a function of the input bytes alone, so equal
/// inputs always yield identical digests, in the same call or across calls.
pub proof fn lemma_hash_deterministic(x: Seq<u8>, y: Seq<u8>)
    requires
        x == y,
    ensures
        digest_spec(x) == digest_spec(y),
{
}

/// Salt determinism: equal inputs always yield the same salt.
pub proof fn lemma_salt_deterministic(x: Seq<u8>, y: Seq<u8>)
    requires
        x == y,
    ensures
        salt_spec(x) == salt_spec(y),
{
}

/// Salt alters bytes: any input with at least one pair of differing
/// symmetric bytes produces a salt different from the input itself.
pub proof fn lemma_salt_alters(s: Seq<u8>)
    requires
        exists|i: int| 0 <= i < s.len() && #[trigger] s[i] != s[s.len() - 1 - i],
    ensures
        salt_spec(s) != s,
{
    let i = choose|i: int| 0 <= i < s.len() && #[trigger] s[i] != s[s.len() - 1 - i];
    let n = s.len() as int;
    let a = s[i];
    let b = s[n - 1 - i];
    if salt_spec(s) == s {
        // If the salt equalled the input at both paired positions, both
        // bytes would have to be zero, contradicting that they differ.
        assert(salt_spec(s)[i] == (a ^ b));
        assert(salt_spec(s)[n - 1 - i] == (b ^ a));
        assert((a ^ b) == a ==> b == 0) by (bit_vector);
        assert((b ^ a) == b ==> a == 0) by (bit_vector);
        assert(false);
    }
}

/// The plain hex rendering of a whole byte sequence, two uppercase digits
/// per byte and nothing else; used only to state how the digest relates to
/// a rendering of the raw input.
pub open spec fn bytes_hex(s: Seq<u8>) -> Seq<char>
    decreases s.len(),
{
    if s.len() == 0 {
        Seq::empty()
    } else {
        byte_hex(s[0]) + bytes_hex(s.subrange(1, s.len() as int))
    }
}

/// A hex rendering is always twice as long as the bytes it renders.
pub proof fn lemma_bytes_hex_len(s: Seq<u8>)
    ensures
        bytes_hex(s).len() == 2 * s.len(),
    decreases s.len(),
{
    if s.len() > 0 {
        lemma_bytes_hex_len(s.subrange(1, s.len() as int));
    }
}

/// Non-identity: the digest is never the hex rendering of the raw input,
/// for every input other than one of exactly 7 bytes — only there do the
/// two renderings even have the same length, and a coincidence cannot be
/// ruled out.
pub proof fn lemma_digest_differs_from_input_hex(s: Seq<u8>)
    requires
        s.len() != 7,
    ensures
        digest_spec(s) != bytes_hex(s),
{
    lemma_digest_length(s);
    lemma_bytes_hex_len(s);
}

} // verus!
