//! SHA-1 fingerprints written in hexadecimal.

use sha1::{Digest, Sha1};
use vstd::prelude::*;

verus! {

/// The SHA-1 digest of `data`.
pub uninterp spec fn sha1_digest(data: Seq<u8>) -> Seq<u8>;

/// `Sha1::digest` hashes the whole of `data` and returns the digest, whose 20
/// bytes depend on `data` alone. The crate counts the message length in bits in
/// a `u64`, so a message would have to exceed every address space to wrap it.
#[verifier::external_body]
fn sha1(data: &Vec<u8>) -> (digest: Vec<u8>)
    ensures
        digest@ == sha1_digest(data@),
        digest@.len() == 20,
{
    Sha1::digest(data).to_vec()
}

/// The lower-case hexadecimal digit of `d`.
pub open spec fn hex_digit(d: nat) -> char {
    if d < 10 {
        (d + 48) as char
    } else {
        (d + 87) as char
    }
}

/// Every byte of `data` as two lower-case hexadecimal digits.
pub open spec fn hex(data: Seq<u8>) -> Seq<char> {
    Seq::new(
        2 * data.len(),
        |i: int|
            if i % 2 == 0 {
                hex_digit((data[i / 2] / 16) as nat)
            } else {
                hex_digit((data[i / 2] % 16) as nat)
            },
    )
}

/// The fingerprint of `data`.
pub open spec fn fingerprint_text(data: Seq<u8>) -> Seq<char> {
    hex(sha1_digest(data))
}

fn to_hex_digit(d: u8) -> (c: char)
    requires
        d < 16,
    ensures
        c == hex_digit(d as nat),
{
    if d < 10 {
        (d + 48u8) as char
    } else {
        (d + 87u8) as char
    }
}

/// Writes `data` in lower-case hexadecimal.
pub fn to_hex(data: &Vec<u8>) -> (result: String)
    ensures
        result@ == hex(data@),
{
    let mut result = String::new();
    let mut i: usize = 0;
    while i < data.len()
        invariant
            i <= data@.len(),
            result@ == hex(data@.take(i as int)),
        decreases data@.len() - i,
    {
        let byte = data[i];
        let ghost before = result@;
        result.push(to_hex_digit(byte / 16));
        result.push(to_hex_digit(byte % 16));
        proof {
            let now = hex(data@.take(i + 1));
            assert(now.len() == before.len() + 2);
            assert forall|j: int| 0 <= j < now.len() implies now[j] == result@[j] by {
                if j < before.len() {
                    assert(data@.take(i + 1)[j / 2] == data@.take(i as int)[j / 2]);
                }
            }
            assert(result@ =~= now);
        }
        i += 1;
    }
    assert(data@.take(data@.len() as int) =~= data@);
    result
}

/// The fingerprint of `data`: its SHA-1 digest in hexadecimal, 40 characters.
pub fn fingerprint_of(data: &Vec<u8>) -> (result: String)
    ensures
        result@ == fingerprint_text(data@),
        result@.len() == 40,
{
    let digest = sha1(data);
    to_hex(&digest)
}

proof fn lemma_hex_digit_tells_apart(a: nat, b: nat)
    requires
        a < 16,
        b < 16,
        hex_digit(a) == hex_digit(b),
    ensures
        a == b,
{
}

/// Bytes that are written alike in hexadecimal are the same.
pub proof fn hex_tells_apart(a: Seq<u8>, b: Seq<u8>)
    requires
        hex(a) == hex(b),
    ensures
        a == b,
{
    let x = hex(a);
    let y = hex(b);
    assert(x.len() == 2 * a.len());
    assert(y.len() == 2 * b.len());
    assert forall|i: int| 0 <= i < a.len() implies a[i] == b[i] by {
        assert(x[2 * i] == hex_digit((a[i] / 16) as nat));
        assert(y[2 * i] == hex_digit((b[i] / 16) as nat));
        assert(x[2 * i + 1] == hex_digit((a[i] % 16) as nat));
        assert(y[2 * i + 1] == hex_digit((b[i] % 16) as nat));
        lemma_hex_digit_tells_apart((a[i] / 16) as nat, (b[i] / 16) as nat);
        lemma_hex_digit_tells_apart((a[i] % 16) as nat, (b[i] % 16) as nat);
    }
    assert(a =~= b);
}

}
