//! A stable digest over the orphan keys of a round.

use vstd::prelude::*;
use vstd::utf8::encode_utf8;
use crate::listing::ObjectListing;

verus! {

/// The SHA-256 digest of `data`.
pub uninterp spec fn sha256(data: Seq<u8>) -> Seq<u8>;

/// The most bytes that are digested: SHA-256 counts their bits in 64 bits.
pub const MAX_DIGEST_INPUT: u64 = 0x1fff_ffff_ffff_ffff;

/// `sha2::Digest::digest` of `sha2::Sha256`. Trusted: the result depends on the
/// bytes of `data` alone and is 32 bytes long. What the bytes are is left to
/// the name `sha256`.
#[verifier::external_body]
fn sha256_digest(data: &[u8]) -> (digest: Vec<u8>)
    requires
        data@.len() <= MAX_DIGEST_INPUT,
    ensures
        digest@ == sha256(data@),
        digest@.len() == 32,
{
    <sha2::Sha256 as sha2::Digest>::digest(data).to_vec()
}

/// The lower-case hexadecimal digit for a value below 16.
pub open spec fn hex_digit(value: int) -> char {
    "0123456789abcdef"@[value]
}

/// `bytes` in lower-case hexadecimal: two digits for each byte.
pub open spec fn hex_of(bytes: Seq<u8>) -> Seq<char> {
    Seq::new(
        2 * bytes.len(),
        |i: int|
            if i % 2 == 0 {
                hex_digit(bytes[i / 2] as int / 16)
            } else {
                hex_digit(bytes[i / 2] as int % 16)
            },
    )
}

/// What is digested: each key in UTF-8 and a line feed behind it.
pub open spec fn digest_input(orphans: Seq<ObjectListing>) -> Seq<u8>
    decreases orphans.len(),
{
    if orphans.len() == 0 {
        Seq::empty()
    } else {
        digest_input(orphans.drop_last()) + encode_utf8(orphans.last().key@) + seq![0x0au8]
    }
}

/// `bytes` in lower-case hexadecimal.
pub fn as_hex(bytes: &[u8]) -> (hex: String)
    ensures
        hex@ == hex_of(bytes@),
{
    let mut hex = String::new();
    let digits = "0123456789abcdef";
    proof {
        reveal_strlit("0123456789abcdef");
    }
    let n: usize = bytes.len();
    for i in 0..n
        invariant
            n == bytes@.len(),
            digits@ == "0123456789abcdef"@,
            digits@.len() == 16,
            hex@ == hex_of(bytes@.take(i as int)),
    {
        let byte: u8 = bytes[i];
        let high: usize = (byte / 16) as usize;
        let low: usize = (byte % 16) as usize;
        hex.append(digits.substring_char(high, high + 1));
        hex.append(digits.substring_char(low, low + 1));
        proof {
            let before = bytes@.take(i as int);
            let after = bytes@.take(i + 1);
            assert(forall|k: int| 0 <= k < 2 * i ==> #[trigger] hex_of(after)[k] == hex_of(before)[k]);
            assert(hex_of(after) =~= hex_of(before) + seq![
                hex_digit(byte as int / 16),
                hex_digit(byte as int % 16),
            ]);
            assert(hex@ =~= hex_of(after));
        }
    }
    assert(bytes@.take(n as int) =~= bytes@);
    hex
}

/// Stable digest over the sorted orphan keys, so an operator can compare a
/// dry run against an independently computed orphan set without depending on
/// every per-key log line (only a sample is logged).
pub fn orphan_digest(orphans: &[ObjectListing]) -> (digest: String)
    requires
        digest_input(orphans@).len() <= MAX_DIGEST_INPUT,
    ensures
        digest@ == hex_of(sha256(digest_input(orphans@))),
        digest@.len() == 64,
{
    let input = orphan_digest_input(orphans);
    let hash = sha256_digest(input.as_slice());
    as_hex(hash.as_slice())
}

/// The digest over the orphan keys; `None` when the keys hold more bytes than
/// can be digested.
pub fn checked_orphan_digest(orphans: &[ObjectListing]) -> (digest: Option<String>)
    ensures
        digest is Some <==> digest_input(orphans@).len() <= MAX_DIGEST_INPUT,
        digest matches Some(hex) ==> hex@ == hex_of(sha256(digest_input(orphans@))),
{
    let input = orphan_digest_input(orphans);
    if input.len() as u64 <= MAX_DIGEST_INPUT {
        Some(orphan_digest(orphans))
    } else {
        None
    }
}

/// The bytes that the digest is taken over.
pub fn orphan_digest_input(orphans: &[ObjectListing]) -> (input: Vec<u8>)
    ensures
        input@ == digest_input(orphans@),
{
    let mut input: Vec<u8> = Vec::new();
    let n: usize = orphans.len();
    for i in 0..n
        invariant
            n == orphans@.len(),
            input@ == digest_input(orphans@.take(i as int)),
    {
        let ghost before = input@;
        let key = orphans[i].key.as_str().as_bytes();
        input.extend_from_slice(key);
        assert(input@ =~= before + key@);
        input.push(0x0a);
        proof {
            let after = orphans@.take(i + 1);
            assert(after.drop_last() =~= orphans@.take(i as int));
            assert(input@ =~= digest_input(after));
        }
    }
    assert(orphans@.take(n as int) =~= orphans@);
    input
}

/// The keys of `objects`, in order.
pub open spec fn keys_of(objects: Seq<ObjectListing>) -> Seq<Seq<char>> {
    objects.map_values(|object: ObjectListing| object.key@)
}

/// The digest depends only on the keys: sizes and modification times do not
/// matter to it.
pub proof fn law_digest_depends_only_on_keys(a: Seq<ObjectListing>, b: Seq<ObjectListing>)
    requires
        keys_of(a) == keys_of(b),
    ensures
        digest_input(a) == digest_input(b),
    decreases a.len(),
{
    assert(keys_of(a).len() == a.len() && keys_of(b).len() == b.len());
    if a.len() == 0 {
        assert(digest_input(a) =~= digest_input(b));
    } else {
        assert(keys_of(a.drop_last()) =~= keys_of(a).drop_last());
        assert(keys_of(b.drop_last()) =~= keys_of(b).drop_last());
        assert(keys_of(a).last() == a.last().key@);
        assert(keys_of(b).last() == b.last().key@);
        law_digest_depends_only_on_keys(a.drop_last(), b.drop_last());
    }
}

/// No byte of any key is a line feed.
pub open spec fn keys_are_lines(objects: Seq<ObjectListing>) -> bool {
    forall|i: int|
        0 <= i < objects.len() ==> !encode_utf8((#[trigger] objects[i]).key@).contains(0x0au8)
}

/// What is digested is empty or ends with a line feed.
proof fn lemma_input_ends_with_line_feed(objects: Seq<ObjectListing>)
    ensures
        objects.len() == 0 <==> digest_input(objects).len() == 0,
        objects.len() > 0 ==> digest_input(objects).last() == 0x0au8,
{
}

/// The digest is taken over different bytes for different keys, as long as no key
/// holds a line feed.
pub proof fn law_digest_input_tells_keys_apart(a: Seq<ObjectListing>, b: Seq<ObjectListing>)
    requires
        keys_are_lines(a),
        keys_are_lines(b),
        digest_input(a) == digest_input(b),
    ensures
        keys_of(a) == keys_of(b),
    decreases a.len(),
{
    lemma_input_ends_with_line_feed(a);
    lemma_input_ends_with_line_feed(b);
    if a.len() == 0 {
        assert(keys_of(a) =~= keys_of(b));
    } else {
        let input = digest_input(a);
        let n = input.len() as int;
        let x = encode_utf8(a.last().key@);
        let y = encode_utf8(b.last().key@);
        let p = digest_input(a.drop_last());
        let q = digest_input(b.drop_last());
        lemma_input_ends_with_line_feed(a.drop_last());
        lemma_input_ends_with_line_feed(b.drop_last());
        assert(input == p + x + seq![0x0au8]);
        assert(input == q + y + seq![0x0au8]);
        assert(!x.contains(0x0au8)) by {
            assert(a[a.len() - 1] == a.last());
        }
        assert(!y.contains(0x0au8)) by {
            assert(b[b.len() - 1] == b.last());
        }
        // The last line starts behind the line feed before it, in both readings.
        if x.len() < y.len() {
            assert(p.len() > 0);
            assert(input[p.len() - 1] == p.last());
            assert(input[p.len() - 1] == y[p.len() - 1 - q.len()]);
        } else if y.len() < x.len() {
            assert(q.len() > 0);
            assert(input[q.len() - 1] == q.last());
            assert(input[q.len() - 1] == x[q.len() - 1 - p.len()]);
        }
        assert(p.len() == q.len());
        assert(p =~= input.take(p.len() as int));
        assert(q =~= input.take(q.len() as int));
        assert(x =~= input.subrange(p.len() as int, n - 1));
        assert(y =~= input.subrange(q.len() as int, n - 1));
        vstd::utf8::encode_utf8_decode_utf8(a.last().key@);
        vstd::utf8::encode_utf8_decode_utf8(b.last().key@);
        assert(keys_are_lines(a.drop_last())) by {
            assert(forall|i: int| 0 <= i < a.len() - 1 ==> a.drop_last()[i] == a[i]);
        }
        assert(keys_are_lines(b.drop_last())) by {
            assert(forall|i: int| 0 <= i < b.len() - 1 ==> b.drop_last()[i] == b[i]);
        }
        law_digest_input_tells_keys_apart(a.drop_last(), b.drop_last());
        assert(keys_of(a) =~= keys_of(a.drop_last()).push(a.last().key@));
        assert(keys_of(b) =~= keys_of(b.drop_last()).push(b.last().key@));
    }
}

/// The digest input of a list is that of its parts, one behind the other.
pub proof fn law_digest_input_joins(a: Seq<ObjectListing>, b: Seq<ObjectListing>)
    ensures
        digest_input(a + b) == digest_input(a) + digest_input(b),
    decreases b.len(),
{
    if b.len() == 0 {
        assert(a + b =~= a);
        assert(digest_input(a) + digest_input(b) =~= digest_input(a));
    } else {
        assert((a + b).drop_last() =~= a + b.drop_last());
        law_digest_input_joins(a, b.drop_last());
        assert(digest_input(a + b) =~= digest_input(a) + digest_input(b));
    }
}

/// The digest input of one object is its key in UTF-8 and a line feed; of none it
/// is empty.
pub proof fn law_digest_input_of_one(object: ObjectListing)
    ensures
        digest_input(seq![object]) == encode_utf8(object.key@).push(10),
        digest_input(Seq::empty()) == Seq::<u8>::empty(),
{
    assert(seq![object].drop_last() =~= Seq::<ObjectListing>::empty());
    reveal_with_fuel(digest_input, 2);
    assert(digest_input(seq![object]) =~= encode_utf8(object.key@).push(10));
}

/// Two digits stand for each byte, the greater half first; each is one of 0 to 9
/// or a to f. So the bytes can be read back.
pub proof fn law_hex_can_be_read_back(bytes: Seq<u8>, i: int)
    requires
        0 <= i < bytes.len(),
    ensures
        hex_of(bytes).len() == 2 * bytes.len(),
        ({
            let high = hex_of(bytes)[2 * i] as int;
            let low = hex_of(bytes)[2 * i + 1] as int;
            &&& 48 <= high <= 57 || 97 <= high <= 102
            &&& 48 <= low <= 57 || 97 <= low <= 102
            &&& bytes[i] == 16 * (if high <= 57 {
                high - 48
            } else {
                high - 87
            }) + (if low <= 57 {
                low - 48
            } else {
                low - 87
            })
        }),
{
    reveal_strlit("0123456789abcdef");
    let high = bytes[i] as int / 16;
    let low = bytes[i] as int % 16;
    assert((2 * i) % 2 == 0 && (2 * i) / 2 == i);
    assert((2 * i + 1) % 2 == 1 && (2 * i + 1) / 2 == i);
    assert(hex_of(bytes)[2 * i] == hex_digit(high));
    assert(hex_of(bytes)[2 * i + 1] == hex_digit(low));
}

/// What is digested may be as long as its bits can be counted in 64 bits.
pub proof fn law_digest_limit()
    ensures
        8 * (MAX_DIGEST_INPUT + 1) == u64::MAX + 1,
{
}

/// The digest is there exactly if the bits of what is digested can be counted in 64
/// bits, and it is then the one that needs no check.
pub proof fn law_checked_digest(
    orphans: &[ObjectListing],
    checked: Option<String>,
    unchecked: String,
)
    requires
        call_ensures(checked_orphan_digest, (orphans,), checked),
        call_ensures(orphan_digest, (orphans,), unchecked),
    ensures
        checked is None <==> 8 * digest_input(orphans@).len() > u64::MAX,
        checked matches Some(digest) ==> digest@ == unchecked@,
{
}

} // verus!
