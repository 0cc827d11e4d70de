//! Content fingerprints: SHA-256 of a file's bytes, rendered as 64 uppercase
//! hexadecimal digits. The hash itself is computed by `ring` and the text by
//! `data_encoding`; what is verified here is the streaming around them.

use vstd::prelude::*;
use vstd::slice::slice_subrange;
use data_encoding::HEXUPPER;
use ring::digest::{Context, SHA256};

verus! {

/// `ring::digest::Context`, a digest in the making. Nothing inside it is
/// visible here; `absorbed` names what it has been fed.
#[verifier::external_type_specification]
#[verifier::external_body]
pub struct ExContext(ring::digest::Context);

/// The SHA-256 digest of a byte string, as `ring` computes it.
pub uninterp spec fn sha256(data: Seq<u8>) -> Seq<u8>;

/// The bytes that a digest context has been fed so far, in order.
pub uninterp spec fn absorbed(context: Context) -> Seq<u8>;

/// The longest input, in bytes, that a digest can be finished for: its length
/// in bits has to fit in 64 bits.
pub const MAX_INPUT_LEN: u64 = 0x1FFF_FFFF_FFFF_FFFF;

/// The number of bytes that are fed to the digest at a time.
pub const CHUNK_LEN: usize = 1024;

/// The length of a digest in bytes.
pub const DIGEST_LEN: usize = 32;

/// `ring::digest::Context::new` with the SHA-256 algorithm: the context has
/// been fed nothing yet.
#[verifier::external_body]
fn context_new() -> (context: Context)
    ensures
        absorbed(context) == Seq::<u8>::empty(),
{
    Context::new(&SHA256)
}

/// `ring::digest::Context::update`: the context has then been fed `data`
/// after what it had been fed before.
#[verifier::external_body]
fn context_update(context: &mut Context, data: &[u8])
    ensures
        absorbed(*final(context)) == absorbed(*old(context)) + data@,
{
    context.update(data)
}

/// `ring::digest::Context::finish`, with the digest copied out of the value it
/// returns: the 32 bytes of the SHA-256 digest of everything the context was
/// fed. `ring` panics where the input's length in bits overflows 64 bits.
#[verifier::external_body]
fn context_finish(context: Context) -> (digest: Vec<u8>)
    requires
        absorbed(context).len() <= MAX_INPUT_LEN,
    ensures
        digest@ == sha256(absorbed(context)),
        digest@.len() == DIGEST_LEN,
{
    context.finish().as_ref().to_vec()
}

/// The upper-case hexadecimal digit of a number below 16.
pub open spec fn hex_digit(nibble: int) -> char {
    seq!['0', '1', '2', '3', '4', '5', '6', '7', '8', '9', 'A', 'B', 'C', 'D', 'E', 'F'][nibble]
}

/// Two upper-case hexadecimal digits per byte, the high half first.
pub open spec fn hex_upper(bytes: Seq<u8>) -> Seq<char> {
    Seq::new(
        2 * bytes.len(),
        |i: int|
            if i % 2 == 0 {
                hex_digit(bytes[i / 2] as int / 16)
            } else {
                hex_digit(bytes[i / 2] as int % 16)
            },
    )
}

/// Different numbers below 16 have different digits.
pub proof fn hex_digits_differ(m: int, n: int)
    requires
        0 <= m < 16,
        0 <= n < 16,
        hex_digit(m) == hex_digit(n),
    ensures
        m == n,
{
    let digits = seq![
        '0',
        '1',
        '2',
        '3',
        '4',
        '5',
        '6',
        '7',
        '8',
        '9',
        'A',
        'B',
        'C',
        'D',
        'E',
        'F',
    ];
    assert(forall|i: int, j: int| 0 <= i < j < 16 ==> digits[i] != digits[j]);
}

/// Different byte strings have different texts: comparing fingerprints is
/// comparing digests.
pub proof fn hex_upper_is_injective(a: Seq<u8>, b: Seq<u8>)
    requires
        hex_upper(a) == hex_upper(b),
    ensures
        a == b,
{
    assert(hex_upper(a).len() == 2 * a.len());
    assert(hex_upper(b).len() == 2 * b.len());
    assert forall|i: int| 0 <= i < a.len() implies a[i] == b[i] by {
        assert(hex_upper(a)[2 * i] == hex_digit(a[i] as int / 16));
        assert(hex_upper(b)[2 * i] == hex_digit(b[i] as int / 16));
        assert(hex_upper(a)[2 * i + 1] == hex_digit(a[i] as int % 16));
        assert(hex_upper(b)[2 * i + 1] == hex_digit(b[i] as int % 16));
        hex_digits_differ(a[i] as int / 16, b[i] as int / 16);
        hex_digits_differ(a[i] as int % 16, b[i] as int % 16);
    }
    assert(a =~= b);
}

/// `data_encoding::HEXUPPER.encode`: base16 with the digits `0-9A-F`. The
/// crate may panic on an input longer than `usize::MAX / 512`.
#[verifier::external_body]
fn hex_upper_encode(bytes: &[u8]) -> (text: String)
    requires
        bytes@.len() <= usize::MAX / 512,
    ensures
        text@ == hex_upper(bytes@),
{
    HEXUPPER.encode(bytes)
}

/// A digest in the making: bytes go in chunk by chunk, the digest of their
/// concatenation comes out.
pub struct Fingerprinter {
    context: Context,
    count: u64,
}

impl View for Fingerprinter {
    type V = Seq<u8>;

    /// Everything fed so far.
    closed spec fn view(&self) -> Seq<u8> {
        absorbed(self.context)
    }
}

impl Fingerprinter {
    /// Holds of every fingerprinter at all times.
    #[verifier::type_invariant]
    pub closed spec fn well_formed(self) -> bool {
        self.count == absorbed(self.context).len() && self.count <= MAX_INPUT_LEN
    }

    /// A fingerprinter that has been fed nothing.
    pub fn new() -> (res: Self)
        ensures
            res@ == Seq::<u8>::empty(),
    {
        Fingerprinter { context: context_new(), count: 0 }
    }

    /// Feeds `chunk`. Returns `None` where the input would become longer than
    /// `MAX_INPUT_LEN` bytes.
    pub fn update(self, chunk: &[u8]) -> (res: Option<Self>)
        ensures
            res is Some <==> self@.len() + chunk@.len() <= MAX_INPUT_LEN,
            res matches Some(next) ==> next@ == self@ + chunk@,
    {
        proof {
            use_type_invariant(&self);
        }
        if chunk.len() as u64 > MAX_INPUT_LEN - self.count {
            return None;
        }
        let count = self.count + chunk.len() as u64;
        let mut context = self.context;
        context_update(&mut context, chunk);
        Some(Fingerprinter { context, count })
    }

    /// The digest of everything fed: 32 bytes.
    pub fn finish(self) -> (digest: Vec<u8>)
        ensures
            digest@ == sha256(self@),
            digest@.len() == DIGEST_LEN,
    {
        proof {
            use_type_invariant(&self);
        }
        context_finish(self.context)
    }
}

/// The SHA-256 digest of `data`, computed in chunks of `CHUNK_LEN` bytes.
pub fn sha256_digest(data: &[u8]) -> (digest: Vec<u8>)
    requires
        data@.len() <= MAX_INPUT_LEN,
    ensures
        digest@ == sha256(data@),
        digest@.len() == DIGEST_LEN,
{
    let mut context = context_new();
    let mut offset: usize = 0;
    assert(data@.take(0) =~= Seq::<u8>::empty());
    while offset < data.len()
        invariant
            offset <= data.len(),
            absorbed(context) == data@.take(offset as int),
        decreases data.len() - offset,
    {
        let end = if data.len() - offset > CHUNK_LEN {
            offset + CHUNK_LEN
        } else {
            data.len()
        };
        context_update(&mut context, slice_subrange(data, offset, end));
        assert(data@.take(offset as int) + data@.subrange(offset as int, end as int) =~= data@.take(
            end as int,
        ));
        offset = end;
    }
    assert(data@.take(offset as int) =~= data@);
    context_finish(context)
}

/// The fingerprint of a digest: its bytes as upper-case hexadecimal digits.
/// `None` where `digest` is not `DIGEST_LEN` bytes long.
pub fn digest_text(digest: &[u8]) -> (text: Option<String>)
    ensures
        digest@.len() == DIGEST_LEN ==> text.deep_view() == Some(hex_upper(digest@)),
        digest@.len() != DIGEST_LEN ==> text is None,
{
    if digest.len() == DIGEST_LEN {
        Some(hex_upper_encode(digest))
    } else {
        None
    }
}

/// The fingerprint of `data`: 64 upper-case hexadecimal digits.
pub fn fingerprint(data: &[u8]) -> (text: String)
    requires
        data@.len() <= MAX_INPUT_LEN,
    ensures
        text@ == hex_upper(sha256(data@)),
        text@.len() == 2 * DIGEST_LEN,
{
    let digest = sha256_digest(data);
    hex_upper_encode(digest.as_slice())
}

} // verus!
