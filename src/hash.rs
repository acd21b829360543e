use vstd::prelude::*;

verus! {

/// The BLAKE3 digest of a byte sequence, as computed by the `blake3` crate.
pub uninterp spec fn blake3_of(data: Seq<u8>) -> Seq<u8>;

/// Relies on `blake3::hash`: the 32-byte digest of `data`, which depends on the bytes alone.
#[verifier::external_body]
fn blake3_digest(data: &[u8]) -> (r: [u8; 32])
    ensures
        r@ == blake3_of(data@),
{
    blake3::hash(data).into()
}

/// Relies on `String::push`: appends one character at the end.
pub assume_specification[ String::push ](s: &mut String, ch: char)
    ensures
        final(s)@ == old(s)@.push(ch),
;

/// The lower-case hexadecimal digit for a value below 16.
pub open spec fn hex_digit(n: u8) -> char {
    if n < 10 {
        (n + 48) as char
    } else {
        (n + 87) as char
    }
}

/// A character among `0`-`9` and `a`-`f`.
pub open spec fn is_hex_char(c: char) -> bool {
    ('0' <= c && c <= '9') || ('a' <= c && c <= 'f')
}

/// Two lower-case hexadecimal digits per byte, high nibble first.
pub open spec fn hex_text(bytes: Seq<u8>) -> Seq<char> {
    Seq::new(
        2 * bytes.len(),
        |i: int|
            if i % 2 == 0 {
                hex_digit(bytes[i / 2] / 16)
            } else {
                hex_digit(bytes[i / 2] % 16)
            },
    )
}

fn digit(n: u8) -> (c: char)
    requires
        n < 16,
    ensures
        c == hex_digit(n),
{
    if n < 10 {
        (n + 48) as char
    } else {
        (n + 87) as char
    }
}

/// Each value below 16 has its own digit, and that digit is a lower-case hexadecimal one.
pub proof fn lemma_hex_digit(a: u8, b: u8)
    requires
        a < 16,
        b < 16,
    ensures
        hex_digit(a) != '/',
        hex_digit(a) == hex_digit(b) ==> a == b,
{
}

/// Byte sequences of one length with the same hexadecimal text are equal.
pub proof fn lemma_hex_text_injective(a: Seq<u8>, b: Seq<u8>)
    requires
        a.len() == b.len(),
        hex_text(a) == hex_text(b),
    ensures
        a == b,
{
    assert forall|i: int| 0 <= i < a.len() implies a[i] == b[i] by {
        let (x, y) = (a[i], b[i]);
        assert((2 * i) / 2 == i && (2 * i) % 2 == 0);
        assert((2 * i + 1) / 2 == i && (2 * i + 1) % 2 == 1);
        assert(hex_text(a)[2 * i] == hex_digit(x / 16));
        assert(hex_text(b)[2 * i] == hex_digit(y / 16));
        assert(hex_text(a)[2 * i + 1] == hex_digit(x % 16));
        assert(hex_text(b)[2 * i + 1] == hex_digit(y % 16));
        lemma_hex_digit(x / 16, y / 16);
        lemma_hex_digit(x % 16, y % 16);
        assert(x / 16 == y / 16 && x % 16 == y % 16);
        assert(x == y) by (bit_vector)
            requires
                x / 16 == y / 16 && x % 16 == y % 16,
        ;
    }
    assert(a =~= b);
}

/// A fixed-width key derived from the source bytes of a module.
#[derive(Clone, Copy, Debug, PartialEq, Eq, Hash)]
pub struct WasmHash {
    bytes: [u8; 32],
}

impl WasmHash {
    pub closed spec fn view(&self) -> Seq<u8> {
        self.bytes@
    }

    /// A key always has 32 bytes.
    pub proof fn lemma_len(&self)
        ensures
            self.view().len() == 32,
    {
    }

    /// Wraps an already computed digest.
    pub fn new(bytes: [u8; 32]) -> (r: WasmHash)
        ensures
            r.view() == bytes@,
    {
        WasmHash { bytes }
    }

    /// The key of `wasm`: its BLAKE3 digest.
    pub fn generate(wasm: &[u8]) -> (r: WasmHash)
        ensures
            r.view() == blake3_of(wasm@),
    {
        WasmHash { bytes: blake3_digest(wasm) }
    }

    /// The digest bytes.
    pub fn into_array(self) -> (r: [u8; 32])
        ensures
            r@ == self.view(),
    {
        self.bytes
    }

    /// The canonical text of the key: 64 lower-case hexadecimal digits, which makes a file
    /// name on any file system.
    pub fn to_string(&self) -> (r: String)
        ensures
            r@ == hex_text(self.view()),
            r@.len() == 64,
            forall|i: int| 0 <= i < 64 ==> is_hex_char(#[trigger] r@[i]),
    {
        let mut s = String::new();
        let mut i: usize = 0;
        while i < 32
            invariant
                i <= 32,
                self.bytes@.len() == 32,
                s@ =~= hex_text(self.bytes@.take(i as int)),
            decreases 32 - i,
        {
            let b: u8 = self.bytes[i];
            s.push(digit(b / 16));
            s.push(digit(b % 16));
            i = i + 1;
            assert(s@ =~= hex_text(self.bytes@.take(i as int)));
        }
        assert(self.bytes@.take(32) =~= self.bytes@);
        assert forall|i: int| 0 <= i < 64 implies is_hex_char(#[trigger] s@[i]) by {
            lemma_hex_digit(self.bytes@[i / 2] / 16, 0);
            lemma_hex_digit(self.bytes@[i / 2] % 16, 0);
        }
        s
    }
}

} // verus!
