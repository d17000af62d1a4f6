use vstd::prelude::*;

verus! {

/// The Keccak-256 digest of `data`, as computed by `alloy_primitives::keccak256`.
pub uninterp spec fn keccak_of(data: Seq<u8>) -> Seq<u8>;

/// The SHA-256 digest of `data`, as computed by `sha2::Sha256`.
pub uninterp spec fn sha256_of(data: Seq<u8>) -> Seq<u8>;

/// The lower-case hexadecimal digit for a value below 16.
pub open spec fn hex_digit(n: u8) -> char {
    if n < 10 {
        (48 + n) as char
    } else {
        (87 + n) as char
    }
}

/// Two lower-case hexadecimal digits for each byte, high nibble first.
pub open spec fn hex_of(b: Seq<u8>) -> Seq<char>
    decreases b.len(),
{
    if b.len() == 0 {
        Seq::empty()
    } else {
        seq![hex_digit(b[0] / 16), hex_digit(b[0] % 16)] + hex_of(b.drop_first())
    }
}

/// Relies on `alloy_primitives::keccak256`: a 32-byte digest that depends on
/// the input bytes alone.
#[verifier::external_body]
pub(crate) fn keccak256(data: &[u8]) -> (r: [u8; 32])
    ensures
        r@ == keccak_of(data@),
        r@.len() == 32,
{
    alloy_primitives::keccak256(data).0
}

/// Relies on `sha2::Sha256::digest`: a 32-byte digest that depends on the
/// input bytes alone.
#[verifier::external_body]
pub(crate) fn sha256(data: &[u8]) -> (r: [u8; 32])
    ensures
        r@ == sha256_of(data@),
        r@.len() == 32,
{
    <sha2::Sha256 as sha2::Digest>::digest(data).into()
}

/// Relies on `hex::encode`: lower-case digits, two per byte, high nibble first.
#[verifier::external_body]
pub(crate) fn hex_encode(data: &[u8]) -> (r: String)
    ensures
        r@ == hex_of(data@),
{
    hex::encode(data)
}

/// The identifier of a guest program: the lower-case hex SHA-256 of its ELF bytes.
pub fn elf_id(elf: &[u8]) -> (r: String)
    ensures
        r@ == hex_of(sha256_of(elf@)),
        r@.len() == 64,
{
    let d = sha256(elf);
    proof { lemma_hex_len(d@); }
    hex_encode(d.as_slice())
}

/// A write-once cell for the guest's identifier, shared by every proof of a
/// process.
#[derive(Debug)]
pub struct ElfIdCell {
    id: Option<String>,
}

impl ElfIdCell {
    /// The identifier held, if any.
    pub closed spec fn value(&self) -> Option<Seq<char>> {
        match self.id {
            Some(s) => Some(s@),
            None => None,
        }
    }

    /// An empty cell.
    pub fn new() -> (r: ElfIdCell)
        ensures
            r.value() is None,
    {
        ElfIdCell { id: None }
    }

    /// The hint handed to the prover along with a proof request. The first
    /// request computes the identifier of `elf`, keeps it and hands over no
    /// hint; later requests hand over the kept identifier.
    pub fn hint(&mut self, elf: &[u8]) -> (r: Option<String>)
        ensures
            match old(self).value() {
                None => r is None && final(self).value() == Some(hex_of(sha256_of(elf@))),
                Some(v) => r matches Some(h) && h@ == v && final(self).value() == Some(v),
            },
    {
        match &self.id {
            Some(v) => Some(v.clone()),
            None => {
                self.id = Some(elf_id(elf));
                None
            },
        }
    }
}

/// Hex encoding doubles the length.
pub proof fn lemma_hex_len(b: Seq<u8>)
    ensures
        hex_of(b).len() == 2 * b.len(),
    decreases b.len(),
{
    if b.len() > 0 {
        lemma_hex_len(b.drop_first());
    }
}

} // verus!
