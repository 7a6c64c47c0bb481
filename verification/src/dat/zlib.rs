//! The container: a raw deflate stream, with no header and no checksum
//! behind it.
use std::io::Read;
use vstd::prelude::*;

verus! {

/// The error of the standard library's readers, carried through and never
/// looked into.
#[verifier::external_type_specification]
#[verifier::external_body]
pub struct ExIoError(std::io::Error);

/// The bytes that a raw deflate stream inflates to, or nothing where the
/// stream is cut short or is no deflate stream.
pub uninterp spec fn inflated(compressed: Seq<u8>) -> Option<Seq<u8>>;

/// Inflates a whole container with `flate2::read::DeflateDecoder`, read to
/// its end by `read_to_end`. Believed of the two: what comes out depends on
/// the compressed bytes alone, so that it has a name, `inflated`; and an
/// error is returned exactly where that name has no bytes to give.
#[verifier::external_body]
pub(crate) fn decompress(compressed: &[u8]) -> (result: Result<Vec<u8>, std::io::Error>)
    ensures
        result matches Ok(data) ==> inflated(compressed@) == Some(data@),
        result is Err ==> inflated(compressed@) is None,
{
    let mut decoded = flate2::read::DeflateDecoder::new(compressed);
    let mut data = Vec::new();
    decoded.read_to_end(&mut data)?;
    Ok(data)
}

} // verus!
