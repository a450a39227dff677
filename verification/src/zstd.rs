//! Compression of stored content.

use vstd::prelude::*;

verus! {

/// What Zstandard data decompresses to, where it is a whole frame.
pub uninterp spec fn zstd_decoded(bytes: Seq<u8>) -> Option<Seq<u8>>;

/// What content is compressed to, with the default level, where that is possible.
pub uninterp spec fn zstd_encoded(content: Seq<u8>) -> Option<Seq<u8>>;

/// `async_compression::tokio::write::ZstdEncoder` with the default level, run over a
/// buffer: what it writes, and whether it fails, depends on the content alone, and what
/// it writes decompresses to that content.
#[verifier::external_body]
pub(crate) fn zstd_encode(content: &Vec<u8>) -> (r: Option<Vec<u8>>)
    ensures
        match r {
            Some(bytes) => zstd_encoded(content@) == Some(bytes@),
            None => zstd_encoded(content@) is None,
        },
        r matches Some(bytes) ==> zstd_decoded(bytes@) == Some(content@),
{
    let level = async_compression::Level::Default;
    let mut e = async_compression::tokio::write::ZstdEncoder::with_quality(Vec::new(), level);
    let written = tokio::io::AsyncWriteExt::write_all(&mut e, content);
    futures::FutureExt::now_or_never(written)?.ok()?;
    let closed = tokio::io::AsyncWriteExt::shutdown(&mut e);
    futures::FutureExt::now_or_never(closed)?.ok()?;
    Some(e.into_inner())
}

/// `async_compression::tokio::bufread::ZstdDecoder`, run over a buffer to its end: what
/// comes out depends on the bytes alone, and nothing comes out of bytes that are no
/// whole frame.
#[verifier::external_body]
pub(crate) fn zstd_decode(bytes: &Vec<u8>) -> (r: Option<Vec<u8>>)
    ensures
        match r {
            Some(content) => zstd_decoded(bytes@) == Some(content@),
            None => zstd_decoded(bytes@) is None,
        },
{
    let mut d = async_compression::tokio::bufread::ZstdDecoder::new(bytes.as_slice());
    let mut content = Vec::new();
    let done = tokio::io::AsyncReadExt::read_to_end(&mut d, &mut content);
    futures::FutureExt::now_or_never(done)?.ok()?;
    Some(content)
}

} // verus!
