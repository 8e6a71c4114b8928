//! Recognition of layer archives by their leading magic bytes.

use vstd::prelude::*;
use crate::enums::MediaType;

verus! {

/// The media type could not be recognised from the buffer's magic bytes.
#[derive(Debug, Clone, Copy, PartialEq, Eq, Structural)]
pub struct DetectError;

impl DetectError {
    /// A human-readable description of the error.
    pub fn message(&self) -> (r: String)
        ensures
            r@ == "unknown or unsupported archive media type"@,
    {
        String::from_str("unknown or unsupported archive media type")
    }
}

/// The gzip magic.
pub open spec fn gzip_magic() -> Seq<u8> {
    seq![0x1Fu8, 0x8Bu8]
}

/// The zstd frame magic.
pub open spec fn zstd_magic() -> Seq<u8> {
    seq![0x28u8, 0xB5u8, 0x2Fu8, 0xFDu8]
}

/// The POSIX tar magic, found at offset 257 of the first header.
pub open spec fn ustar_magic() -> Seq<u8> {
    seq![0x75u8, 0x73u8, 0x74u8, 0x61u8, 0x72u8]
}

pub open spec fn starts_with_bytes(b: Seq<u8>, p: Seq<u8>) -> bool {
    b.len() >= p.len() && b.subrange(0, p.len() as int) == p
}

pub open spec fn has_ustar(b: Seq<u8>) -> bool {
    b.len() >= 262 && b.subrange(257, 262) == ustar_magic()
}

/// The media type that a buffer's magic bytes announce, if any: gzip first,
/// then zstd, then a bare tar.
pub open spec fn detected_media_type(b: Seq<u8>) -> Option<MediaType> {
    if starts_with_bytes(b, gzip_magic()) {
        Some(MediaType::OciImageLayerV1TarGzip)
    } else if starts_with_bytes(b, zstd_magic()) {
        Some(MediaType::OciImageLayerV1TarZstd)
    } else if has_ustar(b) {
        Some(MediaType::OciImageLayerV1Tar)
    } else {
        None
    }
}

/// Detects the layer media type of a buffer from its magic bytes.
pub fn detect_media_type(data: &[u8]) -> (r: Result<MediaType, DetectError>)
    ensures
        match detected_media_type(data@) {
            Some(m) => r == Ok::<MediaType, DetectError>(m),
            None => r is Err,
        },
{
    if data.len() >= 2 && data[0] == 0x1F && data[1] == 0x8B {
        assert(data@.subrange(0, 2) =~= gzip_magic());
        return Ok(MediaType::OciImageLayerV1TarGzip);
    }
    assert(!starts_with_bytes(data@, gzip_magic())) by {
        if data@.len() >= 2 {
            assert(data@.subrange(0, 2)[0] == data@[0]);
            assert(data@.subrange(0, 2)[1] == data@[1]);
        }
    }
    if data.len() >= 4 && data[0] == 0x28 && data[1] == 0xB5 && data[2] == 0x2F && data[3] == 0xFD {
        assert(data@.subrange(0, 4) =~= zstd_magic());
        return Ok(MediaType::OciImageLayerV1TarZstd);
    }
    assert(!starts_with_bytes(data@, zstd_magic())) by {
        if data@.len() >= 4 {
            let s = data@.subrange(0, 4);
            assert(s[0] == data@[0] && s[1] == data@[1] && s[2] == data@[2] && s[3] == data@[3]);
        }
    }
    if data.len() >= 262 && data[257] == 0x75 && data[258] == 0x73 && data[259] == 0x74
        && data[260] == 0x61 && data[261] == 0x72 {
        assert(data@.subrange(257, 262) =~= ustar_magic());
        return Ok(MediaType::OciImageLayerV1Tar);
    }
    assert(!has_ustar(data@)) by {
        if data@.len() >= 262 {
            let s = data@.subrange(257, 262);
            assert(s[0] == data@[257] && s[1] == data@[258] && s[2] == data@[259]
                && s[3] == data@[260] && s[4] == data@[261]);
        }
    }
    Err(DetectError)
}

/// Prepending a compression magic to any buffer makes it detected as that
/// compression; a buffer that carries none of the magics is rejected.
pub proof fn lemma_magic_prefix_detected(rest: Seq<u8>)
    ensures
        detected_media_type(gzip_magic() + rest) == Some(MediaType::OciImageLayerV1TarGzip),
        detected_media_type(zstd_magic() + rest) == Some(MediaType::OciImageLayerV1TarZstd),
        !starts_with_bytes(rest, gzip_magic()) && !starts_with_bytes(rest, zstd_magic())
            && !has_ustar(rest) ==> detected_media_type(rest) is None,
{
    assert((gzip_magic() + rest).subrange(0, 2) =~= gzip_magic());
    let z = zstd_magic() + rest;
    assert(z.subrange(0, 4) =~= zstd_magic());
    assert(z.subrange(0, 2)[0] == 0x28u8);
}

/// Placing the tar magic at offset 257 of a buffer that starts with neither
/// compression magic makes it detected as a bare tar.
pub proof fn lemma_ustar_detected(head: Seq<u8>, rest: Seq<u8>)
    requires
        head.len() == 257,
        !starts_with_bytes(head, gzip_magic()),
        !starts_with_bytes(head, zstd_magic()),
    ensures
        detected_media_type(head + ustar_magic() + rest) == Some(MediaType::OciImageLayerV1Tar),
{
    let b = head + ustar_magic() + rest;
    assert(b.subrange(0, 2) =~= head.subrange(0, 2));
    assert(b.subrange(0, 4) =~= head.subrange(0, 4));
    assert(b.subrange(257, 262) =~= ustar_magic());
}

} // verus!
