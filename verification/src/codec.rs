//! The payload: an archive of the staging tree, compressed with zstd.

use vstd::prelude::*;
use crate::error::RexError;
use vstd::slice::slice_subrange;
use vstd::utf8::decode_utf8;
use crate::format::{bundle_image, valid_name};
use crate::trailer::{
    find_payload_info, found_trailer_fills_the_image, located, written_payload_is_read_back,
    Located, PayloadInfo, PayloadInfoView,
};

verus! {

/// Lowest compression level that a bundle may be made with.
pub const MIN_LEVEL: i32 = 1;

/// Highest compression level that a bundle may be made with.
pub const MAX_LEVEL: i32 = 22;

/// The level used where none is asked for.
pub const DEFAULT_LEVEL: i32 = 5;

/// A payload is compressed with long-distance matching: the libraries of a
/// bundle repeat each other far apart.
pub const LONG_DISTANCE: bool = true;

/// Whether `level` is a compression level that a bundle may be made with.
pub open spec fn spec_level_is_valid(level: i32) -> bool {
    MIN_LEVEL <= level <= MAX_LEVEL
}

/// Whether `level` is a compression level that a bundle may be made with.
pub fn level_is_valid(level: i32) -> (b: bool)
    ensures
        b == spec_level_is_valid(level),
{
    MIN_LEVEL <= level && level <= MAX_LEVEL
}

/// The zstd frame that the streaming encoder of the `zstd` crate writes for
/// `data` at `level`, with long-distance matching switched on or off, or
/// `None` where the encoder reports an error.
pub uninterp spec fn zstd_frame(data: Seq<u8>, level: i32, long_distance: bool) -> Option<Seq<u8>>;

/// The content that `zstd::stream::decode_all` reads out of `frame`, or `None`
/// where it reports an error.
pub uninterp spec fn zstd_content(frame: Seq<u8>) -> Option<Seq<u8>>;

/// The bytes held by an optional vector.
pub open spec fn bytes_of(v: Option<Vec<u8>>) -> Option<Seq<u8>> {
    match v {
        Some(b) => Some(b@),
        None => None,
    }
}

/// `zstd::stream::write::Encoder` over a vector: `new` at `level`,
/// `long_distance_matching`, all of `data` written, `finish`. Nothing is
/// claimed of the frame but that it is the one this encoder writes for this
/// input; an error of any of the four steps gives `None`.
#[verifier::external_body]
fn zstd_encode(data: &[u8], level: i32, long_distance: bool) -> (r: Option<Vec<u8>>)
    ensures
        bytes_of(r) == zstd_frame(data@, level, long_distance),
{
    let mut encoder = zstd::stream::write::Encoder::new(Vec::new(), level).ok()?;
    encoder.long_distance_matching(long_distance).ok()?;
    std::io::Write::write_all(&mut encoder, data).ok()?;
    encoder.finish().ok()
}

/// `zstd::stream::decode_all` on a slice. The content is what this decoder
/// reads out of these bytes, and an error gives `None`. Zstandard is
/// documented as a lossless format: where the bytes are a frame that the
/// encoder wrote for some data, that data is what comes back.
#[verifier::external_body]
fn zstd_decode(frame: &[u8]) -> (r: Option<Vec<u8>>)
    ensures
        bytes_of(r) == zstd_content(frame@),
        forall|data: Seq<u8>, level: i32, long_distance: bool|
            #[trigger] zstd_frame(data, level, long_distance) == Some(frame@) ==> bytes_of(r)
                == Some(data),
{
    zstd::stream::decode_all(frame).ok()
}

/// What the packager returns for a level and for what the encoder gave: the
/// frame, `InvalidLevel` for a level outside 1 to 22, `IoError` where the
/// encoder failed.
pub open spec fn spec_sealed(level: i32, encoded: Option<Seq<u8>>) -> Result<Seq<u8>, RexError> {
    if !spec_level_is_valid(level) {
        Err(RexError::InvalidLevel)
    } else {
        match encoded {
            Some(frame) => Ok(frame),
            None => Err(RexError::IoError),
        }
    }
}

/// The bytes held by a result.
pub open spec fn result_bytes(r: Result<Vec<u8>, RexError>) -> Result<Seq<u8>, RexError> {
    match r {
        Ok(b) => Ok(b@),
        Err(e) => Err(e),
    }
}

/// Turns what the encoder gave into the packager's answer.
pub fn sealed(level: i32, encoded: Option<Vec<u8>>) -> (r: Result<Vec<u8>, RexError>)
    ensures
        result_bytes(r) == spec_sealed(level, bytes_of(encoded)),
{
    if !level_is_valid(level) {
        return Err(RexError::InvalidLevel);
    }
    match encoded {
        Some(frame) => Ok(frame),
        None => Err(RexError::IoError),
    }
}

/// Compresses the archive of a staging tree into the payload of a bundle.
pub fn create_payload(archive: &[u8], level: i32) -> (r: Result<Vec<u8>, RexError>)
    ensures
        result_bytes(r) == spec_sealed(level, zstd_frame(archive@, level, LONG_DISTANCE)),
{
    if !level_is_valid(level) {
        return Err(RexError::InvalidLevel);
    }
    sealed(level, zstd_encode(archive, level, LONG_DISTANCE))
}

/// What the extractor returns for a payload of `len` bytes, given what the
/// trailer records and what the decoder gave: `CorruptTrailer` where the
/// length is not the recorded one, `CorruptPayload` where the decoder failed,
/// and the archive otherwise.
pub open spec fn spec_opened(recorded: u64, len: nat, decoded: Option<Seq<u8>>) -> Result<
    Seq<u8>,
    RexError,
> {
    if len != recorded {
        Err(RexError::CorruptTrailer)
    } else {
        match decoded {
            Some(archive) => Ok(archive),
            None => Err(RexError::CorruptPayload),
        }
    }
}

/// Turns what the decoder gave into the extractor's answer.
pub fn opened(recorded: u64, len: usize, decoded: Option<Vec<u8>>) -> (r: Result<
    Vec<u8>,
    RexError,
>)
    ensures
        result_bytes(r) == spec_opened(recorded, len as nat, bytes_of(decoded)),
{
    if len as u64 != recorded {
        return Err(RexError::CorruptTrailer);
    }
    match decoded {
        Some(archive) => Ok(archive),
        None => Err(RexError::CorruptPayload),
    }
}

/// Decompresses the payload of a bundle into the archive of its staging
/// tree. `payload` is what the image holds from the payload's start offset up
/// to the trailer. A payload of the recorded length that the packager made
/// of an archive gives that archive back.
pub fn extract_payload(info: &PayloadInfo, payload: &[u8]) -> (r: Result<Vec<u8>, RexError>)
    ensures
        result_bytes(r) == spec_opened(
            info.metadata.payload_size,
            payload@.len(),
            zstd_content(payload@),
        ),
        forall|archive: Seq<u8>, level: i32|
            payload@.len() == info.metadata.payload_size && #[trigger] spec_sealed(
                level,
                zstd_frame(archive, level, LONG_DISTANCE),
            ) == Ok::<Seq<u8>, RexError>(payload@) ==> result_bytes(r) == Ok::<Seq<u8>, RexError>(
                archive,
            ),
{
    if payload.len() as u64 != info.metadata.payload_size {
        return Err(RexError::CorruptTrailer);
    }
    opened(info.metadata.payload_size, payload.len(), zstd_decode(payload))
}

/// Whether `r` is what reading a bundle owes where `l` stands at the end of
/// `image`: nothing where there is no trailer, `CorruptTrailer` where it is
/// corrupt, and otherwise the trailer's fields with the archive that the
/// payload decodes to, or `CorruptPayload` where it does not decode.
pub open spec fn reads_back(
    image: Seq<u8>,
    l: Located,
    r: Result<Option<(PayloadInfo, Vec<u8>)>, RexError>,
) -> bool {
    match l {
        Located::Absent => r matches Ok(None),
        Located::Corrupt => r matches Err(RexError::CorruptTrailer),
        Located::Found { metadata, payload_start, name } => {
            match zstd_content(
                image.subrange(payload_start as int, payload_start + metadata.payload_size),
            ) {
                Some(archive) => r matches Ok(Some(found)) && found.1@ == archive && found.0@ == (
                PayloadInfoView {
                    metadata,
                    payload_start_offset: payload_start,
                    target_binary_name: decode_utf8(name),
                }),
                None => r matches Err(RexError::CorruptPayload),
            }
        },
    }
}

/// Reads a whole bundle that is held in memory: finds the trailer, cuts the
/// payload out and decompresses it. An image without a trailer gives nothing.
///
/// What was bundled comes back: where the image is a bundle assembled from
/// any host image, a valid name and the payload that the packager made of an
/// archive, that archive is what is read, whatever bytes it holds.
pub fn open_bundle(image: &[u8]) -> (r: Result<Option<(PayloadInfo, Vec<u8>)>, RexError>)
    ensures
        reads_back(image@, located(image@, image@.len() as u64), r),
        forall|host: Seq<u8>, payload: Seq<u8>, name: Seq<u8>, archive: Seq<u8>, level: i32|
            valid_name(name) && #[trigger] bundle_image(host, payload, name) == image@
                && #[trigger] spec_sealed(level, zstd_frame(archive, level, LONG_DISTANCE)) == Ok::<
                Seq<u8>,
                RexError,
            >(payload) ==> (r matches Ok(Some(found)) && found.1@ == archive
                && found.0@.target_binary_name == decode_utf8(name)),
{
    let total: usize = image.len();
    let ghost l = located(image@, total as u64);
    let found: Option<PayloadInfo> = match find_payload_info(image, total as u64) {
        Ok(found) => found,
        Err(e) => {
            proof {
                no_bundle_without_trailer(image@);
            }
            return Err(e);
        },
    };
    let info: PayloadInfo = match found {
        Some(info) => info,
        None => {
            proof {
                no_bundle_without_trailer(image@);
            }
            return Ok(None);
        },
    };
    proof {
        found_trailer_fills_the_image(image@, total as u64);
    }
    let start: usize = info.payload_start_offset as usize;
    let end: usize = start + info.metadata.payload_size as usize;
    let payload: &[u8] = slice_subrange(image, start, end);
    let opened: Result<Vec<u8>, RexError> = extract_payload(&info, payload);
    proof {
        assert forall|host: Seq<u8>, written: Seq<u8>, name: Seq<u8>, archive: Seq<u8>, level: i32|
            valid_name(name) && #[trigger] bundle_image(host, written, name) == image@
                && #[trigger] spec_sealed(level, zstd_frame(archive, level, LONG_DISTANCE)) == Ok::<
                Seq<u8>,
                RexError,
            >(written) implies result_bytes(opened) == Ok::<Seq<u8>, RexError>(archive)
            && info@.target_binary_name == decode_utf8(name) by {
            written_payload_is_read_back(host, written, name);
            assert(payload@ == written);
        }
    }
    match opened {
        Ok(archive) => Ok(Some((info, archive))),
        Err(e) => Err(e),
    }
}

proof fn no_bundle_without_trailer(image: Seq<u8>)
    requires
        image.len() <= u64::MAX,
        !(located(image, image.len() as u64) is Found),
    ensures
        forall|host: Seq<u8>, payload: Seq<u8>, name: Seq<u8>|
            valid_name(name) ==> #[trigger] bundle_image(host, payload, name) != image,
{
    assert forall|host: Seq<u8>, payload: Seq<u8>, name: Seq<u8>| valid_name(name) implies #[trigger] bundle_image(
        host,
        payload,
        name,
    ) != image by {
        if bundle_image(host, payload, name) == image {
            written_payload_is_read_back(host, payload, name);
        }
    }
}

} // verus!
