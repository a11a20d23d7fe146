//! Finding and reading the trailer at the end of an image.

use vstd::prelude::*;
use vstd::slice::{slice_subrange, slice_to_vec};
use vstd::utf8::{decode_utf8, valid_utf8};
use crate::error::RexError;
use crate::format::{
    bundle_image, has_no_separator, magic_bytes, magic_marker, metadata_round_trip, trailer,
    valid_name, BundleMetadata, MAGIC_LEN, MAX_NAME_LEN, METADATA_LEN,
};

verus! {

/// The marker is looked for in this many bytes at the end of the image: a
/// marker, a metadata record and the longest name.
pub const WINDOW_LEN: usize = 278;

/// The locator never reads further back than this from the end of the image:
/// the marker may stand anywhere in the window, and a record and the longest
/// name may precede it.
pub const TAIL_LEN: usize = 546;

/// What the trailer of a bundle says, once parsed.
#[derive(Debug)]
pub struct PayloadInfo {
    /// The metadata record as it was read.
    pub metadata: BundleMetadata,
    /// Offset in the image at which the compressed stream starts.
    pub payload_start_offset: u64,
    /// Basename of the bundled target.
    pub target_binary_name: String,
}

/// The mathematical content of a `PayloadInfo`.
pub struct PayloadInfoView {
    pub metadata: BundleMetadata,
    pub payload_start_offset: u64,
    pub target_binary_name: Seq<char>,
}

impl View for PayloadInfo {
    type V = PayloadInfoView;

    open spec fn view(&self) -> PayloadInfoView {
        PayloadInfoView {
            metadata: self.metadata,
            payload_start_offset: self.payload_start_offset,
            target_binary_name: self.target_binary_name@,
        }
    }
}

impl Clone for PayloadInfo {
    fn clone(&self) -> (copy: Self)
        ensures
            copy@ == self@,
    {
        PayloadInfo {
            metadata: self.metadata,
            payload_start_offset: self.payload_start_offset,
            target_binary_name: self.target_binary_name.clone(),
        }
    }
}

/// Whether the ten bytes from position `i` on are the marker.
pub open spec fn marker_at(bytes: Seq<u8>, i: int) -> bool {
    &&& 0 <= i
    &&& i + MAGIC_LEN <= bytes.len()
    &&& bytes.subrange(i, i + MAGIC_LEN) == magic_marker()
}

/// Where the search window begins in the bytes that were read.
pub open spec fn window_start(tail: Seq<u8>) -> int {
    if tail.len() > WINDOW_LEN {
        tail.len() - WINDOW_LEN
    } else {
        0
    }
}

/// Whether a marker begins somewhere in the search window.
pub open spec fn has_marker(tail: Seq<u8>) -> bool {
    exists|i: int| window_start(tail) <= i && marker_at(tail, i)
}

/// Whether `i` is in the search window, a marker begins there, and none
/// begins further right.
pub open spec fn is_last_marker(tail: Seq<u8>, i: int) -> bool {
    &&& window_start(tail) <= i
    &&& marker_at(tail, i)
    &&& forall|j: int| i < j ==> !marker_at(tail, j)
}

/// The position of the rightmost marker in the search window.
pub open spec fn last_marker(tail: Seq<u8>) -> int
    recommends
        has_marker(tail),
{
    choose|i: int| is_last_marker(tail, i)
}

/// The three things that the end of an image can be.
pub enum Located {
    /// No marker in the search window: the image is no bundle.
    Absent,
    /// A marker, but what precedes it cannot be a trailer.
    Corrupt,
    /// A well-formed trailer.
    Found { metadata: BundleMetadata, payload_start: u64, name: Seq<u8> },
}

/// What the bytes before a marker at position `marker` say of an image of
/// `file_size` bytes.
///
/// The metadata record is the twelve bytes before the marker, the name the
/// bytes before the record. The trailer is corrupt when either does not fit,
/// when the name is no valid name, or when name, record, marker and payload
/// together are longer than the image.
pub open spec fn trailer_before(bytes: Seq<u8>, marker: int, file_size: u64) -> Located {
    if marker < METADATA_LEN {
        Located::Corrupt
    } else {
        let record = marker - METADATA_LEN;
        let metadata = BundleMetadata::spec_decode(bytes.subrange(record, marker));
        let name_len = metadata.target_bin_name_len as int;
        if name_len > record {
            Located::Corrupt
        } else {
            let name = bytes.subrange(record - name_len, record);
            let used = MAGIC_LEN + METADATA_LEN + name_len + metadata.payload_size;
            if !valid_name(name) || used > file_size {
                Located::Corrupt
            } else {
                Located::Found { metadata, payload_start: (file_size - used) as u64, name }
            }
        }
    }
}

/// What stands at the end of an image of `file_size` bytes whose last bytes
/// are `tail`: nothing where the search window holds no marker, and
/// otherwise what the bytes before its rightmost marker say.
pub open spec fn located(tail: Seq<u8>, file_size: u64) -> Located {
    if !has_marker(tail) {
        Located::Absent
    } else {
        trailer_before(tail, last_marker(tail), file_size)
    }
}

/// Whether `r` is the answer that the locator owes for `l`: nothing where the
/// marker is absent, `CorruptTrailer` where the trailer is corrupt, and
/// otherwise the fields found, the name decoded from UTF-8.
pub open spec fn describes(l: Located, r: Result<Option<PayloadInfo>, RexError>) -> bool {
    match l {
        Located::Absent => r matches Ok(None),
        Located::Corrupt => r == Err::<Option<PayloadInfo>, RexError>(RexError::CorruptTrailer),
        Located::Found { metadata, payload_start, name } => {
            r matches Ok(Some(info)) && info@ == (PayloadInfoView {
                metadata,
                payload_start_offset: payload_start,
                target_binary_name: decode_utf8(name),
            })
        },
    }
}

/// `String::from_utf8` of std: a string comes back exactly when the bytes are
/// valid UTF-8, and it holds the characters that they encode.
#[verifier::external_body]
fn string_from_utf8(bytes: Vec<u8>) -> (r: Option<String>)
    ensures
        r is Some <==> valid_utf8(bytes@),
        r matches Some(s) ==> s@ == decode_utf8(bytes@),
{
    String::from_utf8(bytes).ok()
}

fn is_marker_at(bytes: &[u8], i: usize, magic: &Vec<u8>) -> (r: bool)
    requires
        i + MAGIC_LEN <= bytes@.len(),
        magic@ == magic_marker(),
    ensures
        r == marker_at(bytes@, i as int),
{
    let total: usize = bytes.len();
    let mut k: usize = 0;
    while k < MAGIC_LEN
        invariant
            k <= MAGIC_LEN,
            i + MAGIC_LEN <= total,
            total == bytes@.len(),
            magic@ == magic_marker(),
            forall|j: int| 0 <= j < k ==> bytes@[i + j] == magic_marker()[j],
        decreases MAGIC_LEN - k,
    {
        if bytes[i + k] != magic[k] {
            assert(bytes@.subrange(i as int, i + MAGIC_LEN)[k as int] == bytes@[i + k]);
            return false;
        }
        k += 1;
    }
    assert(bytes@.subrange(i as int, i + MAGIC_LEN) =~= magic_marker());
    true
}

/// Searches the window from the right for the marker.
pub fn find_last_marker(tail: &[u8]) -> (r: Option<usize>)
    ensures
        r matches Some(i) ==> is_last_marker(tail@, i as int),
        r is None ==> !has_marker(tail@),
{
    let total: usize = tail.len();
    if total < MAGIC_LEN {
        return None;
    }
    let start: usize = if total > WINDOW_LEN {
        total - WINDOW_LEN
    } else {
        0
    };
    let magic: Vec<u8> = magic_bytes();
    let mut i: usize = total - MAGIC_LEN + 1;
    while i > start
        invariant
            start <= i <= total - MAGIC_LEN + 1,
            total == tail@.len(),
            start == window_start(tail@),
            magic@ == magic_marker(),
            forall|j: int| i <= j ==> !marker_at(tail@, j),
        decreases i,
    {
        i -= 1;
        if is_marker_at(tail, i, &magic) {
            return Some(i);
        }
    }
    None
}

/// The rightmost marker of the window is the only position that is one.
pub proof fn last_marker_unique(tail: Seq<u8>, i: int)
    requires
        is_last_marker(tail, i),
    ensures
        has_marker(tail),
        last_marker(tail) == i,
{
    let c = last_marker(tail);
    assert(is_last_marker(tail, c));
    if c < i {
        assert(!marker_at(tail, i));
    }
    if i < c {
        assert(!marker_at(tail, c));
    }
}

/// Reads the trailer of an image of `file_size` bytes from its last bytes.
/// `tail` holds the end of the image: all of it, or at least its last
/// `TAIL_LEN` bytes.
pub fn find_payload_info(tail: &[u8], file_size: u64) -> (r: Result<Option<PayloadInfo>, RexError>)
    ensures
        describes(located(tail@, file_size), r),
{
    let marker: usize = match find_last_marker(tail) {
        Some(m) => m,
        None => {
            return Ok(None);
        },
    };
    proof {
        last_marker_unique(tail@, marker as int);
    }
    if marker < METADATA_LEN {
        return Err(RexError::CorruptTrailer);
    }
    let record: usize = marker - METADATA_LEN;
    let metadata: BundleMetadata = BundleMetadata::decode(tail, record);
    if metadata.target_bin_name_len as u64 > record as u64 {
        return Err(RexError::CorruptTrailer);
    }
    let name_len: usize = metadata.target_bin_name_len as usize;
    if name_len == 0 || name_len > MAX_NAME_LEN {
        return Err(RexError::CorruptTrailer);
    }
    let name_bytes: Vec<u8> = slice_to_vec(slice_subrange(tail, record - name_len, record));
    if !has_no_separator(name_bytes.as_slice()) {
        return Err(RexError::CorruptTrailer);
    }
    let fixed: u64 = (MAGIC_LEN + METADATA_LEN + name_len) as u64;
    if file_size < fixed || file_size - fixed < metadata.payload_size {
        return Err(RexError::CorruptTrailer);
    }
    match string_from_utf8(name_bytes) {
        Some(name) => Ok(
            Some(
                PayloadInfo {
                    metadata,
                    payload_start_offset: file_size - fixed - metadata.payload_size,
                    target_binary_name: name,
                },
            ),
        ),
        None => Err(RexError::CorruptTrailer),
    }
}

/// Two answers of the locator on the same image agree.
pub open spec fn same_answer(
    a: Result<Option<PayloadInfo>, RexError>,
    b: Result<Option<PayloadInfo>, RexError>,
) -> bool {
    match (a, b) {
        (Ok(Some(x)), Ok(Some(y))) => x@ == y@,
        (Ok(None), Ok(None)) => true,
        (Err(x), Err(y)) => x == y,
        _ => false,
    }
}

/// Parsing is a function of the image: whatever two runs of the locator
/// return for the same bytes and size is the same payload description.
pub proof fn parse_twice_agrees(
    tail: Seq<u8>,
    file_size: u64,
    first: Result<Option<PayloadInfo>, RexError>,
    second: Result<Option<PayloadInfo>, RexError>,
)
    requires
        describes(located(tail, file_size), first),
        describes(located(tail, file_size), second),
    ensures
        same_answer(first, second),
{
}

proof fn trailer_parts(name: Seq<u8>, payload_size: u64)
    ensures
        ({
            let t = trailer(name, payload_size);
            let n = name.len() as int;
            &&& t.len() == n + METADATA_LEN + MAGIC_LEN
            &&& t.subrange(0, n) == name
            &&& t.subrange(n, n + METADATA_LEN) == (BundleMetadata {
                payload_size,
                target_bin_name_len: name.len() as u32,
            }).spec_encode()
            &&& t.subrange(n + METADATA_LEN, n + METADATA_LEN + MAGIC_LEN) == magic_marker()
        }),
{
    let metadata = BundleMetadata { payload_size, target_bin_name_len: name.len() as u32 };
    metadata_round_trip(metadata);
    let t = trailer(name, payload_size);
    let n = name.len() as int;
    assert(t.len() == n + METADATA_LEN + MAGIC_LEN);
    assert(t.subrange(0, n) =~= name);
    assert(t.subrange(n, n + METADATA_LEN) =~= metadata.spec_encode());
    assert(t.subrange(n + METADATA_LEN, n + METADATA_LEN + MAGIC_LEN) =~= magic_marker());
}

proof fn tail_ends_in_trailer(host: Seq<u8>, payload: Seq<u8>, name: Seq<u8>, keep: int)
    requires
        name.len() + METADATA_LEN + MAGIC_LEN <= keep <= bundle_image(host, payload, name).len(),
    ensures
        ({
            let image = bundle_image(host, payload, name);
            let tail = image.subrange(image.len() - keep, image.len() as int);
            let t = trailer(name, payload.len() as u64);
            &&& image.len() == host.len() + payload.len() + t.len()
            &&& tail.len() == keep
            &&& tail.subrange(keep - t.len(), keep) == t
        }),
{
    let image = bundle_image(host, payload, name);
    let tail = image.subrange(image.len() - keep, image.len() as int);
    let t = trailer(name, payload.len() as u64);
    trailer_parts(name, payload.len() as u64);
    assert(tail.subrange(keep - t.len(), keep) =~= t);
}

/// The trailer that the writer appends is the one that the locator finds:
/// whatever the host image and the payload hold, also the text of a marker
/// or a whole earlier trailer, the rightmost marker is the written one, and
/// the fields read back are the fields written, the payload starting where
/// the host image ends. This holds of every tail that is long enough to
/// cover the trailer.
pub proof fn written_trailer_is_located(
    host: Seq<u8>,
    payload: Seq<u8>,
    name: Seq<u8>,
    keep: int,
)
    requires
        valid_name(name),
        host.len() + payload.len() + name.len() + METADATA_LEN + MAGIC_LEN <= u64::MAX,
        name.len() + METADATA_LEN + MAGIC_LEN <= keep <= bundle_image(host, payload, name).len(),
    ensures
        ({
            let image = bundle_image(host, payload, name);
            located(image.subrange(image.len() - keep, image.len() as int), image.len() as u64)
                == (Located::Found {
                metadata: BundleMetadata {
                    payload_size: payload.len() as u64,
                    target_bin_name_len: name.len() as u32,
                },
                payload_start: host.len() as u64,
                name,
            })
        }),
{
    let image = bundle_image(host, payload, name);
    let tail = image.subrange(image.len() - keep, image.len() as int);
    let t = trailer(name, payload.len() as u64);
    let metadata = BundleMetadata {
        payload_size: payload.len() as u64,
        target_bin_name_len: name.len() as u32,
    };
    let n = name.len() as int;
    let marker = keep - MAGIC_LEN;
    let record = marker - METADATA_LEN;
    trailer_parts(name, payload.len() as u64);
    tail_ends_in_trailer(host, payload, name, keep);
    let from = keep - t.len();
    assert(tail.subrange(marker, marker + MAGIC_LEN) == magic_marker()) by {
        assert(tail.subrange(marker, marker + MAGIC_LEN) =~= tail.subrange(from, keep).subrange(
            n + METADATA_LEN,
            n + METADATA_LEN + MAGIC_LEN,
        ));
    }
    assert(tail.subrange(record, marker) == metadata.spec_encode()) by {
        assert(tail.subrange(record, marker) =~= tail.subrange(from, keep).subrange(
            n,
            n + METADATA_LEN,
        ));
    }
    assert(tail.subrange(record - n, record) == name) by {
        assert(tail.subrange(record - n, record) =~= tail.subrange(from, keep).subrange(0, n));
    }
    assert(is_last_marker(tail, marker));
    last_marker_unique(tail, marker);
    metadata_round_trip(metadata);
}

proof fn payload_of_bundle(host: Seq<u8>, payload: Seq<u8>, name: Seq<u8>)
    ensures
        ({
            let image = bundle_image(host, payload, name);
            &&& host.len() + payload.len() <= image.len()
            &&& image.subrange(host.len() as int, (host.len() + payload.len()) as int) == payload
            &&& image.subrange(0, image.len() as int) == image
        }),
{
    let image = bundle_image(host, payload, name);
    assert(image.subrange(host.len() as int, (host.len() + payload.len()) as int) =~= payload);
    assert(image.subrange(0, image.len() as int) =~= image);
}

/// The payload that the locator points at is the payload that was written:
/// in a bundle that is read whole, the trailer found is the one written, and
/// the bytes from the offset found up to the size found are the compressed
/// stream that the writer put behind the host image.
pub proof fn written_payload_is_read_back(host: Seq<u8>, payload: Seq<u8>, name: Seq<u8>)
    requires
        valid_name(name),
        host.len() + payload.len() + name.len() + METADATA_LEN + MAGIC_LEN <= u64::MAX,
    ensures
        ({
            let image = bundle_image(host, payload, name);
            &&& located(image, image.len() as u64) == (Located::Found {
                metadata: BundleMetadata {
                    payload_size: payload.len() as u64,
                    target_bin_name_len: name.len() as u32,
                },
                payload_start: host.len() as u64,
                name,
            })
            &&& image.subrange(host.len() as int, (host.len() + payload.len()) as int) == payload
        }),
{
    let image = bundle_image(host, payload, name);
    payload_of_bundle(host, payload, name);
    tail_ends_in_trailer(host, payload, name, image.len() as int);
    written_trailer_is_located(host, payload, name, image.len() as int);
}

/// A trailer that is found accounts for the whole image: the payload starts
/// inside it, and payload, name, record and marker reach exactly to its end.
pub proof fn found_trailer_fills_the_image(bytes: Seq<u8>, file_size: u64)
    ensures
        located(bytes, file_size) matches Located::Found { metadata, payload_start, name }
            ==> payload_start + metadata.payload_size + name.len() + METADATA_LEN + MAGIC_LEN
            == file_size && name.len() == metadata.target_bin_name_len,
{
    if has_marker(bytes) {
        let marker = last_marker_exists(bytes);
        last_marker_unique(bytes, marker);
        if marker >= METADATA_LEN {
            let record = marker - METADATA_LEN;
            let metadata = BundleMetadata::spec_decode(bytes.subrange(record, marker));
            let name_len = metadata.target_bin_name_len as int;
            if name_len <= record {
                assert(bytes.subrange(record - name_len, record).len() == name_len);
            }
        }
    }
}

proof fn marker_in_tail(image: Seq<u8>, keep: int, i: int)
    requires
        0 <= keep <= image.len(),
        0 <= i,
    ensures
        marker_at(image.subrange(image.len() - keep, image.len() as int), i) == marker_at(
            image,
            image.len() - keep + i,
        ),
{
    let cut = image.len() - keep;
    let tail = image.subrange(cut, image.len() as int);
    if i + MAGIC_LEN <= tail.len() {
        assert(tail.subrange(i, i + MAGIC_LEN) =~= image.subrange(cut + i, cut + i + MAGIC_LEN));
    }
}

proof fn markers_of_tail(image: Seq<u8>, keep: int)
    requires
        WINDOW_LEN <= keep <= image.len(),
    ensures
        ({
            let cut = image.len() - keep;
            let tail = image.subrange(cut, image.len() as int);
            &&& has_marker(tail) == has_marker(image)
            &&& has_marker(image) ==> last_marker(tail) == last_marker(image) - cut
        }),
{
    let cut = image.len() - keep;
    let tail = image.subrange(cut, image.len() as int);
    assert(window_start(image) == window_start(tail) + cut);
    if has_marker(tail) {
        let t = choose|i: int| window_start(tail) <= i && marker_at(tail, i);
        marker_in_tail(image, keep, t);
        assert(marker_at(image, cut + t));
    }
    if has_marker(image) {
        let m = last_marker_exists(image);
        last_marker_unique(image, m);
        marker_in_tail(image, keep, m - cut);
        assert(marker_at(tail, m - cut));
        assert forall|j: int| m - cut < j implies !marker_at(tail, j) by {
            marker_in_tail(image, keep, j);
        }
        assert(is_last_marker(tail, m - cut));
        last_marker_unique(tail, m - cut);
    }
}

proof fn trailer_before_in_tail(image: Seq<u8>, keep: int, marker: int, file_size: u64)
    requires
        TAIL_LEN <= keep <= image.len(),
        image.len() - WINDOW_LEN <= marker,
        marker + MAGIC_LEN <= image.len(),
    ensures
        trailer_before(
            image.subrange(image.len() - keep, image.len() as int),
            marker - (image.len() - keep),
            file_size,
        ) == trailer_before(image, marker, file_size),
{
    let cut = image.len() - keep;
    let tail = image.subrange(cut, image.len() as int);
    let record = marker - METADATA_LEN;
    assert(record - cut >= MAX_NAME_LEN);
    assert(tail.subrange(record - cut, marker - cut) =~= image.subrange(record, marker));
    let metadata = BundleMetadata::spec_decode(image.subrange(record, marker));
    let name_len = metadata.target_bin_name_len as int;
    if name_len <= record - cut {
        assert(tail.subrange(record - cut - name_len, record - cut) =~= image.subrange(
            record - name_len,
            record,
        ));
    } else if name_len <= record {
        let name = image.subrange(record - name_len, record);
        assert(name.len() > MAX_NAME_LEN);
        assert(!valid_name(name));
    }
}

/// The last `TAIL_LEN` bytes of an image say all that the locator reads:
/// from a tail of that length, or a longer one, it answers as from the
/// whole image.
pub proof fn tail_is_enough(image: Seq<u8>, keep: int, file_size: u64)
    requires
        TAIL_LEN <= keep <= image.len(),
    ensures
        located(image.subrange(image.len() - keep, image.len() as int), file_size) == located(
            image,
            file_size,
        ),
{
    markers_of_tail(image, keep);
    if has_marker(image) {
        let m = last_marker_exists(image);
        last_marker_unique(image, m);
        trailer_before_in_tail(image, keep, m, file_size);
    }
}

/// Where the window holds a marker, it holds a rightmost one.
pub proof fn last_marker_exists(bytes: Seq<u8>) -> (m: int)
    requires
        has_marker(bytes),
    ensures
        is_last_marker(bytes, m),
{
    let some = choose|i: int| window_start(bytes) <= i && marker_at(bytes, i);
    rightmost_from(bytes, some, bytes.len() as int)
}

proof fn rightmost_from(bytes: Seq<u8>, seen: int, bound: int) -> (m: int)
    requires
        window_start(bytes) <= seen < bound,
        marker_at(bytes, seen),
        forall|j: int| bound <= j ==> !marker_at(bytes, j),
    ensures
        is_last_marker(bytes, m),
    decreases bound - seen,
{
    if marker_at(bytes, bound - 1) {
        bound - 1
    } else {
        assert forall|j: int| bound - 1 <= j implies !marker_at(bytes, j) by {}
        rightmost_from(bytes, seen, bound - 1)
    }
}

} // verus!
