use vstd::prelude::*;

use crate::error::err_parsing;
use crate::error::Error;
use crate::stream::InputStream;

verus! {

/// The value of a 4-byte big-endian synchsafe integer: each byte contributes
/// only its low 7 bits, so the result is a 28-bit number.
pub open spec fn synchsafe(b: Seq<u8>) -> int
    recommends
        b.len() == 4,
{
    (b[0] % 128) * 0x200000 + (b[1] % 128) * 0x4000 + (b[2] % 128) * 0x80 + (b[3] % 128)
}

/// The first three bytes are the tag's magic identifier, ASCII "ID3".
pub open spec fn id3_magic(s: Seq<u8>) -> bool {
    s.len() >= 3 && s[0] == 0x49u8 && s[1] == 0x44u8 && s[2] == 0x33u8
}

/// The tag payload length announced by a stream's header: the synchsafe size
/// field at offsets 6..10. Meaningful only when at least 10 bytes remain.
pub open spec fn tag_payload_size(s: Seq<u8>) -> int
    recommends
        s.len() >= 10,
{
    synchsafe(s.subrange(6, 10))
}

/// How many bytes the locator skips over a well-formed tag: the 10-byte
/// header, the announced payload, and the 4-byte frame-sync region after it.
pub open spec fn skip_len(s: Seq<u8>) -> int
    recommends
        s.len() >= 10,
{
    14 + tag_payload_size(s)
}

/// The remaining bytes `s` of a stream begin with a complete tag: the magic
/// matches and the payload plus the 4 sync bytes all lie within the stream.
pub open spec fn has_tag(s: Seq<u8>) -> bool {
    s.len() >= 10 && id3_magic(s) && skip_len(s) <= s.len()
}

/// The audio that follows the tag: everything after the skip offset.
pub open spec fn audio_part(s: Seq<u8>) -> Seq<u8>
    recommends
        has_tag(s),
{
    s.skip(skip_len(s))
}

/// Exactly which error the tag locator reports when the remaining bytes `rem`
/// of a stream positioned at `p0` do not begin with a complete tag: each way a
/// scan can fail has its position and its fixed description.
pub open spec fn locate_error(p0: int, rem: Seq<u8>, e: Error) -> bool {
    if rem.len() < 3 {
        e.position == Some(p0 as u64) && e.description@ == "failed to read first header bytes"@
    } else if !id3_magic(rem) {
        e.position == Some(p0 as u64) && e.description@ == "no id3v2 tag: we need to handle this"@
    } else if rem.len() < 6 {
        e.position == Some((p0 + 3) as u64) && e.description@ == "failed to seek to id3v2 tag size"@
    } else if rem.len() < 10 {
        e.position == Some((p0 + 6) as u64) && e.description@ == "failed to read id3v2 tag size"@
    } else if rem.len() < 10 + tag_payload_size(rem) {
        e.position == Some((p0 + 10) as u64) && e.description@ == "failed to seek to end of id3v2 tag"@
    } else {
        e.position == Some((p0 + 10 + tag_payload_size(rem)) as u64)
            && e.description@ == "failed to read first header bytes"@
    }
}

/// Decode a 4-byte big-endian synchsafe integer: the top bit of each byte is
/// discarded and the remaining 7-bit groups are concatenated.
pub fn decode_synchsafe(b: &Vec<u8>) -> (r: u32)
    requires
        b@.len() == 4,
    ensures
        r == synchsafe(b@),
        r < 0x10000000,
{
    let x0: u32 = (b[0] % 128) as u32;
    let x1: u32 = (b[1] % 128) as u32;
    let x2: u32 = (b[2] % 128) as u32;
    let x3: u32 = (b[3] % 128) as u32;
    x0 * 0x200000 + x1 * 0x4000 + x2 * 0x80 + x3
}

/// Whether a buffer starts with the three magic identifier bytes "ID3".
pub fn is_id3_magic(b: &Vec<u8>) -> (r: bool)
    requires
        b@.len() >= 3,
    ensures
        r == id3_magic(b@),
{
    b[0] == 0x49 && b[1] == 0x44 && b[2] == 0x33
}

/// The tag locator: starting at the stream's current position, check the magic
/// identifier, skip the version and flag bytes, decode the synchsafe size,
/// skip the tag payload and the 4-byte frame-sync region, and return the
/// position of the first byte the copier must transfer. On success the cursor
/// lands exactly there; every failure reports the position and description
/// that `locate_error` fixes, and never moves the cursor past end-of-stream.
pub fn read_to_first_header(reader: &mut InputStream) -> (r: Result<u64, Error>)
    requires
        old(reader).wf(),
    ensures
        final(reader).wf(),
        final(reader).bytes() == old(reader).bytes(),
        r matches Ok(p) ==> {
            &&& has_tag(old(reader).rem())
            &&& p == old(reader).cursor() + skip_len(old(reader).rem())
            &&& final(reader).cursor() == p
        },
        r matches Err(e) ==> !has_tag(old(reader).rem()) && locate_error(
            old(reader).cursor(),
            old(reader).rem(),
            e,
        ),
{
    let ghost rem0 = reader.rem();
    let pos0 = reader.position();
    let header = match reader.read_exact(3) {
        Some(v) => v,
        None => {
            return err_parsing(pos0, "failed to read first header bytes");
        },
    };
    proof {
        // The three bytes just read are the first three of the remainder.
        assert(rem0.take(3)[0] == rem0[0]);
        assert(rem0.take(3)[1] == rem0[1]);
        assert(rem0.take(3)[2] == rem0[2]);
    }
    if !is_id3_magic(&header) {
        return err_parsing(pos0, "no id3v2 tag: we need to handle this");
    }
    if !reader.skip(3) {
        return err_parsing(reader.position(), "failed to seek to id3v2 tag size");
    }
    let sz = match reader.read_exact(4) {
        Some(v) => v,
        None => {
            return err_parsing(reader.position(), "failed to read id3v2 tag size");
        },
    };
    proof {
        assert(sz@ =~= rem0.subrange(6, 10));
    }
    let tag_size = decode_synchsafe(&sz);
    if !reader.skip(tag_size as u64) {
        return err_parsing(reader.position(), "failed to seek to end of id3v2 tag");
    }
    match reader.read_exact(4) {
        Some(_) => {},
        None => {
            return err_parsing(reader.position(), "failed to read first header bytes");
        },
    };
    Ok(reader.position())
}

/// Tag-skip law: a stream whose remainder is a 10-byte header announcing an
/// `n`-byte payload, the payload, the 4 sync bytes, and then `m` bytes of
/// audio has a complete tag, the locator's skip offset is `10 + n + 4`, and
/// exactly the `m` audio bytes lie after it.
pub proof fn lemma_tag_skip_offset(s: Seq<u8>, n: int, m: int)
    requires
        0 <= n,
        0 <= m,
        s.len() == 14 + n + m,
        id3_magic(s),
        synchsafe(s.subrange(6, 10)) == n,
    ensures
        has_tag(s),
        skip_len(s) == 10 + n + 4,
        audio_part(s) == s.skip(14 + n),
        audio_part(s).len() == m,
{
}

} // verus!
