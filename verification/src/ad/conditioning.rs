//! Ad creative conditioning: compatibility checks for resolved media
//! files.  The checks are advisory: they count problems and never block
//! insertion.

use vstd::prelude::*;
use crate::ad::vast::{MediaFile, MediaFileV};
use crate::text::{contains_seq, eq_ignore_case, lower_seq, str_contains_ci, str_eq_ignore_case};

verus! {

/// HLS-compatible MIME types for ad creatives.
pub open spec fn hls_mime(m: Seq<char>) -> bool {
    eq_ignore_case(m, "application/x-mpegURL"@) || eq_ignore_case(
        m,
        "application/vnd.apple.mpegurl"@,
    )
}

/// Progressive video MIME types.
pub open spec fn progressive_mime(m: Seq<char>) -> bool {
    eq_ignore_case(m, "video/mp4"@) || eq_ignore_case(m, "video/webm"@) || eq_ignore_case(
        m,
        "video/3gpp"@,
    )
}

/// Common broadcast resolutions.
pub open spec fn standard_resolution(w: u32, h: u32) -> bool {
    ||| (w == 1920 && h == 1080)
    ||| (w == 1280 && h == 720)
    ||| (w == 854 && h == 480)
    ||| (w == 640 && h == 360)
    ||| (w == 426 && h == 240)
    ||| (w == 3840 && h == 2160)
    ||| (w == 960 && h == 540)
    ||| (w == 768 && h == 432)
}

/// The creative's codec names VPAID, which SSAI cannot play.
pub open spec fn vpaid_codec(f: MediaFileV) -> bool {
    match f.codec {
        Some(c) => contains_seq(lower_seq(c), "vpaid"@),
        None => false,
    }
}

/// Number of conditioning problems a media file raises: a non-HLS MIME
/// type, a non-standard resolution, and a VPAID codec each count one.
pub open spec fn creative_warnings(f: MediaFileV) -> int {
    (if !hls_mime(f.mime_type) {
        1int
    } else {
        0int
    }) + (if f.width > 0 && f.height > 0 && !standard_resolution(f.width, f.height) {
        1int
    } else {
        0int
    }) + (if vpaid_codec(f) {
        1int
    } else {
        0int
    })
}

/// Whether a MIME type is HLS-compatible.
pub fn is_hls_mime(mime: &str) -> (r: bool)
    ensures
        r == hls_mime(mime@),
{
    str_eq_ignore_case(mime, "application/x-mpegURL") || str_eq_ignore_case(
        mime,
        "application/vnd.apple.mpegurl",
    )
}

/// Whether a MIME type is a progressive video type.
pub fn is_progressive_mime(mime: &str) -> (r: bool)
    ensures
        r == progressive_mime(mime@),
{
    str_eq_ignore_case(mime, "video/mp4") || str_eq_ignore_case(mime, "video/webm")
        || str_eq_ignore_case(mime, "video/3gpp")
}

/// Check one creative's compatibility and return how many problems it
/// raises (none blocks insertion).
pub fn check_creative(media_file: &MediaFile, _session_id: &str) -> (warnings: u32)
    ensures
        warnings == creative_warnings(media_file@),
{
    let mut warnings: u32 = 0;
    if !is_hls_mime(media_file.mime_type.as_str()) {
        // progressive creatives may stutter in an HLS stream; unknown
        // types are worse, but both count as one problem
        warnings += 1;
    }
    if media_file.width > 0 && media_file.height > 0 {
        let is_standard = (media_file.width == 1920 && media_file.height == 1080) || (
        media_file.width == 1280 && media_file.height == 720) || (media_file.width == 854
            && media_file.height == 480) || (media_file.width == 640 && media_file.height == 360)
            || (media_file.width == 426 && media_file.height == 240) || (media_file.width == 3840
            && media_file.height == 2160) || (media_file.width == 960 && media_file.height == 540)
            || (media_file.width == 768 && media_file.height == 432);
        if !is_standard {
            warnings += 1;
        }
    }
    match &media_file.codec {
        Some(codec) => {
            if str_contains_ci(codec.as_str(), "vpaid") {
                proof {
                    reveal_strlit("vpaid");
                }
                assert(lower_seq("vpaid"@) =~= "vpaid"@);
                warnings += 1;
            } else {
                assert(lower_seq("vpaid"@) =~= "vpaid"@) by {
                    reveal_strlit("vpaid");
                }
            }
        },
        None => {},
    }
    warnings
}

/// Check several creatives and count those whose MIME type is not
/// HLS-compatible.
pub fn check_creatives(media_files: &Vec<&MediaFile>, session_id: &str) -> (count: usize)
    ensures
        count == non_hls_count(media_files@.map_values(|f: &MediaFile| f@)),
{
    let ghost fs = media_files@.map_values(|f: &MediaFile| f@);
    let mut count: usize = 0;
    let n = media_files.len();
    let mut i: usize = 0;
    while i < n
        invariant
            n == fs.len(),
            fs == media_files@.map_values(|f: &MediaFile| f@),
            0 <= i <= n,
            count == non_hls_count(fs.subrange(0, i as int)),
            count <= i,
        decreases n - i,
    {
        let f = media_files[i];
        proof {
            assert(fs.subrange(0, i + 1).drop_last() =~= fs.subrange(0, i as int));
            assert(fs.subrange(0, i + 1).last() == fs[i as int]);
        }
        if !is_hls_mime(f.mime_type.as_str()) {
            count += 1;
        }
        check_creative(f, session_id);
        i += 1;
    }
    proof {
        assert(fs.subrange(0, n as int) =~= fs);
    }
    count
}

/// How many of the files have a MIME type that is not HLS-compatible.
pub open spec fn non_hls_count(fs: Seq<MediaFileV>) -> int
    decreases fs.len(),
{
    if fs.len() == 0 {
        0
    } else {
        non_hls_count(fs.drop_last()) + (if !hls_mime(fs.last().mime_type) {
            1int
        } else {
            0int
        })
    }
}

} // verus!
