//! Fixed locations of the HLS workspace and the exact argument list handed
//! to the transcoding executable.

use vstd::prelude::*;
use vstd::string::StringExecFns;

verus! {

/// The workspace directory, a fixed subdirectory of the platform
/// temporary-files area.
pub open spec fn spec_hls_dir(temp_dir: Seq<char>) -> Seq<char> {
    temp_dir + "/iptv-hls"@
}

/// Location of the HLS workspace under the given temporary directory.
pub fn get_hls_path(temp_dir: &str) -> (r: String)
    ensures
        r@ == spec_hls_dir(temp_dir@),
{
    let mut s = String::from_str(temp_dir);
    s.append("/iptv-hls");
    s
}

/// The rolling HLS manifest file inside the workspace.
pub open spec fn spec_playlist_path(dir: Seq<char>) -> Seq<char> {
    dir + "/stream.m3u8"@
}

pub fn playlist_path(dir: &str) -> (r: String)
    ensures
        r@ == spec_playlist_path(dir@),
{
    let mut s = String::from_str(dir);
    s.append("/stream.m3u8");
    s
}

/// The numbered segment-file pattern the transcoder writes into.
pub open spec fn spec_segment_pattern(dir: Seq<char>) -> Seq<char> {
    dir + "/segment%d.ts"@
}

pub fn segment_pattern(dir: &str) -> (r: String)
    ensures
        r@ == spec_segment_pattern(dir@),
{
    let mut s = String::from_str(dir);
    s.append("/segment%d.ts");
    s
}

/// The externally reachable playback URL: the manifest, served by the
/// local delivery server on its fixed loopback address and port.
pub open spec fn spec_playback_url() -> Seq<char> {
    "http://127.0.0.1:9876/hls/stream.m3u8"@
}

pub fn playback_url() -> (r: String)
    ensures
        r@ == spec_playback_url(),
{
    String::from_str("http://127.0.0.1:9876/hls/stream.m3u8")
}

/// The transcoder invocation: non-interactive, quiet, regenerated
/// timestamps, corrupt packets discarded, bounded reconnects; video copied,
/// audio re-encoded to a fixed profile; chunked HLS output with a fixed
/// segment duration, a rolling window of ten referenced segments, deletion
/// of segments out of the window, and zero-based numbering.
pub open spec fn spec_ffmpeg_args(
    url: Seq<char>,
    segment_pattern: Seq<char>,
    playlist_path: Seq<char>,
) -> Seq<Seq<char>> {
    seq![
        "-y"@,
        "-loglevel"@,
        "warning"@,
        "-fflags"@,
        "+genpts+discardcorrupt"@,
        "-reconnect"@,
        "1"@,
        "-reconnect_streamed"@,
        "1"@,
        "-reconnect_delay_max"@,
        "5"@,
        "-analyzeduration"@,
        "2000000"@,
        "-probesize"@,
        "2000000"@,
        "-i"@,
        url,
        "-c:v"@,
        "copy"@,
        "-c:a"@,
        "aac"@,
        "-ac"@,
        "2"@,
        "-ar"@,
        "44100"@,
        "-b:a"@,
        "128k"@,
        "-f"@,
        "hls"@,
        "-hls_time"@,
        "2"@,
        "-hls_list_size"@,
        "10"@,
        "-hls_flags"@,
        "delete_segments+append_list"@,
        "-hls_segment_type"@,
        "mpegts"@,
        "-hls_segment_filename"@,
        segment_pattern,
        "-start_number"@,
        "0"@,
        playlist_path,
    ]
}

/// Argument list for one transcoding run of the given source into the
/// given workspace files.
pub fn get_ffmpeg_args(url: &str, segment_pattern: &str, playlist_path: &str) -> (r: Vec<String>)
    ensures
        r.deep_view() == spec_ffmpeg_args(url@, segment_pattern@, playlist_path@),
{
    let r: Vec<String> = vec![
        String::from_str("-y"),
        String::from_str("-loglevel"),
        String::from_str("warning"),
        String::from_str("-fflags"),
        String::from_str("+genpts+discardcorrupt"),
        String::from_str("-reconnect"),
        String::from_str("1"),
        String::from_str("-reconnect_streamed"),
        String::from_str("1"),
        String::from_str("-reconnect_delay_max"),
        String::from_str("5"),
        String::from_str("-analyzeduration"),
        String::from_str("2000000"),
        String::from_str("-probesize"),
        String::from_str("2000000"),
        String::from_str("-i"),
        String::from_str(url),
        String::from_str("-c:v"),
        String::from_str("copy"),
        String::from_str("-c:a"),
        String::from_str("aac"),
        String::from_str("-ac"),
        String::from_str("2"),
        String::from_str("-ar"),
        String::from_str("44100"),
        String::from_str("-b:a"),
        String::from_str("128k"),
        String::from_str("-f"),
        String::from_str("hls"),
        String::from_str("-hls_time"),
        String::from_str("2"),
        String::from_str("-hls_list_size"),
        String::from_str("10"),
        String::from_str("-hls_flags"),
        String::from_str("delete_segments+append_list"),
        String::from_str("-hls_segment_type"),
        String::from_str("mpegts"),
        String::from_str("-hls_segment_filename"),
        String::from_str(segment_pattern),
        String::from_str("-start_number"),
        String::from_str("0"),
        String::from_str(playlist_path),
    ];
    proof {
        assert(r.deep_view() =~~= spec_ffmpeg_args(url@, segment_pattern@, playlist_path@));
    }
    r
}

} // verus!
