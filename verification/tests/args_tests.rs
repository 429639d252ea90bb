use iptv_player::args::{
    get_ffmpeg_args, get_hls_path, playback_url, playlist_path, segment_pattern,
};

#[test]
fn workspace_locations() {
    assert_eq!(get_hls_path("/tmp"), "/tmp/iptv-hls".to_string());
    assert_eq!(
        playlist_path("/tmp/iptv-hls"),
        "/tmp/iptv-hls/stream.m3u8".to_string()
    );
    assert_eq!(
        segment_pattern("/tmp/iptv-hls"),
        "/tmp/iptv-hls/segment%d.ts".to_string()
    );
    assert_eq!(
        playback_url(),
        "http://127.0.0.1:9876/hls/stream.m3u8".to_string()
    );
}

#[test]
fn transcoder_argument_list_is_exact() {
    let args = get_ffmpeg_args(
        "http://example.com/live",
        "/tmp/iptv-hls/segment%d.ts",
        "/tmp/iptv-hls/stream.m3u8",
    );
    let expected: Vec<String> = [
        "-y",
        "-loglevel",
        "warning",
        "-fflags",
        "+genpts+discardcorrupt",
        "-reconnect",
        "1",
        "-reconnect_streamed",
        "1",
        "-reconnect_delay_max",
        "5",
        "-analyzeduration",
        "2000000",
        "-probesize",
        "2000000",
        "-i",
        "http://example.com/live",
        "-c:v",
        "copy",
        "-c:a",
        "aac",
        "-ac",
        "2",
        "-ar",
        "44100",
        "-b:a",
        "128k",
        "-f",
        "hls",
        "-hls_time",
        "2",
        "-hls_list_size",
        "10",
        "-hls_flags",
        "delete_segments+append_list",
        "-hls_segment_type",
        "mpegts",
        "-hls_segment_filename",
        "/tmp/iptv-hls/segment%d.ts",
        "-start_number",
        "0",
        "/tmp/iptv-hls/stream.m3u8",
    ]
    .iter()
    .map(|s| s.to_string())
    .collect();
    assert_eq!(args, expected);
}
