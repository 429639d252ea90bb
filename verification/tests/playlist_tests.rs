use iptv_player::playlist::{channels_from_text, parse_m3u};

#[test]
fn one_entry_with_all_attributes() {
    let input = b"#EXTINF:-1 tvg-name=\"X\" tvg-logo=\"L\" group-title=\"G\",Display Name\nhttp://host/a";
    let channels = parse_m3u(input);
    assert_eq!(channels.len(), 1);
    assert_eq!(channels[0].id, 0);
    assert_eq!(channels[0].name, b"Display Name".to_vec());
    assert_eq!(channels[0].logo, b"L".to_vec());
    assert_eq!(channels[0].group, b"G".to_vec());
    assert_eq!(channels[0].url, b"http://host/a".to_vec());
}

#[test]
fn url_line_without_metadata_is_dropped() {
    let channels = parse_m3u(b"http://host/a\n");
    assert_eq!(channels.len(), 0);
}

#[test]
fn empty_names_fall_back_to_placeholder() {
    let input = b"#EXTINF:-1 tvg-name=\"\" tvg-logo=\"\" group-title=\"\",\nhttp://host/a";
    let channels = parse_m3u(input);
    assert_eq!(channels.len(), 1);
    assert_eq!(channels[0].name, b"Bilinmeyen".to_vec());
    assert_eq!(channels[0].logo, b"".to_vec());
    assert_eq!(channels[0].group, b"".to_vec());
}

#[test]
fn missing_group_falls_back() {
    let input = b"#EXTINF:-1 tvg-name=\"X\",Name\nhttp://host/a";
    let channels = parse_m3u(input);
    assert_eq!(channels.len(), 1);
    assert_eq!(channels[0].group, b"Diger".to_vec());
}

#[test]
fn empty_display_name_falls_back_to_tvg_name() {
    let input = b"#EXTINF:-1 tvg-name=\"X\" tvg-logo=\"L\" group-title=\"G\",\nhttp://host/a";
    let channels = parse_m3u(input);
    assert_eq!(channels.len(), 1);
    assert_eq!(channels[0].name, b"X".to_vec());
}

#[test]
fn ids_follow_document_order() {
    let input = b"#EXTINF:-1 tvg-name=\"A\",A\nhttp://host/a\n#EXTINF:-1 tvg-name=\"B\",B\nhttp://host/b\n";
    let channels = parse_m3u(input);
    assert_eq!(channels.len(), 2);
    assert_eq!(channels[0].id, 0);
    assert_eq!(channels[0].name, b"A".to_vec());
    assert_eq!(channels[1].id, 1);
    assert_eq!(channels[1].url, b"http://host/b".to_vec());
}

#[test]
fn windows_line_endings_are_trimmed() {
    let input = b"#EXTINF:-1 tvg-name=\"X\",Name\r\nhttp://host/a\r\n";
    let channels = parse_m3u(input);
    assert_eq!(channels.len(), 1);
    assert_eq!(channels[0].url, b"http://host/a".to_vec());
}

#[test]
fn comment_lines_keep_pending_metadata() {
    let input = b"#EXTINF:-1 tvg-name=\"X\",Name\n#EXTVLCOPT:whatever\nhttp://host/a\n";
    let channels = parse_m3u(input);
    assert_eq!(channels.len(), 1);
    assert_eq!(channels[0].name, b"Name".to_vec());
}

#[test]
fn metadata_is_consumed_by_first_url() {
    let input = b"#EXTINF:-1 tvg-name=\"X\",Name\nhttp://host/a\nhttp://host/b\n";
    let channels = parse_m3u(input);
    assert_eq!(channels.len(), 1);
    assert_eq!(channels[0].url, b"http://host/a".to_vec());
}

#[test]
fn attribute_without_closing_quote_is_ignored() {
    let input = b"#EXTINF:-1 tvg-name=\"X,Name\nhttp://host/a\n";
    let channels = parse_m3u(input);
    assert_eq!(channels.len(), 1);
    // no closing quote: the attribute never matches, the display name wins
    assert_eq!(channels[0].name, b"Name".to_vec());
}

#[test]
fn empty_text_is_rejected() {
    let r = channels_from_text(b"");
    assert_eq!(r.err().unwrap(), "Empty response received".to_string());
}

#[test]
fn text_without_channels_is_rejected() {
    let r = channels_from_text(b"#EXTM3U\n# a comment\n");
    assert_eq!(r.err().unwrap(), "No channels found in M3U file".to_string());
}

#[test]
fn text_with_channels_is_accepted() {
    let r = channels_from_text(b"#EXTINF:-1 tvg-name=\"X\",Name\nhttp://host/a\n");
    let channels = r.ok().unwrap();
    assert_eq!(channels.len(), 1);
    assert_eq!(channels[0].name, b"Name".to_vec());
}
