use iptv_player::subtitles::{
    download_url_for, search_url, subtitles_from_items, SubtitleCandidate, MAX_SUBTITLE_RESULTS,
};

fn candidate(url: Option<&str>, language: Option<&str>, release: Option<&str>) -> SubtitleCandidate {
    SubtitleCandidate {
        url: url.map(|s| s.to_string()),
        language: language.map(|s| s.to_string()),
        release_name: release.map(|s| s.to_string()),
    }
}

#[test]
fn results_are_capped_at_the_documented_maximum() {
    let mut items = Vec::new();
    for i in 0..15 {
        items.push(candidate(Some(&format!("/s/{}.zip", i)), Some("tr"), Some("r")));
    }
    let subs = subtitles_from_items(items);
    assert_eq!(subs.len(), MAX_SUBTITLE_RESULTS);
    assert_eq!(subs.len(), 10);
    assert_eq!(subs[0].download_url, "/s/0.zip".to_string());
    assert_eq!(subs[9].download_url, "/s/9.zip".to_string());
}

#[test]
fn missing_fields_get_fallbacks_and_urlless_items_are_dropped() {
    let items = vec![
        candidate(Some("/a.zip"), None, None),
        candidate(None, Some("en"), Some("lost")),
        candidate(Some("/b.zip"), Some("en"), Some("kept")),
    ];
    let subs = subtitles_from_items(items);
    assert_eq!(subs.len(), 2);
    assert_eq!(subs[0].id, "/a.zip".to_string());
    assert_eq!(subs[0].download_url, "/a.zip".to_string());
    assert_eq!(subs[0].language, "tr".to_string());
    assert_eq!(subs[0].release_name, "Unknown".to_string());
    assert_eq!(subs[1].language, "en".to_string());
    assert_eq!(subs[1].release_name, "kept".to_string());
}

#[test]
fn only_the_first_ten_candidates_are_considered() {
    // Ten candidates without a URL fill the window; the good one after
    // them is never reached.
    let mut items = Vec::new();
    for _ in 0..10 {
        items.push(candidate(None, None, None));
    }
    items.push(candidate(Some("/late.zip"), None, None));
    let subs = subtitles_from_items(items);
    assert_eq!(subs.len(), 0);
}

#[test]
fn search_url_percent_encodes_the_query() {
    assert_eq!(
        search_url("dark knight"),
        "https://api.subdl.com/api/v1/subtitles?film_name=dark%20knight&languages=tr".to_string()
    );
    assert_eq!(
        search_url(""),
        "https://api.subdl.com/api/v1/subtitles?film_name=&languages=tr".to_string()
    );
}

#[test]
fn download_url_keeps_absolute_urls() {
    assert_eq!(
        download_url_for("https://dl.subdl.com/x.zip".to_string()),
        "https://dl.subdl.com/x.zip".to_string()
    );
    assert_eq!(
        download_url_for("http://mirror/x.zip".to_string()),
        "http://mirror/x.zip".to_string()
    );
}

#[test]
fn download_url_prefixes_bare_identifiers() {
    assert_eq!(
        download_url_for("/subtitle/abc.zip".to_string()),
        "https://dl.subdl.com/subtitle/abc.zip".to_string()
    );
    assert_eq!(download_url_for("htt".to_string()), "https://dl.subdl.comhtt".to_string());
}
