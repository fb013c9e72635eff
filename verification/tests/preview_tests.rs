use std::cmp::Ordering;
use ytdownloader::format_order::compare_preview_formats;
use ytdownloader::json::{
    byte_label, duration_label, format_date, json_as_array, json_as_object, json_as_str, json_as_u64,
    json_get_member, str_member_of, string_from, two_digit_string, u64_member_of, JsonNumber, JsonValue,
};
use ytdownloader::preview::{
    build_preview, collect_formats, collect_subtitles, format_precedes, format_texts, playlist_entry_url, preview_format_rank,
    preview_resolution, publish_label, subtitle_entries, thumbnail_url, PreviewFormat,
};

fn s(text: &str) -> JsonValue {
    JsonValue::Str(text.to_string())
}

fn n(value: u64) -> JsonValue {
    JsonValue::Number(JsonNumber { unsigned: Some(value), rounded: value })
}

fn float(value: f64) -> JsonValue {
    JsonValue::Number(JsonNumber { unsigned: None, rounded: value.round() as u64 })
}

fn obj(members: Vec<(&str, JsonValue)>) -> JsonValue {
    JsonValue::Object(members.into_iter().map(|(k, v)| (k.to_string(), v)).collect())
}

fn arr(items: Vec<JsonValue>) -> JsonValue {
    JsonValue::Array(items)
}

fn expected_size(bytes: u64) -> String {
    let units = ["B", "KB", "MB", "GB", "TB"];
    let mut unit_index = 0usize;
    let mut size = bytes as f64;
    while size >= 1024.0 && unit_index < units.len() - 1 {
        size /= 1024.0;
        unit_index += 1;
    }
    format!("{size:.1} {}", units[unit_index])
}

fn format(kind: &str, label: &str) -> PreviewFormat {
    PreviewFormat {
        format_id: "f".to_string(),
        download_selector: "f".to_string(),
        label: label.to_string(),
        detail: String::new(),
        size: String::new(),
        kind: kind.to_string(),
    }
}

fn sample_formats() -> JsonValue {
    arr(vec![
        obj(vec![("format_id", s("sb0")), ("ext", s("mhtml")), ("vcodec", s("images"))]),
        obj(vec![
            ("format_id", s("140")),
            ("ext", s("m4a")),
            ("acodec", s("mp4a.40.2")),
            ("vcodec", s("none")),
            ("filesize", n(1048576)),
            ("format_note", s("medium")),
        ]),
        obj(vec![
            ("format_id", s("137")),
            ("ext", s("mp4")),
            ("acodec", s("none")),
            ("vcodec", s("avc1")),
            ("height", n(1080)),
            ("filesize_approx", n(2048)),
        ]),
        obj(vec![("format_id", s("22")), ("ext", s("mp4")), ("acodec", s("mp4a")), ("vcodec", s("avc1")), ("height", n(720))]),
        obj(vec![("format_id", s("18")), ("ext", s("mp4")), ("height", n(360))]),
        obj(vec![("format_id", s("x")), ("vcodec", s("avc1"))]),
        obj(vec![("ext", s("webm"))]),
        obj(vec![("format_id", s("sb1")), ("ext", s("mhtml")), ("vcodec", s("none"))]),
        obj(vec![("format_id", s("248")), ("ext", s("webm")), ("acodec", s("none")), ("vcodec", s("vp9")), ("height", n(1080))]),
        obj(vec![("format_id", s("x1")), ("ext", s("mp4")), ("vcodec", s("avc1")), ("acodec", s("none"))]),
        obj(vec![("format_id", n(5)), ("ext", s("mp4"))]),
    ])
}

#[test]
fn json_access() {
    let v = obj(vec![("a", s("x")), ("b", n(3)), ("c", arr(vec![n(1)])), ("d", obj(vec![])), ("a", s("second"))]);
    assert_eq!(json_get_member(&v, "a").and_then(json_as_str), Some("x"));
    assert_eq!(json_get_member(&v, "b").and_then(json_as_u64), Some(3));
    assert_eq!(json_get_member(&v, "c").and_then(json_as_array).map(|a| a.len()), Some(1));
    assert_eq!(json_get_member(&v, "d").and_then(json_as_object).map(|o| o.len()), Some(0));
    assert!(json_get_member(&v, "z").is_none());
    assert!(json_get_member(&s("x"), "a").is_none());
    assert_eq!(json_as_u64(&float(2.5)), None);
    assert_eq!(json_as_str(&n(1)), None);
    assert_eq!(str_member_of(&v, "a"), Some("x"));
    assert_eq!(str_member_of(&v, "b"), None);
    assert_eq!(u64_member_of(&v, "b"), Some(3));
    assert_eq!(u64_member_of(&v, "a"), None);
}

#[test]
fn strings_from_keys() {
    let v = obj(vec![("id", s("abc")), ("title", n(1)), ("uploader", s("me"))]);
    assert_eq!(string_from(&v, &vec!["title", "id"], "fallback".to_string()), "abc");
    assert_eq!(string_from(&v, &vec!["channel", "uploader"], "x".to_string()), "me");
    assert_eq!(string_from(&v, &vec!["nope"], "fallback".to_string()), "fallback");
    assert_eq!(string_from(&v, &Vec::new(), "f".to_string()), "f");
}

#[test]
fn dates() {
    assert_eq!(format_date("20240131"), "2024-01-31");
    assert_eq!(format_date("2024013"), "2024013");
    assert_eq!(format_date("2024013a"), "2024013a");
    assert_eq!(format_date("202401311"), "202401311");
    assert_eq!(format_date("２０２４０１３１"), "２０２４０１３１");
    assert_eq!(format_date(""), "");
}

#[test]
fn durations() {
    assert_eq!(duration_label(Some(&n(3725))), "01:02:05");
    assert_eq!(duration_label(Some(&n(59))), "00:59");
    assert_eq!(duration_label(Some(&n(0))), "00:00");
    assert_eq!(duration_label(Some(&n(360000))), "100:00:00");
    assert_eq!(duration_label(Some(&float(89.5))), "01:30");
    assert_eq!(duration_label(Some(&float(-3.0))), "00:00");
    assert_eq!(duration_label(Some(&s("12"))), "--:--");
    assert_eq!(duration_label(None), "--:--");
    assert_eq!(two_digit_string(7), "07");
    assert_eq!(two_digit_string(42), "42");
    assert_eq!(two_digit_string(123), "123");
}

#[test]
fn sizes_match_float_formatting() {
    assert_eq!(byte_label(None), "大小未知");
    assert_eq!(byte_label(Some(0)), "0.0 B");
    assert_eq!(byte_label(Some(1023)), "1023.0 B");
    assert_eq!(byte_label(Some(1024)), "1.0 KB");
    assert_eq!(byte_label(Some(1280)), expected_size(1280));
    assert_eq!(byte_label(Some(1048576)), "1.0 MB");
    let fixed = [
        1, 1023, 1024, 1075, 1126, 1127, 1280, 1536, 1048575, 1048576, 123456789, 1u64 << 40, 5u64 << 50,
        (1u64 << 53) + 1, (1u64 << 53) + 3, 1_000_000_000_000_000, u64::MAX, u64::MAX - 1, 1151, 1152, 1178, 1229,
    ];
    for b in fixed {
        assert_eq!(byte_label(Some(b)), expected_size(b), "bytes {}", b);
    }
    let mut x: u64 = 0x2545F4914F6CDD1D;
    for i in 0..3000 {
        x ^= x << 13;
        x ^= x >> 7;
        x ^= x << 17;
        let b = x >> (i % 64);
        assert_eq!(byte_label(Some(b)), expected_size(b), "bytes {}", b);
    }
}

#[test]
fn format_ranks_and_resolution() {
    assert_eq!(preview_format_rank(&format("video", "")), 3);
    assert_eq!(preview_format_rank(&format("combined", "")), 2);
    assert_eq!(preview_format_rank(&format("audio", "")), 1);
    assert_eq!(preview_format_rank(&format("other", "")), 0);
    assert_eq!(preview_resolution(&format("video", "1080p MP4")), 1080);
    assert_eq!(preview_resolution(&format("video", "MP4 720p")), 720);
    assert_eq!(preview_resolution(&format("video", "medium M4A")), 0);
    assert_eq!(preview_resolution(&format("video", "p MP4")), 0);
    assert_eq!(preview_resolution(&format("video", "abcp 480p")), 0);
    assert_eq!(preview_resolution(&format("video", "99999999999p X")), 0);
    assert_eq!(preview_resolution(&format("video", "-5p X")), -5);
    assert_eq!(preview_resolution(&format("video", "原始格式 MP4")), 0);
}

#[test]
fn format_comparison() {
    let a = format("video", "720p MP4");
    let b = format("combined", "1080p MP4");
    let c = format("video", "1080p WEBM");
    let d = format("video", "1080p MP4");
    assert_eq!(compare_preview_formats(&a, &b), Ordering::Less);
    assert_eq!(compare_preview_formats(&a, &c), Ordering::Greater);
    assert_eq!(compare_preview_formats(&d, &c), Ordering::Less);
    assert_eq!(compare_preview_formats(&d, &d), Ordering::Equal);
    assert!(format_precedes(&d, &c));
    assert!(!format_precedes(&c, &d));
    assert!(!format_precedes(&d, &d));
}

#[test]
fn formats_are_filtered_and_ordered() {
    let root = obj(vec![("formats", sample_formats())]);
    let formats = collect_formats(&root, "en");
    let ids: Vec<&str> = formats.iter().map(|f| f.format_id.as_str()).collect();
    assert_eq!(ids, vec!["137", "248", "x1", "22", "18", "140"]);

    let video = &formats[0];
    assert_eq!(video.label, "1080p MP4");
    assert_eq!(video.detail, "Video Only / MP4 / Auto-pair best audio");
    assert_eq!(video.download_selector, "137+bestaudio[acodec^=mp4a]/bestaudio[ext=m4a]/bestaudio/best");
    assert_eq!(video.size, "2.0 KB");
    assert_eq!(video.kind, "video");

    assert_eq!(formats[2].label, "原始格式 MP4");
    assert_eq!(formats[3].detail, "Muxed / MP4");
    assert_eq!(formats[3].size, "大小未知");
    assert_eq!(formats[4].kind, "combined");

    let audio = &formats[5];
    assert_eq!(audio.label, "medium M4A");
    assert_eq!(audio.detail, "Audio Only / MP4A.40.2");
    assert_eq!(audio.download_selector, "140");
    assert_eq!(audio.size, "1.0 MB");
    assert_eq!(audio.kind, "audio");

    let zh = collect_formats(&root, "zh-CN");
    assert_eq!(zh[0].detail, "仅视频 / MP4 / 自动搭配最佳音频");
    assert_eq!(zh[3].detail, "音画合流 / MP4");
    assert_eq!(zh[5].detail, "仅音频 / MP4A.40.2");

    assert!(collect_formats(&obj(vec![]), "en").is_empty());
    assert!(collect_formats(&obj(vec![("formats", s("x"))]), "en").is_empty());
}

#[test]
fn subtitles_manual_first_then_automatic_at_most_eight() {
    let root = obj(vec![
        (
            "subtitles",
            obj(vec![
                ("de", arr(vec![obj(vec![("url", s("x"))])])),
                ("en", arr(vec![obj(vec![("ext", s("srt"))]), obj(vec![("ext", s("vtt"))])])),
                ("es", s("not a list")),
                ("fr", arr(vec![])),
            ]),
        ),
        (
            "automatic_captions",
            obj((0..9).map(|i| (["a0", "a1", "a2", "a3", "a4", "a5", "a6", "a7", "a8"][i], arr(vec![obj(vec![("ext", s("srv3"))])]))).collect()),
        ),
    ]);
    let subs = collect_subtitles(&root);
    assert_eq!(subs.len(), 8);
    assert_eq!((subs[0].language.as_str(), subs[0].subtitle_type.as_str(), subs[0].format.as_str()), ("de", "manual", "vtt"));
    assert_eq!((subs[1].language.as_str(), subs[1].subtitle_type.as_str(), subs[1].format.as_str()), ("en", "manual", "srt"));
    assert_eq!((subs[2].language.as_str(), subs[2].subtitle_type.as_str(), subs[2].format.as_str()), ("a0", "auto", "srv3"));
    assert_eq!(subs[7].language, "a5");

    let only_auto = subtitle_entries(&vec![("ja".to_string(), arr(vec![obj(vec![])]))], "auto");
    assert_eq!(only_auto.len(), 1);
    assert_eq!(only_auto[0].format, "vtt");
    assert!(collect_subtitles(&obj(vec![])).is_empty());
}

#[test]
fn dates_thumbnails_and_entry_links() {
    assert_eq!(publish_label(&obj(vec![("upload_date", s("20240131"))])), "2024-01-31");
    assert_eq!(publish_label(&obj(vec![("release_date", n(5)), ("modified_date", s("x"))])), "x");
    assert_eq!(publish_label(&obj(vec![])), "Unknown");

    assert_eq!(thumbnail_url(&obj(vec![("thumbnail", s("t.jpg"))])), "t.jpg");
    assert_eq!(
        thumbnail_url(&obj(vec![("thumbnails", arr(vec![obj(vec![("url", s("a"))]), obj(vec![("url", s("b"))])]))])),
        "b"
    );
    let default = "https://images.unsplash.com/photo-1498050108023-c5249f4df085?auto=format&fit=crop&w=1200&q=80";
    assert_eq!(thumbnail_url(&obj(vec![("thumbnails", arr(vec![obj(vec![("url", s("a"))]), obj(vec![])]))])), default);
    assert_eq!(thumbnail_url(&obj(vec![])), default);

    assert_eq!(playlist_entry_url(&obj(vec![("webpage_url", s("https://w")), ("url", s("u"))])), "https://w");
    assert_eq!(playlist_entry_url(&obj(vec![("url", s("http://x"))])), "http://x");
    assert_eq!(playlist_entry_url(&obj(vec![("url", s("abc123"))])), "https://www.youtube.com/watch?v=abc123");
    assert_eq!(playlist_entry_url(&obj(vec![])), "");
}

#[test]
fn single_video_preview() {
    let root = obj(vec![
        ("id", s("abc")),
        ("uploader", s("Someone")),
        ("duration", float(125.4)),
        ("extractor", s("youtube")),
        ("upload_date", s("20230102")),
        ("formats", sample_formats()),
    ]);
    let p = build_preview(&root, "https://youtu.be/abc".to_string(), "en");
    assert_eq!(p.title, "abc");
    assert_eq!(p.creator, "Someone");
    assert_eq!(p.duration, "02:05");
    assert_eq!(p.platform, "youtube");
    assert_eq!(p.published_at, "2023-01-02");
    assert_eq!(p.formats.len(), 6);
    assert!(p.subtitles.is_empty());
    assert!(p.playlist_entries.is_empty());
    assert!(!p.is_playlist);
    assert_eq!(p.total_entries, 1);
    assert_eq!(p.source_url, "https://youtu.be/abc");
}

#[test]
fn playlist_preview() {
    let root = obj(vec![
        ("title", s("My list")),
        ("playlist_uploader", s("Owner")),
        ("extractor_key", s("YoutubeTab")),
        (
            "entries",
            arr(vec![
                obj(vec![("title", s("One")), ("duration", n(61)), ("url", s("id1"))]),
                obj(vec![("id", s("id2")), ("webpage_url", s("https://www.youtube.com/watch?v=id2"))]),
                obj(vec![]),
            ]),
        ),
    ]);
    let p = build_preview(&root, "u".to_string(), "zh");
    assert_eq!(p.title, "My list");
    assert_eq!(p.creator, "Owner");
    assert_eq!(p.platform, "YoutubeTab");
    assert_eq!(p.duration, "--:--");
    assert_eq!(p.published_at, "Unknown");
    assert!(p.is_playlist);
    assert_eq!(p.total_entries, 3);
    assert_eq!(p.playlist_entries.len(), 3);
    let e = &p.playlist_entries;
    assert_eq!((e[0].index, e[0].title.as_str(), e[0].duration.as_str()), (1, "One", "01:01"));
    assert_eq!(e[0].source_url, "https://www.youtube.com/watch?v=id1");
    assert_eq!((e[1].index, e[1].title.as_str()), (2, "id2"));
    assert_eq!(e[1].source_url, "https://www.youtube.com/watch?v=id2");
    assert_eq!((e[2].index, e[2].title.as_str(), e[2].duration.as_str()), (3, "Untitled playlist item", "--:--"));
    assert_eq!(e[2].source_url, "");
    assert!(p.formats.is_empty());

    let counted = obj(vec![("playlist_count", n(42)), ("entries", arr(vec![obj(vec![])]))]);
    let q = build_preview(&counted, "u".to_string(), "en");
    assert_eq!(q.total_entries, 42);
    assert_eq!(q.title, "Untitled media");
    assert_eq!(q.creator, "Unknown creator");
    assert_eq!(q.platform, "Unknown");
    assert_eq!(
        q.thumbnail,
        "https://images.unsplash.com/photo-1498050108023-c5249f4df085?auto=format&fit=crop&w=1200&q=80"
    );
}

#[test]
fn format_texts_from_capitals() {
    assert_eq!(
        format_texts("video", "1080p", "MP4", "NONE", "en"),
        ("1080p MP4".to_string(), "Video Only / MP4 / Auto-pair best audio".to_string())
    );
    assert_eq!(format_texts("audio", "medium", "M4A", "OPUS", "zh"), ("medium M4A".to_string(), "仅音频 / OPUS".to_string()));
    assert_eq!(format_texts("combined", "360p", "webm", "x", "en"), ("360p webm".to_string(), "Muxed / webm".to_string()));
    assert_eq!(format_texts("combined", "360p", "MP4", "x", "zh"), ("360p MP4".to_string(), "音画合流 / MP4".to_string()));
    assert_eq!(
        format_texts("video", "原始格式", "MP4", "x", "zh"),
        ("原始格式 MP4".to_string(), "仅视频 / MP4 / 自动搭配最佳音频".to_string())
    );
}
