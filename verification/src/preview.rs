//! The preview of a link built from yt-dlp's description of it: title,
//! creator, formats (best first), subtitles and playlist entries.
use vstd::prelude::*;
use crate::json::{
    byte_label, date_label, duration_label, duration_text, format_date, json_array, json_as_array, json_as_object,
    json_get, json_get_member, json_object, json_str, str_member, str_member_of, string_from, string_from_keys,
    size_text, u64_member, u64_member_of, JsonValue,
};
use crate::output::index_of_space;
use crate::settings::{english_spec, is_english};
use crate::text::{
    begins_with, chars_less, chars_of, concat, decimal, decimal_string, is_space, parse_i32, parsed_i32,
    slice_chars, str_equal, str_starts_with, text_less, to_uppercase, trim_start, unicode_uppercase,
    lemma_trim_start_is_suffix, char_is_space, lemma_text_less_asymmetric, lemma_text_less_transitive,
};

verus! {

/// A downloadable format of a link.
#[derive(Debug)]
pub struct PreviewFormat {
    pub format_id: String,
    pub download_selector: String,
    pub label: String,
    pub detail: String,
    pub size: String,
    pub kind: String,
}

/// The texts of a format.
pub struct PreviewFormatView {
    pub format_id: Seq<char>,
    pub download_selector: Seq<char>,
    pub label: Seq<char>,
    pub detail: Seq<char>,
    pub size: Seq<char>,
    pub kind: Seq<char>,
}

impl View for PreviewFormat {
    type V = PreviewFormatView;

    open spec fn view(&self) -> PreviewFormatView {
        PreviewFormatView {
            format_id: self.format_id@,
            download_selector: self.download_selector@,
            label: self.label@,
            detail: self.detail@,
            size: self.size@,
            kind: self.kind@,
        }
    }
}

/// A subtitle track of a link.
#[derive(Debug)]
pub struct PreviewSubtitle {
    pub language: String,
    pub subtitle_type: String,
    pub format: String,
}

/// One entry of a playlist.
#[derive(Debug)]
pub struct PlaylistEntry {
    pub index: usize,
    pub title: String,
    pub duration: String,
    pub source_url: String,
}

/// The preview of a link.
#[derive(Debug)]
pub struct MediaPreview {
    pub title: String,
    pub creator: String,
    pub duration: String,
    pub platform: String,
    pub published_at: String,
    pub thumbnail: String,
    pub formats: Vec<PreviewFormat>,
    pub subtitles: Vec<PreviewSubtitle>,
    pub playlist_entries: Vec<PlaylistEntry>,
    pub source_url: String,
    pub is_playlist: bool,
    pub total_entries: usize,
}

// ---------------------------------------------------------------------------
// Specifications
// ---------------------------------------------------------------------------

/// The selector that pairs a video-only format with the best audio.
pub open spec fn video_selector(format_id: Seq<char>) -> Seq<char> {
    format_id + "+bestaudio[acodec^=mp4a]/bestaudio[ext=m4a]/bestaudio/best"@
}

/// The string member `key`, or `fallback`.
pub open spec fn str_member_or(v: JsonValue, key: Seq<char>, fallback: Seq<char>) -> Seq<char> {
    match str_member(v, key) {
        Some(s) => s,
        None => fallback,
    }
}

/// The label of a format: its resolution and its extension in capitals.
pub open spec fn format_label_text(resolution: Seq<char>, ext_upper: Seq<char>) -> Seq<char> {
    resolution + " "@ + ext_upper
}

/// The detail line of a format of `kind`, given its extension and audio codec
/// in capitals.
pub open spec fn format_detail_text(kind: Seq<char>, ext_upper: Seq<char>, acodec_upper: Seq<char>, english: bool) -> Seq<char> {
    if kind == "audio"@ {
        if english {
            "Audio Only / "@ + acodec_upper
        } else {
            "仅音频 / "@ + acodec_upper
        }
    } else if kind == "video"@ {
        if english {
            "Video Only / "@ + ext_upper + " / Auto-pair best audio"@
        } else {
            "仅视频 / "@ + ext_upper + " / 自动搭配最佳音频"@
        }
    } else if english {
        "Muxed / "@ + ext_upper
    } else {
        "音画合流 / "@ + ext_upper
    }
}

/// The format a member of yt-dlp's `formats` list becomes; `None` for
/// members without `ext` or `format_id`, storyboards and image formats.
pub open spec fn format_view_of(item: JsonValue, language: Seq<char>) -> Option<PreviewFormatView> {
    let english = english_spec(language);
    match (str_member(item, "format_id"@), str_member(item, "ext"@)) {
        (Some(format_id), Some(ext)) => {
            let acodec = str_member_or(item, "acodec"@, "unknown"@);
            let vcodec = str_member_or(item, "vcodec"@, "unknown"@);
            let resolution = match u64_member(item, "height"@) {
                Some(h) => decimal(h as nat) + "p"@,
                None => str_member_or(item, "format_note"@, "原始格式"@),
            };
            let kind = if vcodec == "none"@ {
                "audio"@
            } else if acodec == "none"@ {
                "video"@
            } else {
                "combined"@
            };
            let detail = format_detail_text(kind, unicode_uppercase(ext), unicode_uppercase(acodec), english);
            let size = size_text(
                match u64_member(item, "filesize"@) {
                    Some(b) => Some(b),
                    None => u64_member(item, "filesize_approx"@),
                },
            );
            if vcodec == "images"@ || begins_with(format_id, "sb"@) {
                None
            } else {
                Some(
                    PreviewFormatView {
                        format_id,
                        download_selector: if kind == "video"@ {
                            video_selector(format_id)
                        } else {
                            format_id
                        },
                        label: format_label_text(resolution, unicode_uppercase(ext)),
                        detail,
                        size,
                        kind,
                    },
                )
            }
        },
        _ => None,
    }
}

/// The formats of a list of members, in the list's order.
pub open spec fn format_views(items: Seq<JsonValue>, language: Seq<char>) -> Seq<PreviewFormatView>
    decreases items.len(),
{
    if items.len() == 0 {
        Seq::empty()
    } else {
        let rest = format_views(items.drop_last(), language);
        match format_view_of(items.last(), language) {
            Some(f) => rest.push(f),
            None => rest,
        }
    }
}

/// The rank of a format kind: video-only first, then muxed, then audio.
pub open spec fn kind_rank(kind: Seq<char>) -> int {
    if kind == "video"@ {
        3
    } else if kind == "combined"@ {
        2
    } else if kind == "audio"@ {
        1
    } else {
        0
    }
}

/// The first whitespace-separated word of `s` that ends in `p`, without the `p`.
pub open spec fn first_p_word(s: Seq<char>) -> Option<Seq<char>>
    decreases s.len(),
{
    let t = trim_start(s);
    if t.len() == 0 {
        None
    } else {
        proof {
            lemma_trim_start_is_suffix(s);
            lemma_index_of_space_bound(t);
        }
        let w = t.take(index_of_space(t) as int);
        if w.last() == 'p' {
            Some(w.drop_last())
        } else {
            first_p_word(t.skip(w.len() as int))
        }
    }
}

/// The height a format label names (`720p`), 0 when it names none.
pub open spec fn label_resolution(label: Seq<char>) -> int {
    match first_p_word(label) {
        Some(w) => match parsed_i32(w) {
            Some(v) => v as int,
            None => 0,
        },
        None => 0,
    }
}

/// `a` is listed before `b`: higher rank, then higher resolution, then the
/// label in text order.
pub open spec fn precedes(a: PreviewFormatView, b: PreviewFormatView) -> bool {
    let ra = kind_rank(a.kind);
    let rb = kind_rank(b.kind);
    let xa = label_resolution(a.label);
    let xb = label_resolution(b.label);
    ra > rb || (ra == rb && xa > xb) || (ra == rb && xa == xb && text_less(a.label, b.label))
}

/// The first index at or after `k` whose format `x` precedes, or the length.
pub open spec fn insert_position(s: Seq<PreviewFormatView>, x: PreviewFormatView, k: int) -> int
    decreases s.len() - k,
{
    if k >= s.len() {
        s.len() as int
    } else if precedes(x, s[k]) {
        k
    } else {
        insert_position(s, x, k + 1)
    }
}

/// The formats in listing order, equal ones in the order they came in (what
/// a stable sort with `compare_preview_formats` gives).
pub open spec fn sorted_formats(s: Seq<PreviewFormatView>) -> Seq<PreviewFormatView>
    decreases s.len(),
{
    if s.len() == 0 {
        s
    } else {
        let r = sorted_formats(s.drop_last());
        r.insert(insert_position(r, s.last(), 0), s.last())
    }
}

/// The formats of a description, best first.
pub open spec fn preview_formats(root: JsonValue, language: Seq<char>) -> Seq<PreviewFormatView> {
    match json_get(root, "formats"@) {
        Some(f) => match json_array(f) {
            Some(items) => sorted_formats(format_views(items, language)),
            None => Seq::empty(),
        },
        None => Seq::empty(),
    }
}

/// The view of each format.
pub open spec fn format_list_view(v: Seq<PreviewFormat>) -> Seq<PreviewFormatView> {
    v.map_values(|f: PreviewFormat| f@)
}

/// The subtitle tracks of a `subtitles` or `automatic_captions` object:
/// (language, type, format) for each member whose value is a non-empty list.
pub open spec fn subtitle_views(members: Seq<(String, JsonValue)>, kind: Seq<char>) -> Seq<(Seq<char>, Seq<char>, Seq<char>)>
    decreases members.len(),
{
    if members.len() == 0 {
        Seq::empty()
    } else {
        let rest = subtitle_views(members.drop_last(), kind);
        let (lang, value) = members.last();
        match json_array(value) {
            Some(a) => if a.len() > 0 {
                rest.push((lang@, kind, str_member_or(a[0], "ext"@, "vtt"@)))
            } else {
                rest
            },
            None => rest,
        }
    }
}

/// The subtitle tracks of an object member of the description.
pub open spec fn subtitle_group(root: JsonValue, key: Seq<char>, kind: Seq<char>) -> Seq<(Seq<char>, Seq<char>, Seq<char>)> {
    match json_get(root, key) {
        Some(v) => match json_object(v) {
            Some(m) => subtitle_views(m, kind),
            None => Seq::empty(),
        },
        None => Seq::empty(),
    }
}

/// The subtitle tracks of a description: manual ones first, at most eight.
pub open spec fn preview_subtitles(root: JsonValue) -> Seq<(Seq<char>, Seq<char>, Seq<char>)> {
    let all = subtitle_group(root, "subtitles"@, "manual"@) + subtitle_group(
        root,
        "automatic_captions"@,
        "auto"@,
    );
    if all.len() > 8 {
        all.take(8)
    } else {
        all
    }
}

/// The view of each subtitle track.
pub open spec fn subtitle_list_view(v: Seq<PreviewSubtitle>) -> Seq<(Seq<char>, Seq<char>, Seq<char>)> {
    v.map_values(|s: PreviewSubtitle| (s.language@, s.subtitle_type@, s.format@))
}

/// The first of the keys whose member is a string.
pub open spec fn first_str_member(v: JsonValue, keys: Seq<Seq<char>>) -> Option<Seq<char>>
    decreases keys.len(),
{
    if keys.len() == 0 {
        None
    } else {
        match str_member(v, keys[0]) {
            Some(s) => Some(s),
            None => first_str_member(v, keys.drop_first()),
        }
    }
}

/// The publication date shown for a description.
pub open spec fn publish_text(root: JsonValue) -> Seq<char> {
    match first_str_member(root, seq!["upload_date"@, "release_date"@, "modified_date"@]) {
        Some(d) => date_label(d),
        None => "Unknown"@,
    }
}

/// The picture shown when a description names none.
pub open spec fn default_thumbnail() -> Seq<char> {
    "https://images.unsplash.com/photo-1498050108023-c5249f4df085?auto=format&fit=crop&w=1200&q=80"@
}

/// The thumbnail of a description: `thumbnail`, else the `url` of the last
/// of `thumbnails`, else a default picture.
pub open spec fn thumbnail_text(root: JsonValue) -> Seq<char> {
    match str_member(root, "thumbnail"@) {
        Some(t) => t,
        None => {
            let last = match json_get(root, "thumbnails"@) {
                Some(v) => match json_array(v) {
                    Some(a) => if a.len() > 0 {
                        str_member(a.last(), "url"@)
                    } else {
                        None
                    },
                    None => None,
                },
                None => None,
            };
            match last {
                Some(u) => u,
                None => default_thumbnail(),
            }
        },
    }
}

/// The link of a playlist entry: `webpage_url`, else `url` (a YouTube video
/// identifier when it is not a web address), else nothing.
pub open spec fn entry_url_text(entry: JsonValue) -> Seq<char> {
    match str_member(entry, "webpage_url"@) {
        Some(u) => u,
        None => match str_member(entry, "url"@) {
            Some(u) => if begins_with(u, "http://"@) || begins_with(u, "https://"@) {
                u
            } else {
                "https://www.youtube.com/watch?v="@ + u
            },
            None => Seq::empty(),
        },
    }
}

/// The playlist entries of a description: position (from 1), title,
/// duration and link of each member of `entries`.
pub open spec fn entry_views(entries: Seq<JsonValue>) -> Seq<(int, Seq<char>, Seq<char>, Seq<char>)> {
    Seq::new(
        entries.len(),
        |i: int|
            (
                i + 1,
                string_from_keys(entries[i], seq!["title"@, "id"@], "Untitled playlist item"@),
                duration_text(json_get(entries[i], "duration"@)),
                entry_url_text(entries[i]),
            ),
    )
}

/// The `entries` list of a description, empty when there is none.
pub open spec fn entries_of(root: JsonValue) -> Seq<JsonValue> {
    match json_get(root, "entries"@) {
        Some(v) => match json_array(v) {
            Some(a) => a,
            None => Seq::empty(),
        },
        None => Seq::empty(),
    }
}

/// The view of each playlist entry.
pub open spec fn entry_list_view(v: Seq<PlaylistEntry>) -> Seq<(int, Seq<char>, Seq<char>, Seq<char>)> {
    v.map_values(|e: PlaylistEntry| (e.index as int, e.title@, e.duration@, e.source_url@))
}

/// The number of entries: `playlist_count`, else the length of `entries`, else 1.
pub open spec fn total_entries_of(root: JsonValue) -> int {
    match u64_member(root, "playlist_count"@) {
        Some(c) => (c as usize) as int,
        None => match json_get(root, "entries"@) {
            Some(v) => match json_array(v) {
                Some(a) => a.len() as int,
                None => 1,
            },
            None => 1,
        },
    }
}

/// `p` is the preview `build_preview` makes of a description.
pub open spec fn is_preview_of(p: MediaPreview, root: JsonValue, source_url: Seq<char>, language: Seq<char>) -> bool {
    &&& p.title@ == string_from_keys(root, seq!["title"@, "id"@], "Untitled media"@)
    &&& p.creator@ == string_from_keys(
        root,
        seq!["channel"@, "uploader"@, "playlist_uploader"@, "extractor"@],
        "Unknown creator"@,
    )
    &&& p.duration@ == duration_text(json_get(root, "duration"@))
    &&& p.platform@ == string_from_keys(
        root,
        seq!["extractor_key"@, "extractor"@, "webpage_url_domain"@],
        "Unknown"@,
    )
    &&& p.published_at@ == publish_text(root)
    &&& p.thumbnail@ == thumbnail_text(root)
    &&& format_list_view(p.formats@) == preview_formats(root, language)
    &&& subtitle_list_view(p.subtitles@) == preview_subtitles(root)
    &&& entry_list_view(p.playlist_entries@) == entry_views(entries_of(root))
    &&& p.source_url@ == source_url
    &&& p.is_playlist == (entries_of(root).len() > 0)
    &&& p.total_entries as int == total_entries_of(root)
}

// ---------------------------------------------------------------------------
// Lemmas
// ---------------------------------------------------------------------------

pub proof fn lemma_index_of_space_bound(t: Seq<char>)
    ensures
        index_of_space(t) <= t.len(),
        t.len() > 0 && !is_space(t[0]) ==> index_of_space(t) >= 1,
        forall|j: int| 0 <= j < index_of_space(t) ==> !is_space(t[j]),
        index_of_space(t) < t.len() ==> is_space(t[index_of_space(t) as int]),
    decreases t.len(),
{
    if t.len() > 0 && !is_space(t[0]) {
        lemma_index_of_space_bound(t.drop_first());
        assert forall|j: int| 0 <= j < index_of_space(t) implies !is_space(t[j]) by {
            if j > 0 {
                assert(t[j] == t.drop_first()[j - 1]);
            }
        }
    }
}

// ---------------------------------------------------------------------------
// Executable functions
// ---------------------------------------------------------------------------

/// `preview_format_rank`.
pub fn preview_format_rank(format: &PreviewFormat) -> (r: i32)
    ensures
        r as int == kind_rank(format.kind@),
{
    let k = format.kind.as_str();
    if str_equal(k, "video") {
        3
    } else if str_equal(k, "combined") {
        2
    } else if str_equal(k, "audio") {
        1
    } else {
        0
    }
}

/// The first word of `v` that ends in `p`, without the `p`.
fn first_p_word_of(v: &Vec<char>) -> (r: Option<Vec<char>>)
    ensures
        match first_p_word(v@) {
            Some(w) => r matches Some(x) && x@ == w,
            None => r is None,
        },
{
    let n = v.len();
    let mut i: usize = 0;
    assert(v@.skip(0) =~= v@);
    loop
        invariant
            n == v.len(),
            i <= n,
            first_p_word(v@) == first_p_word(v@.skip(i as int)),
        decreases n - i,
    {
        let ghost s = v@.skip(i as int);
        let mut a: usize = i;
        assert(s.skip(0) =~= s);
        while a < n && char_is_space(v[a])
            invariant
                i <= a <= n,
                n == v.len(),
                s == v@.skip(i as int),
                trim_start(s) == trim_start(v@.skip(a as int)),
            decreases n - a,
        {
            assert(v@.skip(a as int).drop_first() =~= v@.skip(a + 1));
            assert(v@.skip(a as int)[0] == v@[a as int]);
            a = a + 1;
        }
        assert(trim_start(s) == v@.skip(a as int)) by {
            if a < n {
                assert(v@.skip(a as int)[0] == v@[a as int]);
            }
        }
        if a == n {
            return None;
        }
        let ghost t = v@.skip(a as int);
        let mut b: usize = a;
        while b < n && !char_is_space(v[b])
            invariant
                a <= b <= n,
                n == v.len(),
                t == v@.skip(a as int),
                index_of_space(t) == (b - a) + index_of_space(v@.skip(b as int)),
            decreases n - b,
        {
            assert(v@.skip(b as int).drop_first() =~= v@.skip(b + 1));
            assert(v@.skip(b as int)[0] == v@[b as int]);
            b = b + 1;
        }
        assert(index_of_space(v@.skip(b as int)) == 0) by {
            if b < n {
                assert(v@.skip(b as int)[0] == v@[b as int]);
            }
        }
        proof {
            lemma_trim_start_is_suffix(s);
            lemma_index_of_space_bound(t);
        }
        assert(t.take(index_of_space(t) as int) =~= v@.subrange(a as int, b as int));
        if v[b - 1] == 'p' {
            let w = slice_chars(v, a, b - 1);
            assert(w@ =~= t.take(index_of_space(t) as int).drop_last());
            return Some(w);
        }
        assert(t.skip((b - a) as int) =~= v@.skip(b as int));
        i = b;
    }
}

/// `preview_resolution`: the height a format's label names, 0 when none.
pub fn preview_resolution(format: &PreviewFormat) -> (r: i32)
    ensures
        r as int == label_resolution(format.label@),
{
    let v = chars_of(format.label.as_str());
    match first_p_word_of(&v) {
        Some(w) => match parse_i32(&w) {
            Some(x) => x,
            None => 0,
        },
        None => 0,
    }
}

/// `a` is listed before `b`.
pub fn format_precedes(a: &PreviewFormat, b: &PreviewFormat) -> (r: bool)
    ensures
        r == precedes(a@, b@),
{
    let ra = preview_format_rank(a);
    let rb = preview_format_rank(b);
    if ra != rb {
        return ra > rb;
    }
    let xa = preview_resolution(a);
    let xb = preview_resolution(b);
    if xa != xb {
        return xa > xb;
    }
    let la = chars_of(a.label.as_str());
    let lb = chars_of(b.label.as_str());
    chars_less(&la, &lb)
}

/// The formats sorted best first, equal ones in the order they came in.
fn sort_formats(items: Vec<PreviewFormat>) -> (r: Vec<PreviewFormat>)
    ensures
        format_list_view(r@) == sorted_formats(format_list_view(items@)),
{
    let ghost all = format_list_view(items@);
    let mut items = items;
    let mut out: Vec<PreviewFormat> = Vec::new();
    let ghost mut taken: nat = 0;
    while items.len() > 0
        invariant
            taken + items@.len() == all.len(),
            format_list_view(items@) == all.skip(taken as int),
            format_list_view(out@) == sorted_formats(all.take(taken as int)),
        decreases items.len(),
    {
        let ghost old_items = items@;
        let x = items.remove(0);
        let ghost xv = x@;
        assert forall|j: int| 0 <= j < items@.len() implies #[trigger] format_list_view(items@)[j] == all.skip(
            taken + 1int,
        )[j] by {
            assert(items@[j] == old_items[j + 1]);
            assert(format_list_view(old_items)[j + 1] == all.skip(taken as int)[j + 1]);
        }
        assert(xv == all[taken as int]) by {
            assert(all.skip(taken as int)[0] == all[taken as int]);
        }
        let mut p: usize = 0;
        let ghost cur = format_list_view(out@);
        while p < out.len() && !format_precedes(&x, &out[p])
            invariant
                p <= out@.len(),
                cur == format_list_view(out@),
                xv == x@,
                insert_position(cur, xv, 0) == insert_position(cur, xv, p as int),
            decreases out.len() - p,
        {
            p = p + 1;
        }
        out.insert(p, x);
        proof {
            assert(all.take(taken + 1int).drop_last() =~= all.take(taken as int));
            assert(all.take(taken + 1int).last() == xv);
            assert(format_list_view(out@) =~= cur.insert(p as int, xv));
            assert(format_list_view(items@) =~= all.skip(taken + 1int));
            taken = taken + 1;
        }
    }
    assert(all.take(all.len() as int) =~= all);
    out
}

/// The label and the detail line of a format of `kind`, given its
/// resolution, and its extension and audio codec in capitals.
pub fn format_texts(kind: &str, resolution: &str, ext_upper: &str, acodec_upper: &str, language: &str) -> (r: (
    String,
    String,
))
    ensures
        r.0@ == format_label_text(resolution@, ext_upper@),
        r.1@ == format_detail_text(kind@, ext_upper@, acodec_upper@, english_spec(language@)),
{
    let english = is_english(language);
    proof {
        reveal_strlit("audio");
        reveal_strlit("video");
    }
    let detail = if str_equal(kind, "audio") {
        if english {
            concat("Audio Only / ", acodec_upper)
        } else {
            concat("仅音频 / ", acodec_upper)
        }
    } else if str_equal(kind, "video") {
        if english {
            let t = concat("Video Only / ", ext_upper);
            concat(t.as_str(), " / Auto-pair best audio")
        } else {
            let t = concat("仅视频 / ", ext_upper);
            concat(t.as_str(), " / 自动搭配最佳音频")
        }
    } else if english {
        concat("Muxed / ", ext_upper)
    } else {
        concat("音画合流 / ", ext_upper)
    };
    let head = concat(resolution, " ");
    (concat(head.as_str(), ext_upper), detail)
}

/// The format a member of `formats` becomes.
fn build_format(item: &JsonValue, language: &str) -> (r: Option<PreviewFormat>)
    ensures
        match format_view_of(*item, language@) {
            Some(f) => r matches Some(x) && x@ == f,
            None => r is None,
        },
{
    let format_id = match str_member_of(item, "format_id") {
        Some(f) => f,
        None => {
            return None;
        },
    };
    let ext = match str_member_of(item, "ext") {
        Some(e) => e,
        None => {
            return None;
        },
    };
    let acodec = match str_member_of(item, "acodec") {
        Some(a) => a,
        None => "unknown",
    };
    let resolution = match u64_member_of(item, "height") {
        Some(h) => {
            let d = decimal_string(h as u128);
            concat(d.as_str(), "p")
        },
        None => match str_member_of(item, "format_note") {
            Some(n) => n.to_string(),
            None => "原始格式".to_string(),
        },
    };
    let vcodec = match str_member_of(item, "vcodec") {
        Some(v) => v,
        None => "unknown",
    };
    let kind: &str = if str_equal(vcodec, "none") {
        "audio"
    } else if str_equal(acodec, "none") {
        "video"
    } else {
        "combined"
    };
    if str_equal(vcodec, "images") || str_starts_with(format_id, "sb") {
        return None;
    }
    proof {
        reveal_strlit("audio");
        reveal_strlit("video");
        reveal_strlit("combined");
    }
    let ext_upper = to_uppercase(ext);
    let acodec_upper = to_uppercase(acodec);
    let (label, detail) = format_texts(kind, resolution.as_str(), ext_upper.as_str(), acodec_upper.as_str(), language);
    let download_selector = if str_equal(kind, "video") {
        concat(format_id, "+bestaudio[acodec^=mp4a]/bestaudio[ext=m4a]/bestaudio/best")
    } else {
        format_id.to_string()
    };
    let size_bytes = match u64_member_of(item, "filesize") {
        Some(b) => Some(b),
        None => u64_member_of(item, "filesize_approx"),
    };
    Some(
        PreviewFormat {
            format_id: format_id.to_string(),
            download_selector,
            label,
            detail,
            size: byte_label(size_bytes),
            kind: kind.to_string(),
        },
    )
}

/// `collect_formats`: the formats of a description, best first.
pub fn collect_formats(root: &JsonValue, language: &str) -> (r: Vec<PreviewFormat>)
    ensures
        format_list_view(r@) == preview_formats(*root, language@),
{
    let items = match json_get_member(root, "formats") {
        Some(f) => match json_as_array(f) {
            Some(a) => a,
            None => {
                return Vec::new();
            },
        },
        None => {
            return Vec::new();
        },
    };
    let mut list: Vec<PreviewFormat> = Vec::new();
    let mut i: usize = 0;
    while i < items.len()
        invariant
            i <= items@.len(),
            format_list_view(list@) == format_views(items@.take(i as int), language@),
        decreases items.len() - i,
    {
        let ghost before = format_list_view(list@);
        assert(items@.take(i + 1).drop_last() =~= items@.take(i as int));
        match build_format(&items[i], language) {
            Some(f) => {
                list.push(f);
                assert(format_list_view(list@) =~= before.push(list@.last()@));
            },
            None => {},
        }
        i = i + 1;
    }
    assert(items@.take(items.len() as int) =~= items@);
    sort_formats(list)
}

/// `subtitle_entries`: the tracks of a `subtitles` or `automatic_captions` object.
pub fn subtitle_entries(map: &Vec<(String, JsonValue)>, subtitle_type: &str) -> (r: Vec<PreviewSubtitle>)
    ensures
        subtitle_list_view(r@) == subtitle_views(map@, subtitle_type@),
{
    let mut out: Vec<PreviewSubtitle> = Vec::new();
    let mut i: usize = 0;
    while i < map.len()
        invariant
            i <= map@.len(),
            subtitle_list_view(out@) == subtitle_views(map@.take(i as int), subtitle_type@),
        decreases map.len() - i,
    {
        let ghost before = subtitle_list_view(out@);
        assert(map@.take(i + 1).drop_last() =~= map@.take(i as int));
        assert(map@.take(i + 1).last() == map@[i as int]);
        match json_as_array(&map[i].1) {
            Some(a) => {
                if a.len() > 0 {
                    let format = match str_member_of(&a[0], "ext") {
                        Some(e) => e.to_string(),
                        None => "vtt".to_string(),
                    };
                    out.push(
                        PreviewSubtitle {
                            language: map[i].0.clone(),
                            subtitle_type: subtitle_type.to_string(),
                            format,
                        },
                    );
                    assert(subtitle_list_view(out@) =~= before.push(
                        (out@.last().language@, out@.last().subtitle_type@, out@.last().format@),
                    ));
                }
            },
            None => {},
        }
        i = i + 1;
    }
    assert(map@.take(map.len() as int) =~= map@);
    out
}

/// The tracks of one object member of the description.
fn subtitle_group_of(root: &JsonValue, key: &str, kind: &str) -> (r: Vec<PreviewSubtitle>)
    ensures
        subtitle_list_view(r@) == subtitle_group(*root, key@, kind@),
{
    match json_get_member(root, key) {
        Some(v) => match json_as_object(v) {
            Some(m) => subtitle_entries(m, kind),
            None => Vec::new(),
        },
        None => Vec::new(),
    }
}

/// `collect_subtitles`: manual tracks, then automatic ones, at most eight.
pub fn collect_subtitles(root: &JsonValue) -> (r: Vec<PreviewSubtitle>)
    ensures
        subtitle_list_view(r@) == preview_subtitles(*root),
{
    let manual = subtitle_group_of(root, "subtitles", "manual");
    let automatic = subtitle_group_of(root, "automatic_captions", "auto");
    let ghost m = subtitle_list_view(manual@);
    let ghost a = subtitle_list_view(automatic@);
    let mut out: Vec<PreviewSubtitle> = manual;
    let mut j: usize = 0;
    while j < automatic.len()
        invariant
            j <= automatic@.len(),
            a == subtitle_list_view(automatic@),
            subtitle_list_view(out@) == m + a.take(j as int),
        decreases automatic.len() - j,
    {
        let x = PreviewSubtitle {
            language: automatic[j].language.clone(),
            subtitle_type: automatic[j].subtitle_type.clone(),
            format: automatic[j].format.clone(),
        };
        let ghost before = out@;
        assert((x.language@, x.subtitle_type@, x.format@) == a[j as int]);
        out.push(x);
        assert(subtitle_list_view(out@) =~= subtitle_list_view(before).push(a[j as int]));
        assert(a.take(j + 1) =~= a.take(j as int).push(a[j as int]));
        assert(subtitle_list_view(out@) =~= m + a.take(j + 1));
        j = j + 1;
    }
    assert(a.take(automatic.len() as int) =~= a);
    if out.len() > 8 {
        out.truncate(8);
        assert(subtitle_list_view(out@) =~= (m + a).take(8));
    }
    out
}

/// `publish_label`: the first date found, as `YYYY-MM-DD`, else `Unknown`.
pub fn publish_label(root: &JsonValue) -> (r: String)
    ensures
        r@ == publish_text(*root),
{
    let keys = vec!["upload_date", "release_date", "modified_date"];
    let mut i: usize = 0;
    let ghost ks = seq!["upload_date"@, "release_date"@, "modified_date"@];
    assert(keys@.map_values(|k: &str| k@) =~= ks);
    assert(ks.skip(0) =~= ks);
    while i < keys.len()
        invariant
            i <= keys@.len(),
            keys@.len() == 3,
            ks == seq!["upload_date"@, "release_date"@, "modified_date"@],
            keys@.map_values(|k: &str| k@) == ks,
            first_str_member(*root, ks) == first_str_member(*root, ks.skip(i as int)),
        decreases keys.len() - i,
    {
        assert(ks.skip(i as int)[0] == keys@[i as int]@) by {
            assert(keys@.map_values(|k: &str| k@)[i as int] == keys@[i as int]@);
        }
        match str_member_of(root, keys[i]) {
            Some(d) => {
                assert(ks.skip(i as int).len() > 0);
                assert(str_member(*root, ks.skip(i as int)[0]) == Some(d@));
                assert(first_str_member(*root, ks.skip(i as int)) == Some(d@));
                assert(first_str_member(*root, ks) == Some(d@));
                assert(publish_text(*root) == date_label(d@));
                return format_date(d);
            },
            None => {},
        }
        assert(ks.skip(i as int).drop_first() =~= ks.skip(i + 1));
        i = i + 1;
    }
    "Unknown".to_string()
}

/// `thumbnail_url`.
pub fn thumbnail_url(root: &JsonValue) -> (r: String)
    ensures
        r@ == thumbnail_text(*root),
{
    match str_member_of(root, "thumbnail") {
        Some(t) => {
            return t.to_string();
        },
        None => {},
    }
    let last = match json_get_member(root, "thumbnails") {
        Some(v) => match json_as_array(v) {
            Some(a) => if a.len() > 0 {
                str_member_of(&a[a.len() - 1], "url")
            } else {
                None
            },
            None => None,
        },
        None => None,
    };
    match last {
        Some(u) => u.to_string(),
        None => "https://images.unsplash.com/photo-1498050108023-c5249f4df085?auto=format&fit=crop&w=1200&q=80".to_string(),
    }
}

/// `playlist_entry_url`.
pub fn playlist_entry_url(entry: &JsonValue) -> (r: String)
    ensures
        r@ == entry_url_text(*entry),
{
    match str_member_of(entry, "webpage_url") {
        Some(u) => u.to_string(),
        None => match str_member_of(entry, "url") {
            Some(u) => if str_starts_with(u, "http://") || str_starts_with(u, "https://") {
                u.to_string()
            } else {
                concat("https://www.youtube.com/watch?v=", u)
            },
            None => String::new(),
        },
    }
}

/// The `entries` list of the description.
fn entries_list(root: &JsonValue) -> (r: Option<&Vec<JsonValue>>)
    ensures
        match json_get(*root, "entries"@) {
            Some(v) => match json_array(v) {
                Some(a) => r matches Some(b) && b@ == a,
                None => r is None,
            },
            None => r is None,
        },
{
    match json_get_member(root, "entries") {
        Some(v) => json_as_array(v),
        None => None,
    }
}

/// `build_preview`: the preview of a link from yt-dlp's description.
pub fn build_preview(root: &JsonValue, source_url: String, language: &str) -> (r: MediaPreview)
    ensures
        is_preview_of(r, *root, source_url@, language@),
{
    let mut entries: Vec<PlaylistEntry> = Vec::new();
    let title_keys = vec!["title", "id"];
    assert(title_keys@.map_values(|k: &str| k@) =~= seq!["title"@, "id"@]);
    let ghost list = entries_of(*root);
    match entries_list(root) {
        Some(items) => {
            let mut i: usize = 0;
            while i < items.len()
                invariant
                    i <= items@.len(),
                    items@ == list,
                    title_keys@.map_values(|k: &str| k@) == seq!["title"@, "id"@],
                    entry_list_view(entries@) == entry_views(list).take(i as int),
                decreases items.len() - i,
            {
                let ghost before = entry_list_view(entries@);
                let title = string_from(&items[i], &title_keys, "Untitled playlist item".to_string());
                let d = json_get_member(&items[i], "duration");
                assert(match d {
                    Some(v) => Some(*v),
                    None => None,
                } == json_get(items@[i as int], "duration"@));
                let duration = duration_label(d);
                let e = PlaylistEntry {
                    index: i + 1,
                    title,
                    duration,
                    source_url: playlist_entry_url(&items[i]),
                };
                assert((e.index as int, e.title@, e.duration@, e.source_url@) == entry_views(list)[i as int]);
                let ghost old_entries = entries@;
                entries.push(e);
                assert(entry_list_view(entries@) =~= entry_list_view(old_entries).push(entry_views(list)[i as int]));
                assert(entry_views(list).take(i + 1) =~= entry_views(list).take(i as int).push(entry_views(list)[i as int]));
                assert(entry_list_view(entries@) =~= entry_views(list).take(i + 1));
                i = i + 1;
            }
            assert(entry_views(list).take(items.len() as int) =~= entry_views(list));
        },
        None => {
            assert(entry_views(list) =~= Seq::empty());
        },
    }
    let is_playlist = entries.len() > 0;
    let creator_keys = vec!["channel", "uploader", "playlist_uploader", "extractor"];
    assert(creator_keys@.map_values(|k: &str| k@) =~= seq![
        "channel"@,
        "uploader"@,
        "playlist_uploader"@,
        "extractor"@,
    ]);
    let platform_keys = vec!["extractor_key", "extractor", "webpage_url_domain"];
    assert(platform_keys@.map_values(|k: &str| k@) =~= seq![
        "extractor_key"@,
        "extractor"@,
        "webpage_url_domain"@,
    ]);
    let total_entries: usize = match u64_member_of(root, "playlist_count") {
        Some(count) => #[verifier::truncate] (count as usize),
        None => match entries_list(root) {
            Some(items) => items.len(),
            None => 1,
        },
    };
    let title = string_from(root, &title_keys, "Untitled media".to_string());
    let creator = string_from(root, &creator_keys, "Unknown creator".to_string());
    let d = json_get_member(root, "duration");
    assert(match d {
        Some(v) => Some(*v),
        None => None,
    } == json_get(*root, "duration"@));
    let duration = duration_label(d);
    let platform = string_from(root, &platform_keys, "Unknown".to_string());
    let r = MediaPreview {
        title,
        creator,
        duration,
        platform,
        published_at: publish_label(root),
        thumbnail: thumbnail_url(root),
        formats: collect_formats(root, language),
        subtitles: collect_subtitles(root),
        playlist_entries: entries,
        source_url,
        is_playlist,
        total_entries,
    };
    assert(r.title@ == string_from_keys(*root, seq!["title"@, "id"@], "Untitled media"@));
    assert(r.duration@ == duration_text(json_get(*root, "duration"@)));
    assert(entry_list_view(r.playlist_entries@) == entry_views(entries_of(*root)));
    assert(r.is_playlist == (entries_of(*root).len() > 0));
    assert(r.total_entries as int == total_entries_of(*root));
    r
}


// ---------------------------------------------------------------------------
// Laws
// ---------------------------------------------------------------------------

/// No format in the list comes after one listed later.
pub open spec fn formats_in_order(s: Seq<PreviewFormatView>) -> bool {
    forall|i: int, j: int| 0 <= i < j < s.len() ==> !precedes(s[j], s[i])
}

proof fn lemma_precedes_asymmetric(a: PreviewFormatView, b: PreviewFormatView)
    ensures
        precedes(a, b) ==> !precedes(b, a),
{
    lemma_text_less_asymmetric(a.label, b.label);
}

proof fn lemma_precedes_transitive(a: PreviewFormatView, b: PreviewFormatView, c: PreviewFormatView)
    requires
        precedes(a, b),
        precedes(b, c),
    ensures
        precedes(a, c),
{
    if kind_rank(a.kind) == kind_rank(b.kind) && kind_rank(b.kind) == kind_rank(c.kind)
        && label_resolution(a.label) == label_resolution(b.label) && label_resolution(b.label)
        == label_resolution(c.label) {
        lemma_text_less_transitive(a.label, b.label, c.label);
    }
}

proof fn lemma_insert_position(s: Seq<PreviewFormatView>, x: PreviewFormatView, k: int)
    requires
        0 <= k <= s.len(),
    ensures
        k <= insert_position(s, x, k) <= s.len(),
        forall|j: int| k <= j < insert_position(s, x, k) ==> !precedes(x, #[trigger] s[j]),
        insert_position(s, x, k) < s.len() ==> precedes(x, s[insert_position(s, x, k)]),
    decreases s.len() - k,
{
    if k < s.len() && !precedes(x, s[k]) {
        lemma_insert_position(s, x, k + 1);
    }
}

proof fn lemma_insert_keeps_order(s: Seq<PreviewFormatView>, x: PreviewFormatView)
    requires
        formats_in_order(s),
    ensures
        formats_in_order(s.insert(insert_position(s, x, 0), x)),
{
    let p = insert_position(s, x, 0);
    lemma_insert_position(s, x, 0);
    let t = s.insert(p, x);
    assert forall|i: int, j: int| 0 <= i < j < t.len() implies !precedes(t[j], t[i]) by {
        if j < p {
            assert(t[i] == s[i] && t[j] == s[j]);
        } else if j == p {
            assert(t[i] == s[i]);
            assert(!precedes(x, s[i]));
        } else if i > p {
            assert(t[i] == s[i - 1] && t[j] == s[j - 1]);
        } else if i == p {
            assert(t[j] == s[j - 1]);
            assert(precedes(x, s[p]));
            if j - 1 > p {
                assert(!precedes(s[j - 1], s[p]));
                if precedes(s[j - 1], x) {
                    lemma_precedes_transitive(s[j - 1], x, s[p]);
                }
            } else {
                lemma_precedes_asymmetric(x, s[p]);
            }
        } else {
            assert(t[i] == s[i] && t[j] == s[j - 1]);
        }
    }
}

/// The formats of a description are listed without any format after one it
/// precedes (best kind first, then highest resolution, then label), and the
/// list holds exactly the formats that were read.
pub proof fn law_formats_listed_in_order(s: Seq<PreviewFormatView>)
    ensures
        formats_in_order(sorted_formats(s)),
        sorted_formats(s).to_multiset() == s.to_multiset(),
    decreases s.len(),
{
    broadcast use vstd::seq_lib::group_to_multiset_ensures;
    if s.len() > 0 {
        let r = sorted_formats(s.drop_last());
        law_formats_listed_in_order(s.drop_last());
        lemma_insert_keeps_order(r, s.last());
        lemma_insert_position(r, s.last(), 0);
        vstd::seq_lib::to_multiset_insert(r, insert_position(r, s.last(), 0), s.last());
        assert(s =~= s.drop_last().push(s.last()));
    } else {
        assert(s.to_multiset() == sorted_formats(s).to_multiset());
    }
}

} // verus!
