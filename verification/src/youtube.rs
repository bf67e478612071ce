//! YouTube link analysis: query parameters, playlist detection, the
//! YouTube Data API request URLs and the choice of lookup for a link.

use vstd::prelude::*;
use crate::text::{
    chars_of, char_index_from, contains, contains_seq, find_char_from, find_first, find_seq_from,
    lemma_char_index_from, lemma_find_from, matches_at, seq_eq, string_of_range,
};

verus! {

// ---------------------------------------------------------------------
// Specifications
// ---------------------------------------------------------------------

/// `name` with every `/` replaced by `_`.
pub open spec fn sanitised(name: Seq<char>) -> Seq<char> {
    name.map_values(|c: char| if c == '/' { '_' } else { c })
}

/// The value of query parameter `key` in `url`: the text after the first
/// occurrence of `key=` up to the next `&`, or to the end of the url.
pub open spec fn param_value(url: Seq<char>, key: Seq<char>) -> Option<Seq<char>> {
    let pat = key.push('=');
    match find_first(url, pat) {
        Some(i) => {
            let rest = url.skip(i + pat.len());
            match char_index_from(rest, '&', 0) {
                Some(j) => Some(rest.take(j)),
                None => Some(rest),
            }
        },
        None => None,
    }
}

/// Whether `url` designates a playlist rather than a single video.
/// A `stratradio` parameter decides alone (any value but `1` means a
/// playlist); otherwise a playlist page, or a `list=` without `&v=`.
pub open spec fn is_playlist_url(url: Seq<char>) -> bool {
    match param_value(url, "stratradio"@) {
        Some(radio) => radio != "1"@,
        None => contains(url, "youtube.com/playlist"@) || contains(url, "youtu.be/playlist"@) || (
        contains(url, "list="@) && !contains(url, "&v="@)),
    }
}

/// The outcome of analysing a link for the cover lookup.
pub enum ImageLookup {
    /// No YouTube API key is configured.
    MissingApiKey,
    /// A playlist link, with its playlist id.
    Playlist(String),
    /// A single video link, with its video id.
    Video(String),
    /// The link carries no usable id.
    NoId,
}

/// The lookup that a link calls for, given whether an API key is set.
pub open spec fn lookup_for(url: Seq<char>, has_api_key: bool) -> Option<(bool, Seq<char>)> {
    if !has_api_key {
        None
    } else if is_playlist_url(url) {
        match param_value(url, "list"@) {
            Some(id) => Some((true, id)),
            None => None,
        }
    } else {
        match param_value(url, "v"@) {
            Some(id) => Some((false, id)),
            None => None,
        }
    }
}

// ---------------------------------------------------------------------
// Laws
// ---------------------------------------------------------------------

/// Sanitising leaves no `/`, keeps the length, and changes nothing else.
pub proof fn sanitised_has_no_slash(name: Seq<char>)
    ensures
        sanitised(name).len() == name.len(),
        !sanitised(name).contains('/'),
        forall|i: int| 0 <= i < name.len() && name[i] != '/' ==> sanitised(name)[i] == name[i],
{
}

/// Sanitising twice is sanitising once.
pub proof fn sanitised_idempotent(name: Seq<char>)
    ensures
        sanitised(sanitised(name)) == sanitised(name),
{
    assert(sanitised(sanitised(name)) =~= sanitised(name));
}

/// A parameter value never holds `&`, and it stands in `url` right after
/// the first `key=`.
pub proof fn param_value_shape(url: Seq<char>, key: Seq<char>)
    ensures
        param_value(url, key) matches Some(v) ==> {
            &&& !v.contains('&')
            &&& exists|i: int| #![trigger matches_at(url, key.push('='), i)]
                matches_at(url, key.push('='), i) && (forall|j: int|
                    0 <= j < i ==> !matches_at(url, key.push('='), j)) && url.subrange(
                    i + key.len() + 1,
                    i + key.len() + 1 + v.len(),
                ) == v
        },
        param_value(url, key) is None <==> !contains(url, key.push('=')),
{
    let pat = key.push('=');
    lemma_find_from(url, pat, 0);
    if let Some(i) = find_first(url, pat) {
        let rest = url.skip(i + pat.len());
        lemma_char_index_from(rest, '&', 0);
        let v = param_value(url, key).unwrap();
        assert(url.subrange(i + key.len() + 1, i + key.len() + 1 + v.len()) =~= v);
        assert(matches_at(url, pat, i));
    }
}

/// The value runs from just after the first `key=` to the next `&` or
/// to the end of the link: a link `prefix + key= + t + tail`, whose first
/// `key=` is the one after `prefix`, where `t` holds no `&` and `tail` is
/// empty or starts with `&`, gives exactly `t`, whatever its length.
pub proof fn param_value_is_text_up_to_ampersand(
    prefix: Seq<char>,
    key: Seq<char>,
    t: Seq<char>,
    tail: Seq<char>,
)
    requires
        !t.contains('&'),
        tail.len() == 0 || tail[0] == '&',
        forall|j: int|
            0 <= j < prefix.len() ==> !#[trigger] matches_at(
                prefix + key.push('=') + t + tail,
                key.push('='),
                j,
            ),
    ensures
        param_value(prefix + key.push('=') + t + tail, key) == Some(t),
{
    let pat = key.push('=');
    let url = prefix + pat + t + tail;
    lemma_find_from(url, pat, 0);
    let i0 = prefix.len() as int;
    assert(url.subrange(i0, i0 + pat.len()) =~= pat);
    assert(matches_at(url, pat, i0));
    let i = find_first(url, pat)->0;
    assert(i == i0);
    let rest = url.skip(i0 + pat.len());
    assert(rest =~= t + tail);
    lemma_char_index_from(rest, '&', 0);
    if tail.len() > 0 {
        assert(rest[t.len() as int] == '&');
        let j = char_index_from(rest, '&', 0)->0;
        assert(j == t.len()) by {
            if j < t.len() {
                assert(rest[j] == t[j]);
            }
        }
        assert(rest.take(t.len() as int) =~= t);
    } else {
        assert(rest =~= t);
        assert(char_index_from(rest, '&', 0) is None) by {
            if char_index_from(rest, '&', 0) is Some {
                let j = char_index_from(rest, '&', 0)->0;
                assert(t[j] == '&');
            }
        }
    }
}

/// With an API key, a playlist link carrying `list=ID` is looked up as
/// that playlist whatever else it carries, a video is looked up only for
/// a link that is no playlist, and the id always comes from the link's
/// `list` or `v` parameter accordingly.
pub proof fn lookup_follows_link_kind(url: Seq<char>)
    ensures
        is_playlist_url(url) && param_value(url, "list"@) is Some ==> lookup_for(url, true) == Some(
            (true, param_value(url, "list"@)->0),
        ),
        lookup_for(url, true) matches Some((false, id)) ==> !is_playlist_url(url) && param_value(
            url,
            "v"@,
        ) == Some(id),
        lookup_for(url, true) matches Some((true, id)) ==> is_playlist_url(url) && param_value(
            url,
            "list"@,
        ) == Some(id),
        lookup_for(url, false) is None,
{
}

/// Without a `stratradio` parameter, a playlist page link
/// (`youtube.com/playlist` or `youtu.be/playlist`) is a playlist, a link
/// with `list=` and no `&v=` is a playlist, and a link with none of these
/// is a single video.
pub proof fn playlist_signs(url: Seq<char>)
    requires
        param_value(url, "stratradio"@) is None,
    ensures
        contains(url, "youtube.com/playlist"@) ==> is_playlist_url(url),
        contains(url, "youtu.be/playlist"@) ==> is_playlist_url(url),
        contains(url, "list="@) && !contains(url, "&v="@) ==> is_playlist_url(url),
        !contains(url, "youtube.com/playlist"@) && !contains(url, "youtu.be/playlist"@) && !contains(
            url,
            "list="@,
        ) ==> !is_playlist_url(url),
{
}

/// A `stratradio` parameter overrides every other sign of a playlist.
pub proof fn stratradio_decides(url: Seq<char>)
    requires
        param_value(url, "stratradio"@) is Some,
    ensures
        is_playlist_url(url) == (param_value(url, "stratradio"@).unwrap() != "1"@),
{
}

// ---------------------------------------------------------------------
// Executable functions
// ---------------------------------------------------------------------

/// Replaces every `/` in `name` by `_`, so that it can name a file.
pub fn sanitise_name(name: &str) -> (res: String)
    ensures
        res@ == sanitised(name@),
{
    let v = chars_of(name);
    let mut res = String::new();
    let mut i: usize = 0;
    while i < v.len()
        invariant
            v@ == name@,
            i <= v@.len(),
            res@ == sanitised(v@.take(i as int)),
        decreases v@.len() - i,
    {
        let c = v[i];
        if c == '/' {
            res.push('_');
        } else {
            res.push(c);
        }
        i = i + 1;
        assert(res@ =~= sanitised(v@.take(i as int)));
    }
    assert(v@.take(i as int) =~= v@);
    res
}

/// The value of query parameter `key` in `url` (see `param_value`).
pub fn extract_param(url: &str, key: &str) -> (res: Option<String>)
    ensures
        match param_value(url@, key@) {
            Some(v) => res matches Some(r) && r@ == v,
            None => res is None,
        },
{
    let u = chars_of(url);
    let ulen = u.len();
    let mut pat = chars_of(key);
    pat.push('=');
    match find_seq_from(&u, &pat, 0) {
        None => None,
        Some(i) => {
            proof {
                lemma_find_from(u@, pat@, 0);
                assert(find_first(u@, pat@) == Some(i as int));
                assert(i + pat@.len() <= u@.len());
            }
            let start = i + pat.len();
            let ghost rest = u@.skip(start as int);
            proof {
                lemma_char_index_from(u@, '&', start as nat);
                lemma_char_index_from(rest, '&', 0);
            }
            match find_char_from(&u, '&', start) {
                Some(end) => {
                    assert forall|j: int| 0 <= j < end - start implies rest[j] != '&' by {
                        assert(rest[j] == u@[start + j]);
                    }
                    assert(rest[end - start] == '&');
                    assert(char_index_from(rest, '&', 0) == Some((end - start) as int));
                    let r = string_of_range(&u, start, end);
                    assert(r@ =~= rest.take(end - start));
                    Some(r)
                },
                None => {
                    assert forall|j: int| 0 <= j < rest.len() implies rest[j] != '&' by {
                        assert(rest[j] == u@[start + j]);
                    }
                    assert(char_index_from(rest, '&', 0) is None);
                    let r = string_of_range(&u, start, u.len());
                    assert(r@ =~= rest);
                    Some(r)
                },
            }
        },
    }
}

/// Whether `url` designates a playlist (see `is_playlist_url`).
pub fn is_youtube_playlist(url: &str) -> (res: bool)
    ensures
        res == is_playlist_url(url@),
{
    if let Some(radio) = extract_param(url, "stratradio") {
        let r = chars_of(radio.as_str());
        let one = chars_of("1");
        return !seq_eq(&r, &one);
    }
    let u = chars_of(url);
    contains_seq(&u, &chars_of("youtube.com/playlist")) || contains_seq(
        &u,
        &chars_of("youtu.be/playlist"),
    ) || (contains_seq(&u, &chars_of("list=")) && !contains_seq(&u, &chars_of("&v=")))
}

/// The lookup that a link calls for: a playlist id, a video id, or why
/// there is none.
pub fn plan_image_lookup(url: &str, has_api_key: bool) -> (res: ImageLookup)
    ensures
        !has_api_key ==> res is MissingApiKey,
        has_api_key ==> match lookup_for(url@, has_api_key) {
            Some((true, id)) => res matches ImageLookup::Playlist(p) && p@ == id,
            Some((false, id)) => res matches ImageLookup::Video(v) && v@ == id,
            None => res is NoId,
        },
{
    if !has_api_key {
        return ImageLookup::MissingApiKey;
    }
    if is_youtube_playlist(url) {
        match extract_param(url, "list") {
            Some(id) => ImageLookup::Playlist(id),
            None => ImageLookup::NoId,
        }
    } else {
        match extract_param(url, "v") {
            Some(id) => ImageLookup::Video(id),
            None => ImageLookup::NoId,
        }
    }
}

/// The YouTube Data API request for the snippet of video `id`.
pub fn video_details_url(id: &str, api_key: &str) -> (res: String)
    ensures
        res@ == "https://www.googleapis.com/youtube/v3/videos?part=snippet&id="@ + id@ + "&key="@
            + api_key@,
{
    let mut s = String::new();
    s.push_str("https://www.googleapis.com/youtube/v3/videos?part=snippet&id=");
    s.push_str(id);
    s.push_str("&key=");
    s.push_str(api_key);
    s
}

/// The YouTube Data API request for the first items of playlist `id`.
pub fn playlist_items_url(playlist_id: &str, api_key: &str) -> (res: String)
    ensures
        res@ == "https://www.googleapis.com/youtube/v3/playlistItems?part=snippet&maxResults=50&playlistId="@
            + playlist_id@ + "&key="@ + api_key@,
{
    let mut s = String::new();
    s.push_str(
        "https://www.googleapis.com/youtube/v3/playlistItems?part=snippet&maxResults=50&playlistId=",
    );
    s.push_str(playlist_id);
    s.push_str("&key=");
    s.push_str(api_key);
    s
}

} // verus!
