//! Metadata lookups: the title in a YouTube API response, the album
//! covers in a Spotify search response, and the Spotify request headers.

use vstd::prelude::*;
use crate::doc::{field, get_field, get_text, member, text_of, DocValue};
use vstd::utf8::encode_utf8;

verus! {

/// Album name and cover address offered for a download.
pub struct SimpleSpotifyThumbnail {
    music_name: String,
    uri: String,
}

impl View for SimpleSpotifyThumbnail {
    type V = (Seq<char>, Seq<char>);

    closed spec fn view(&self) -> (Seq<char>, Seq<char>) {
        (self.music_name@, self.uri@)
    }
}

impl SimpleSpotifyThumbnail {
    /// A thumbnail for album `music_name` whose cover is at `uri`.
    pub fn new(music_name: String, uri: String) -> (res: Self)
        ensures
            res@ == (music_name@, uri@),
    {
        SimpleSpotifyThumbnail { music_name, uri }
    }

    /// The album name.
    pub fn music_name(&self) -> (res: &str)
        ensures
            res@ == self@.0,
    {
        self.music_name.as_str()
    }

    /// The cover address.
    pub fn uri(&self) -> (res: &str)
        ensures
            res@ == self@.1,
    {
        self.uri.as_str()
    }
}

// ---------------------------------------------------------------------
// Request headers and addresses
// ---------------------------------------------------------------------

/// The standard base64 encoding (RFC 4648 alphabet, `=` padding) of
/// `bytes`, as the `base64` crate's `STANDARD` engine computes it.
pub uninterp spec fn base64_standard(bytes: Seq<u8>) -> Seq<char>;

/// Calls `Engine::encode` of `base64::engine::general_purpose::STANDARD`.
/// Claimed: the result is the standard encoding of the input bytes, given
/// a name and not spelt out. The call panics when the encoded length
/// overflows `usize`; `requires` leaves those inputs out.
#[verifier::external_body]
fn base64_encode(input: &[u8]) -> (res: String)
    requires
        (input@.len() + 2) / 3 * 4 <= usize::MAX,
    ensures
        res@ == base64_standard(input@),
{
    base64::Engine::encode(&base64::engine::general_purpose::STANDARD, input)
}

/// The `Authorization` header value for the Spotify token request:
/// `Basic ` and the base64 of the UTF-8 bytes of `client_id:client_secret`.
pub fn basic_authorization(client_id: &str, client_secret: &str) -> (res: String)
    requires
        (encode_utf8(client_id@ + ":"@ + client_secret@).len() + 2) / 3 * 4 <= usize::MAX,
    ensures
        res@ == "Basic "@ + base64_standard(encode_utf8(client_id@ + ":"@ + client_secret@)),
{
    let mut creds = String::new();
    creds.push_str(client_id);
    creds.push_str(":");
    creds.push_str(client_secret);
    assert(creds@ =~= client_id@ + ":"@ + client_secret@);
    let encoded = base64_encode(creds.as_str().as_bytes());
    let mut res = String::new();
    res.push_str("Basic ");
    res.push_str(encoded.as_str());
    res
}

/// The `Authorization` header value for a Spotify API request.
pub fn bearer_authorization(access_token: &str) -> (res: String)
    ensures
        res@ == "Bearer "@ + access_token@,
{
    let mut res = String::new();
    res.push_str("Bearer ");
    res.push_str(access_token);
    res
}

/// The Spotify album search request for `term`.
pub fn spotify_search_url(term: &str) -> (res: String)
    ensures
        res@ == "https://api.spotify.com/v1/search?q="@ + term@ + "&type=album"@,
{
    let mut res = String::new();
    res.push_str("https://api.spotify.com/v1/search?q=");
    res.push_str(term);
    res.push_str("&type=album");
    res
}

// ---------------------------------------------------------------------
// Specifications
// ---------------------------------------------------------------------

/// The title of the first item of a YouTube API response
/// (`items[0].snippet.title`).
pub open spec fn first_item_title(doc: DocValue) -> Option<Seq<char>> {
    match field(doc, "items"@) {
        Some(DocValue::Array(items)) => if items@.len() > 0 {
            match field(items@[0], "snippet"@) {
                Some(snippet) => text_of(field(snippet, "title"@)),
                None => None,
            }
        } else {
            None
        },
        _ => None,
    }
}

/// A value that reads as a `u32`: an integer in `0..=u32::MAX`.
pub open spec fn is_u32(v: DocValue) -> bool {
    v matches DocValue::Int(x) && 0 <= x <= u32::MAX
}

/// The cover address of an image record, when the record reads as
/// `{height: u32, url: string, width: u32}`: as an object with those
/// members (others ignored), or as an array of exactly those three values
/// in that order.
pub open spec fn image_url(image: DocValue) -> Option<Seq<char>> {
    match image {
        DocValue::Object(m) => match (member(m@, "height"@), member(m@, "url"@), member(m@, "width"@)) {
            (Some(h), Some(DocValue::Str(u)), Some(w)) => if is_u32(h) && is_u32(w) {
                Some(u@)
            } else {
                None
            },
            _ => None,
        },
        DocValue::Array(a) => if a@.len() == 3 && is_u32(a@[0]) && is_u32(a@[2]) {
            match a@[1] {
                DocValue::Str(u) => Some(u@),
                _ => None,
            }
        } else {
            None
        },
        _ => None,
    }
}

/// The thumbnail an album record offers: its name and the address of its
/// first image, when both are there and well-formed.
pub open spec fn album_thumbnail(album: DocValue) -> Option<(Seq<char>, Seq<char>)> {
    match (field(album, "name"@), field(album, "images"@)) {
        (Some(DocValue::Str(name)), Some(DocValue::Array(images))) => if images@.len() > 0 {
            match image_url(images@[0]) {
                Some(u) => Some((name@, u)),
                None => None,
            }
        } else {
            None
        },
        _ => None,
    }
}

/// The album records of a Spotify search response (`albums.items`).
pub open spec fn search_albums(doc: DocValue) -> Option<Seq<DocValue>> {
    match field(doc, "albums"@) {
        Some(albums) => match field(albums, "items"@) {
            Some(DocValue::Array(items)) => Some(items@),
            _ => None,
        },
        None => None,
    }
}

/// The thumbnails offered by `albums`, in order, skipping the albums
/// that offer none.
pub open spec fn thumbnails_of(albums: Seq<DocValue>) -> Seq<(Seq<char>, Seq<char>)>
    decreases albums.len(),
{
    if albums.len() == 0 {
        Seq::empty()
    } else {
        let before = thumbnails_of(albums.drop_last());
        match album_thumbnail(albums.last()) {
            Some(t) => before.push(t),
            None => before,
        }
    }
}

/// The views of a sequence of thumbnails.
pub open spec fn thumbnail_views(v: Seq<SimpleSpotifyThumbnail>) -> Seq<(Seq<char>, Seq<char>)> {
    v.map_values(|t: SimpleSpotifyThumbnail| t@)
}

// ---------------------------------------------------------------------
// Laws
// ---------------------------------------------------------------------

/// For an album record with a name and a non-empty image list whose first
/// image is an object with integer `height` and `width` within `u32` and
/// a string `url`, the cover offered is that first image's url, whatever
/// the number of images and whatever the later images hold; a response
/// with that single album offers exactly that thumbnail.
pub proof fn cover_is_first_image(
    album: DocValue,
    name: String,
    images: Vec<DocValue>,
    url: String,
    height: i128,
    width: i128,
)
    requires
        field(album, "name"@) == Some(DocValue::Str(name)),
        field(album, "images"@) == Some(DocValue::Array(images)),
        images@.len() > 0,
        images@[0] is Object,
        field(images@[0], "url"@) == Some(DocValue::Str(url)),
        field(images@[0], "height"@) == Some(DocValue::Int(height)),
        field(images@[0], "width"@) == Some(DocValue::Int(width)),
        0 <= height <= u32::MAX,
        0 <= width <= u32::MAX,
    ensures
        album_thumbnail(album) == Some((name@, url@)),
        thumbnails_of(seq![album]) == seq![(name@, url@)],
{
    assert(seq![album].drop_last() =~= Seq::<DocValue>::empty());
    assert(seq![album].last() == album);
    assert(thumbnails_of(Seq::<DocValue>::empty()) =~= Seq::<(Seq<char>, Seq<char>)>::empty());
    assert(Seq::<(Seq<char>, Seq<char>)>::empty().push((name@, url@)) =~= seq![(name@, url@)]);
}

/// The title read from a YouTube response is the title of the snippet
/// of its first item, whatever the later items hold.
pub proof fn title_is_first_items(
    doc: DocValue,
    items: Vec<DocValue>,
    snippet: DocValue,
    title: String,
)
    requires
        field(doc, "items"@) == Some(DocValue::Array(items)),
        items@.len() > 0,
        field(items@[0], "snippet"@) == Some(snippet),
        field(snippet, "title"@) == Some(DocValue::Str(title)),
    ensures
        first_item_title(doc) == Some(title@),
{
}

/// Every thumbnail comes from an album of the response, in order: there
/// are never more thumbnails than albums.
pub proof fn thumbnails_at_most_albums(albums: Seq<DocValue>)
    ensures
        thumbnails_of(albums).len() <= albums.len(),
    decreases albums.len(),
{
    if albums.len() > 0 {
        thumbnails_at_most_albums(albums.drop_last());
    }
}

/// The thumbnails of two runs of albums are those of each run, in order.
pub proof fn thumbnails_concat(a: Seq<DocValue>, b: Seq<DocValue>)
    ensures
        thumbnails_of(a + b) == thumbnails_of(a) + thumbnails_of(b),
    decreases b.len(),
{
    if b.len() == 0 {
        assert(a + b =~= a);
        assert(thumbnails_of(a) + thumbnails_of(b) =~= thumbnails_of(a));
    } else {
        assert((a + b).drop_last() =~= a + b.drop_last());
        assert((a + b).last() == b.last());
        thumbnails_concat(a, b.drop_last());
        match album_thumbnail(b.last()) {
            Some(t) => {
                assert(thumbnails_of(a) + thumbnails_of(b.drop_last()).push(t) =~= (thumbnails_of(a)
                    + thumbnails_of(b.drop_last())).push(t));
            },
            None => {},
        }
    }
}

// ---------------------------------------------------------------------
// Executable functions
// ---------------------------------------------------------------------

/// The title of the first item of a YouTube API response.
pub fn get_title_from_json(doc: &DocValue) -> (res: Option<String>)
    ensures
        match first_item_title(*doc) {
            Some(t) => res matches Some(r) && r@ == t,
            None => res is None,
        },
{
    match get_field(doc, "items") {
        Some(DocValue::Array(items)) => {
            if items.len() == 0 {
                return None;
            }
            match get_field(&items[0], "snippet") {
                Some(snippet) => get_text(get_field(snippet, "title")),
                None => None,
            }
        },
        _ => None,
    }
}

/// Whether `v` reads as a `u32`.
fn is_u32_value(v: &DocValue) -> (res: bool)
    ensures
        res == is_u32(*v),
{
    match v {
        DocValue::Int(x) => 0 <= *x && *x <= 4294967295,
        _ => false,
    }
}

/// The cover address of an image record.
fn image_url_of(image: &DocValue) -> (res: Option<String>)
    ensures
        match image_url(*image) {
            Some(u) => res matches Some(r) && r@ == u,
            None => res is None,
        },
{
    match image {
        DocValue::Object(_) => {
            let h = get_field(image, "height");
            let u = get_field(image, "url");
            let w = get_field(image, "width");
            match (h, u, w) {
                (Some(h), Some(DocValue::Str(u)), Some(w)) => {
                    if is_u32_value(h) && is_u32_value(w) {
                        Some(u.clone())
                    } else {
                        None
                    }
                },
                _ => None,
            }
        },
        DocValue::Array(a) => {
            if a.len() == 3 && is_u32_value(&a[0]) && is_u32_value(&a[2]) {
                match &a[1] {
                    DocValue::Str(u) => Some(u.clone()),
                    _ => None,
                }
            } else {
                None
            }
        },
        _ => None,
    }
}

/// The thumbnail an album record offers.
fn album_thumbnail_of(album: &DocValue) -> (res: Option<SimpleSpotifyThumbnail>)
    ensures
        match album_thumbnail(*album) {
            Some(t) => res matches Some(r) && r@ == t,
            None => res is None,
        },
{
    match (get_field(album, "name"), get_field(album, "images")) {
        (Some(DocValue::Str(name)), Some(DocValue::Array(images))) => {
            if images.len() == 0 {
                return None;
            }
            match image_url_of(&images[0]) {
                Some(u) => Some(SimpleSpotifyThumbnail::new(name.clone(), u)),
                None => None,
            }
        },
        _ => None,
    }
}

/// The album thumbnails of a Spotify search response, in album order;
/// `None` when the response has no `albums.items` list.
pub fn album_thumbnails(doc: &DocValue) -> (res: Option<Vec<SimpleSpotifyThumbnail>>)
    ensures
        match search_albums(*doc) {
            Some(albums) => res matches Some(r) && thumbnail_views(r@) == thumbnails_of(albums),
            None => res is None,
        },
{
    let items = match get_field(doc, "albums") {
        Some(albums) => match get_field(albums, "items") {
            Some(DocValue::Array(items)) => items,
            _ => {
                return None;
            },
        },
        None => {
            return None;
        },
    };
    let mut out: Vec<SimpleSpotifyThumbnail> = Vec::new();
    let mut i: usize = 0;
    while i < items.len()
        invariant
            i <= items@.len(),
            thumbnail_views(out@) == thumbnails_of(items@.take(i as int)),
        decreases items@.len() - i,
    {
        assert(items@.take(i + 1).drop_last() =~= items@.take(i as int));
        assert(items@.take(i + 1).last() == items@[i as int]);
        match album_thumbnail_of(&items[i]) {
            Some(t) => {
                let ghost before = out@;
                out.push(t);
                assert(thumbnail_views(out@) =~= thumbnail_views(before).push(t@));
            },
            None => {},
        }
        i = i + 1;
    }
    assert(items@.take(i as int) =~= items@);
    Some(out)
}

} // verus!
