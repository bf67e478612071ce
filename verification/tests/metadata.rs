use palemachine::doc::{config_path, config_port, get_field, DocValue};
use palemachine::spotify::{
    album_thumbnails, basic_authorization, bearer_authorization, get_title_from_json,
    spotify_search_url, SimpleSpotifyThumbnail,
};

fn s(x: &str) -> DocValue {
    DocValue::Str(x.to_string())
}

fn obj(members: Vec<(&str, DocValue)>) -> DocValue {
    DocValue::Object(members.into_iter().map(|(k, v)| (k.to_string(), v)).collect())
}

fn image(url: &str, h: i128, w: i128) -> DocValue {
    obj(vec![("height", DocValue::Int(h)), ("url", s(url)), ("width", DocValue::Int(w))])
}

fn album(name: &str, images: Vec<DocValue>) -> DocValue {
    obj(vec![("images", DocValue::Array(images)), ("name", s(name))])
}

fn pairs(v: &[SimpleSpotifyThumbnail]) -> Vec<(String, String)> {
    v.iter().map(|t| (t.music_name().to_string(), t.uri().to_string())).collect()
}

#[test]
fn title_of_first_item() {
    let doc = obj(vec![(
        "items",
        DocValue::Array(vec![
            obj(vec![("snippet", obj(vec![("title", s("Song A"))]))]),
            obj(vec![("snippet", obj(vec![("title", s("Song B"))]))]),
        ]),
    )]);
    assert_eq!(get_title_from_json(&doc), Some("Song A".to_string()));
}

#[test]
fn title_missing_cases() {
    assert_eq!(get_title_from_json(&obj(vec![])), None);
    assert_eq!(get_title_from_json(&obj(vec![("items", DocValue::Array(vec![]))])), None);
    assert_eq!(get_title_from_json(&obj(vec![("items", s("x"))])), None);
    let no_title = obj(vec![(
        "items",
        DocValue::Array(vec![obj(vec![("snippet", obj(vec![("title", DocValue::Int(3))]))])]),
    )]);
    assert_eq!(get_title_from_json(&no_title), None);
    assert_eq!(get_title_from_json(&DocValue::Null), None);
}

#[test]
fn thumbnails_in_album_order() {
    let doc = obj(vec![(
        "albums",
        obj(vec![(
            "items",
            DocValue::Array(vec![
                album("First", vec![image("http://i/1", 640, 640), image("http://i/x", 64, 64)]),
                album("No images", vec![]),
                album("Bad size", vec![image("http://i/2", -1, 640)]),
                album("Too big", vec![image("http://i/3", 4294967296, 640)]),
                album(
                    "As list",
                    vec![DocValue::Array(vec![DocValue::Int(300), s("http://i/4"), DocValue::Int(300)])],
                ),
                album("Float size", vec![obj(vec![("height", DocValue::Float), ("url", s("u")), ("width", DocValue::Int(1))])]),
                obj(vec![("name", s("No image list"))]),
                album("Last", vec![image("http://i/5", 0, 4294967295)]),
            ]),
        )]),
    )]);
    let thumbs = album_thumbnails(&doc).expect("albums.items is there");
    assert_eq!(
        pairs(&thumbs),
        vec![
            ("First".to_string(), "http://i/1".to_string()),
            ("As list".to_string(), "http://i/4".to_string()),
            ("Last".to_string(), "http://i/5".to_string()),
        ]
    );
}

#[test]
fn thumbnails_of_joined_lists_are_joined() {
    let a = || vec![album("A", vec![image("http://a", 1, 1)]), album("skip", vec![])];
    let b = || vec![album("B", vec![image("http://b", 2, 2)])];
    let wrap = |items: Vec<DocValue>| obj(vec![("albums", obj(vec![("items", DocValue::Array(items))]))]);
    let mut joined = a();
    joined.extend(b());
    let mut separate = pairs(&album_thumbnails(&wrap(a())).unwrap());
    separate.extend(pairs(&album_thumbnails(&wrap(b())).unwrap()));
    assert_eq!(pairs(&album_thumbnails(&wrap(joined)).unwrap()), separate);
}

#[test]
fn thumbnails_need_album_list() {
    assert!(album_thumbnails(&obj(vec![])).is_none());
    assert!(album_thumbnails(&obj(vec![("albums", obj(vec![("items", s("x"))]))])).is_none());
    let empty = album_thumbnails(&obj(vec![("albums", obj(vec![("items", DocValue::Array(vec![]))]))]));
    assert_eq!(empty.map(|v| v.len()), Some(0));
}

#[test]
fn thumbnail_accessors() {
    let t = SimpleSpotifyThumbnail::new("Album".to_string(), "http://c".to_string());
    assert_eq!(t.music_name(), "Album");
    assert_eq!(t.uri(), "http://c");
}

#[test]
fn authorization_headers() {
    assert_eq!(basic_authorization("a", "b"), "Basic YTpi");
    assert_eq!(basic_authorization("client", "secret"), "Basic Y2xpZW50OnNlY3JldA==");
    assert_eq!(basic_authorization("", ""), "Basic Og==");
    assert_eq!(bearer_authorization("tok"), "Bearer tok");
}

#[test]
fn search_url() {
    assert_eq!(
        spotify_search_url("Daft Punk"),
        "https://api.spotify.com/v1/search?q=Daft Punk&type=album"
    );
}

#[test]
fn configuration_entries() {
    let cfg = obj(vec![("domain", s("localhost")), ("path", s("./downloads")), ("port", DocValue::Int(9999))]);
    assert_eq!(config_path(&cfg), Some("./downloads".to_string()));
    assert_eq!(config_port(&cfg), Some(9999));
    assert_eq!(config_port(&obj(vec![("port", DocValue::Int(70000))])), Some(4464));
    assert_eq!(config_port(&obj(vec![("port", DocValue::Int(-1))])), Some(65535));
    assert_eq!(config_port(&obj(vec![("port", s("9999"))])), None);
    assert_eq!(config_path(&obj(vec![("path", DocValue::Int(1))])), None);
    assert_eq!(config_path(&obj(vec![])), None);
}

#[test]
fn field_lookup() {
    let d = obj(vec![("a", DocValue::Int(1)), ("b", DocValue::Bool(true))]);
    assert!(matches!(get_field(&d, "b"), Some(DocValue::Bool(true))));
    assert!(get_field(&d, "c").is_none());
    assert!(get_field(&DocValue::Array(vec![]), "a").is_none());
}
