use palemachine::youtube::{
    extract_param, is_youtube_playlist, plan_image_lookup, playlist_items_url, sanitise_name,
    video_details_url, ImageLookup,
};

#[test]
fn sanitise_replaces_every_slash() {
    assert_eq!(sanitise_name("AC/DC/Back"), "AC_DC_Back");
    assert_eq!(sanitise_name("plain name"), "plain name");
    assert_eq!(sanitise_name(""), "");
    assert_eq!(sanitise_name("/"), "_");
}

#[test]
fn sanitise_is_idempotent_on_example() {
    let once = sanitise_name("a/b//c");
    assert_eq!(sanitise_name(&once), once);
    assert!(!once.contains('/'));
}

#[test]
fn extract_param_reads_values() {
    let url = "https://www.youtube.com/watch?v=abc123&list=PL42&index=3";
    assert_eq!(extract_param(url, "v"), Some("abc123".to_string()));
    assert_eq!(extract_param(url, "list"), Some("PL42".to_string()));
    assert_eq!(extract_param(url, "index"), Some("3".to_string()));
    assert_eq!(extract_param(url, "q"), None);
    // `t=` first occurs inside `list=`.
    assert_eq!(extract_param(url, "t"), Some("PL42".to_string()));
}

#[test]
fn extract_param_edge_cases() {
    assert_eq!(extract_param("a?v=&x=1", "v"), Some(String::new()));
    assert_eq!(extract_param("a?v=end", "v"), Some("end".to_string()));
    // The first `key=` wins, even inside a longer name.
    assert_eq!(extract_param("a?xv=1&v=2", "v"), Some("1".to_string()));
    assert_eq!(extract_param("", "v"), None);
    assert_eq!(extract_param("é?v=ü&", "v"), Some("ü".to_string()));
}

#[test]
fn playlist_detection() {
    assert!(is_youtube_playlist("https://www.youtube.com/playlist?list=PL1"));
    assert!(is_youtube_playlist("https://youtu.be/playlist?list=PL1"));
    assert!(is_youtube_playlist("https://www.youtube.com/watch?v=abc&list=PL1"));
    assert!(!is_youtube_playlist("https://www.youtube.com/watch?list=PL1&v=abc"));
    assert!(!is_youtube_playlist("https://www.youtube.com/watch?v=abc"));
}

#[test]
fn stratradio_overrides() {
    assert!(!is_youtube_playlist("https://www.youtube.com/playlist?list=PL1&stratradio=1"));
    assert!(is_youtube_playlist("https://www.youtube.com/watch?v=abc&stratradio=0"));
}

#[test]
fn lookup_plans() {
    match plan_image_lookup("https://www.youtube.com/watch?v=abc", false) {
        ImageLookup::MissingApiKey => {}
        _ => panic!("expected a missing key"),
    }
    match plan_image_lookup("https://www.youtube.com/watch?v=abc", true) {
        ImageLookup::Video(id) => assert_eq!(id, "abc"),
        _ => panic!("expected a video"),
    }
    match plan_image_lookup("https://www.youtube.com/playlist?list=PL9", true) {
        ImageLookup::Playlist(id) => assert_eq!(id, "PL9"),
        _ => panic!("expected a playlist"),
    }
    match plan_image_lookup("https://www.youtube.com/watch", true) {
        ImageLookup::NoId => {}
        _ => panic!("expected no id"),
    }
    match plan_image_lookup("https://www.youtube.com/playlist", true) {
        ImageLookup::NoId => {}
        _ => panic!("expected no id"),
    }
}

#[test]
fn api_request_urls() {
    assert_eq!(
        video_details_url("abc", "KEY"),
        "https://www.googleapis.com/youtube/v3/videos?part=snippet&id=abc&key=KEY"
    );
    assert_eq!(
        playlist_items_url("PL1", "KEY"),
        "https://www.googleapis.com/youtube/v3/playlistItems?part=snippet&maxResults=50&playlistId=PL1&key=KEY"
    );
}
