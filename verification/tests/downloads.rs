use palemachine::db::{playlist_entry, video_entry};
use palemachine::download::{
    cover_file_path, download_destination, downloader_command, fallback_output_path,
    is_latest_version, select_output_path,
};
use palemachine::lobby::{PalemachineLobby, WsMessage};
use palemachine::text::{chars_of, split_lines, trim_chars};

#[test]
fn command_for_single_video() {
    let argv = downloader_command(
        "https://www.youtube.com/watch?v=abc",
        "My/Song",
        "/music",
        "Artist",
        "Album",
    );
    assert_eq!(
        argv,
        vec![
            "./venv/bin/python3",
            "downloader",
            "single",
            "https://www.youtube.com/watch?v=abc",
            "/music",
            "My_Song",
            "Artist",
            "Album"
        ]
    );
}

#[test]
fn command_for_playlist() {
    let argv = downloader_command(
        "https://www.youtube.com/playlist?list=PL1",
        "Mix",
        "/music",
        "Artist",
        "Album",
    );
    assert_eq!(
        argv,
        vec![
            "./venv/bin/python3",
            "downloader",
            "playlist",
            "https://www.youtube.com/playlist?list=PL1",
            "/music",
            "Mix"
        ]
    );
}

#[test]
fn output_path_is_last_path_line() {
    let out = "[download] 10%\n/music/A/B\n[aria2c] noise\n  /music/C/D  \r\nDone\n";
    assert_eq!(select_output_path(out, "/music"), Some("/music/C/D".to_string()));
    let out2 = "saved into ./downloads/x\nok";
    assert_eq!(select_output_path(out2, "./downloads"), Some("saved into ./downloads/x".to_string()));
    assert_eq!(select_output_path("nothing\nhere", "/music"), None);
    assert_eq!(select_output_path("", "/music"), None);
}

#[test]
fn destination_falls_back() {
    assert_eq!(
        download_destination("noise", "https://www.youtube.com/watch?v=a", "n", "/m", "A/C", "B"),
        "/m/A_C/B"
    );
    assert_eq!(
        download_destination("noise", "https://www.youtube.com/playlist?list=P", "My/Mix", "/m", "A", "B"),
        "/m/Playlists/My_Mix"
    );
    assert_eq!(
        download_destination("/m/x\n", "https://www.youtube.com/watch?v=a", "n", "/m", "A", "B"),
        "/m/x"
    );
    assert_eq!(
        fallback_output_path("https://www.youtube.com/watch?v=a", "n", "/m", "AC/DC", "Live"),
        "/m/AC_DC/Live"
    );
}

#[test]
fn cover_path() {
    assert_eq!(cover_file_path("/m/A/B", "Song/Name"), "/m/A/B/Song_Name.jpg");
}

#[test]
fn version_check_trims() {
    assert!(is_latest_version("1.2.0\n", "  1.2.0"));
    assert!(!is_latest_version("1.2.0", "1.3.0"));
    assert!(is_latest_version("", " \n"));
}

#[test]
fn history_rows() {
    let e = video_entry("u", "id1", "friendly", "Real", "2023-01-01", "127.0.0.1");
    assert_eq!(
        (e.url.as_str(), e.yt_id.as_str(), e.friendly_name.as_str(), e.real_name.as_str(), e.timestamp.as_str(), e.ip.as_str()),
        ("u", "id1", "friendly", "Real", "2023-01-01", "127.0.0.1")
    );
    let p = playlist_entry("u", "PL", "Mix", "t", "ip");
    assert_eq!(p.real_name, "Playlist: Mix");
    assert_eq!(p.yt_id, "PL");
}

#[test]
fn lobby_broadcasts_to_all_connected() {
    let mut lobby: PalemachineLobby<u32> = PalemachineLobby::new();
    assert!(lobby.recipients().is_empty());
    lobby.connect(7);
    lobby.connect(9);
    assert_eq!(lobby.recipients(), &[7, 9]);
    let m = WsMessage("hello".to_string());
    assert_eq!(m.clone().0, "hello");
}

#[test]
fn text_helpers() {
    let lines: Vec<String> = split_lines(&chars_of("a\r\nb\n\nc\r"))
        .into_iter()
        .map(|l| l.into_iter().collect())
        .collect();
    assert_eq!(lines, vec!["a", "b", "", "c\r"]);
    assert_eq!(lines, "a\r\nb\n\nc\r".lines().collect::<Vec<_>>());
    let t: String = trim_chars(&chars_of("\t x y \u{a0}\n")).into_iter().collect();
    assert_eq!(t, "x y");
}
