//! The download history record and how a request fills it.

use vstd::prelude::*;

verus! {

/// One row of the download history.
pub struct DbEntry {
    pub url: String,
    pub yt_id: String,
    pub friendly_name: String,
    pub real_name: String,
    pub timestamp: String,
    pub ip: String,
}

/// The history row for a single video: its id, the name the user gave,
/// and the title YouTube reports.
pub fn video_entry(
    url: &str,
    video_id: &str,
    friendly_name: &str,
    title: &str,
    timestamp: &str,
    ip: &str,
) -> (res: DbEntry)
    ensures
        res.url@ == url@,
        res.yt_id@ == video_id@,
        res.friendly_name@ == friendly_name@,
        res.real_name@ == title@,
        res.timestamp@ == timestamp@,
        res.ip@ == ip@,
{
    DbEntry {
        url: String::from_str(url),
        yt_id: String::from_str(video_id),
        friendly_name: String::from_str(friendly_name),
        real_name: String::from_str(title),
        timestamp: String::from_str(timestamp),
        ip: String::from_str(ip),
    }
}

/// The history row for a playlist: its id, the name the user gave, and
/// `Playlist: ` followed by that name as its title.
pub fn playlist_entry(
    url: &str,
    playlist_id: &str,
    friendly_name: &str,
    timestamp: &str,
    ip: &str,
) -> (res: DbEntry)
    ensures
        res.url@ == url@,
        res.yt_id@ == playlist_id@,
        res.friendly_name@ == friendly_name@,
        res.real_name@ == "Playlist: "@ + friendly_name@,
        res.timestamp@ == timestamp@,
        res.ip@ == ip@,
{
    let mut real_name = String::new();
    real_name.push_str("Playlist: ");
    real_name.push_str(friendly_name);
    DbEntry {
        url: String::from_str(url),
        yt_id: String::from_str(playlist_id),
        friendly_name: String::from_str(friendly_name),
        real_name,
        timestamp: String::from_str(timestamp),
        ip: String::from_str(ip),
    }
}

} // verus!
