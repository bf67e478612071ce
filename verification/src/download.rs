//! Planning a download: the downloader command line, the destination
//! folder read back from the downloader's output (or guessed when it
//! reports none), the cover file name, and the version check.

use vstd::prelude::*;
use crate::text::{
    lines_of_last_line,
    chars_of, contains, contains_seq, lines, split_lines, starts_with, starts_with_seq, string_of,
    trim, trim_chars, views,
};
use crate::youtube::{is_playlist_url, is_youtube_playlist, sanitise_name, sanitised};

verus! {

// ---------------------------------------------------------------------
// Specifications
// ---------------------------------------------------------------------

/// The command line that runs the downloader: the interpreter, the
/// script, the mode, then the link, the base folder and the sanitised
/// name, and for a single video also the artist and the album.
pub open spec fn downloader_argv(
    url: Seq<char>,
    name: Seq<char>,
    base_path: Seq<char>,
    artist: Seq<char>,
    album: Seq<char>,
) -> Seq<Seq<char>> {
    if is_playlist_url(url) {
        seq![
            "./venv/bin/python3"@,
            "downloader"@,
            "playlist"@,
            url,
            base_path,
            sanitised(name),
        ]
    } else {
        seq![
            "./venv/bin/python3"@,
            "downloader"@,
            "single"@,
            url,
            base_path,
            sanitised(name),
            artist,
            album,
        ]
    }
}

/// A line of downloader output that reports a path: once trimmed it
/// starts with `/`, or it mentions the base folder.
pub open spec fn is_path_line(line: Seq<char>, base_path: Seq<char>) -> bool {
    starts_with(trim(line), "/"@) || contains(line, base_path)
}

/// The last line of `ls` that reports a path, trimmed.
pub open spec fn last_path_line(ls: Seq<Seq<char>>, base_path: Seq<char>) -> Option<Seq<char>>
    decreases ls.len(),
{
    if ls.len() == 0 {
        None
    } else if is_path_line(ls.last(), base_path) {
        Some(trim(ls.last()))
    } else {
        last_path_line(ls.drop_last(), base_path)
    }
}

/// The folder that the downloader's standard output reports.
pub open spec fn reported_path(stdout: Seq<char>, base_path: Seq<char>) -> Option<Seq<char>> {
    last_path_line(lines(stdout), base_path)
}

/// The folder a download lands in when the downloader reports none.
pub open spec fn fallback_path(
    url: Seq<char>,
    name: Seq<char>,
    base_path: Seq<char>,
    artist: Seq<char>,
    album: Seq<char>,
) -> Seq<char> {
    if is_playlist_url(url) {
        base_path + "/Playlists/"@ + sanitised(name)
    } else {
        base_path + "/"@ + sanitised(artist) + "/"@ + sanitised(album)
    }
}

// ---------------------------------------------------------------------
// Laws
// ---------------------------------------------------------------------

/// A reported folder comes from a line of the output that reports a
/// path, and no later line reports one.
pub proof fn reported_path_is_last(ls: Seq<Seq<char>>, base_path: Seq<char>)
    ensures
        last_path_line(ls, base_path) matches Some(p) ==> exists|i: int|
            0 <= i < ls.len() && #[trigger] is_path_line(ls[i], base_path) && p == trim(ls[i]) && (
            forall|j: int| i < j < ls.len() ==> !is_path_line(ls[j], base_path)),
        last_path_line(ls, base_path) is None ==> forall|i: int|
            0 <= i < ls.len() ==> !is_path_line(#[trigger] ls[i], base_path),
    decreases ls.len(),
{
    if ls.len() > 0 {
        let last = ls.len() - 1;
        if is_path_line(ls.last(), base_path) {
            assert(is_path_line(ls[last], base_path));
        } else {
            reported_path_is_last(ls.drop_last(), base_path);
            assert forall|i: int| 0 <= i < ls.len() - 1 implies ls.drop_last()[i] == ls[i] by {}
            if let Some(p) = last_path_line(ls.drop_last(), base_path) {
                let i = choose|i: int|
                    0 <= i < ls.drop_last().len() && #[trigger] is_path_line(
                        ls.drop_last()[i],
                        base_path,
                    ) && p == trim(ls.drop_last()[i]) && (forall|j: int|
                        i < j < ls.drop_last().len() ==> !is_path_line(ls.drop_last()[j], base_path));
                assert(is_path_line(ls[i], base_path));
            }
        }
    }
}

/// Whatever the base folder, when the last line of the output (with or
/// without a final line ending), once trimmed, starts with `/` or when it
/// mentions the base folder, the folder read back is exactly that trimmed
/// line.
pub proof fn last_line_reporting_a_path_is_read_back(
    p: Seq<char>,
    l: Seq<char>,
    base_path: Seq<char>,
    terminated: bool,
)
    requires
        p.len() == 0 || p.last() == '\n',
        !l.contains('\n'),
        l.len() > 0,
        l.last() != '\r',
        (trim(l).len() > 0 && trim(l)[0] == '/') || contains(l, base_path),
    ensures
        reported_path(p + if terminated { l.push('\n') } else { l }, base_path) == Some(trim(l)),
{
    reveal_strlit("/");
    lines_of_last_line(p, l, terminated);
    let ls = lines(p).push(l);
    assert(ls.last() == l);
    if trim(l).len() > 0 && trim(l)[0] == '/' {
        assert(trim(l).take(1) =~= "/"@);
    }
    assert(is_path_line(l, base_path));
}

/// The guessed folder lies directly under the base folder: it is the
/// base folder, a `/`, then `Playlists/` and the sanitised name for a
/// playlist, or the sanitised artist, a `/` and the sanitised album.
pub proof fn fallback_is_under_base(
    url: Seq<char>,
    name: Seq<char>,
    base_path: Seq<char>,
    artist: Seq<char>,
    album: Seq<char>,
)
    ensures
        ({
            let f = fallback_path(url, name, base_path, artist, album);
            &&& f.take(base_path.len() + 1int) == base_path.push('/')
            &&& is_playlist_url(url) ==> f.skip(base_path.len() + 1int) == "Playlists/"@ + sanitised(name)
            &&& !is_playlist_url(url) ==> f.skip(base_path.len() + 1int) == sanitised(artist) + seq!['/']
                + sanitised(album)
        }),
{
    reveal_strlit("/Playlists/");
    reveal_strlit("Playlists/");
    reveal_strlit("/");
    let f = fallback_path(url, name, base_path, artist, album);
    let n = base_path.len() as int;
    assert(f.take(n + 1) =~= base_path.push('/'));
    if is_playlist_url(url) {
        assert(f.skip(n + 1) =~= "Playlists/"@ + sanitised(name));
    } else {
        assert(f.skip(n + 1) =~= sanitised(artist) + seq!['/'] + sanitised(album));
    }
}

/// The command line always carries the request link unchanged as its
/// fourth argument, the base folder and the sanitised name after it, and
/// the mode says whether the link is a playlist; a single video also
/// carries the artist and the album.
pub proof fn downloader_argv_carries_request(
    url: Seq<char>,
    name: Seq<char>,
    base_path: Seq<char>,
    artist: Seq<char>,
    album: Seq<char>,
)
    ensures
        ({
            let argv = downloader_argv(url, name, base_path, artist, album);
            &&& argv.len() >= 6
            &&& argv[0] == "./venv/bin/python3"@
            &&& argv[1] == "downloader"@
            &&& argv[3] == url
            &&& argv[4] == base_path
            &&& argv[5] == sanitised(name)
            &&& is_playlist_url(url) ==> argv.len() == 6 && argv[2] == "playlist"@
            &&& !is_playlist_url(url) ==> argv.len() == 8 && argv[2] == "single"@ && argv[6]
                == artist && argv[7] == album
        }),
{
}

/// The cover's file name, after the folder and its `/`, holds no `/`:
/// the cover is saved directly inside the download folder.
pub proof fn cover_file_name_has_no_slash(name: Seq<char>)
    ensures
        !(sanitised(name) + ".jpg"@).contains('/'),
{
    reveal_strlit(".jpg");
    let f = sanitised(name) + ".jpg"@;
    if f.contains('/') {
        let j = choose|j: int| 0 <= j < f.len() && f[j] == '/';
        if j < sanitised(name).len() {
            assert(sanitised(name)[j] == '/');
        }
    }
}

// ---------------------------------------------------------------------
// Executable functions
// ---------------------------------------------------------------------

/// The downloader command line for a request (see `downloader_argv`).
pub fn downloader_command(
    url: &str,
    name: &str,
    base_path: &str,
    artist: &str,
    album: &str,
) -> (res: Vec<String>)
    ensures
        views(res@) == downloader_argv(url@, name@, base_path@, artist@, album@),
{
    let mut argv: Vec<String> = Vec::new();
    argv.push(String::from_str("./venv/bin/python3"));
    argv.push(String::from_str("downloader"));
    let playlist = is_youtube_playlist(url);
    if playlist {
        argv.push(String::from_str("playlist"));
    } else {
        argv.push(String::from_str("single"));
    }
    argv.push(String::from_str(url));
    argv.push(String::from_str(base_path));
    argv.push(sanitise_name(name));
    if !playlist {
        argv.push(String::from_str(artist));
        argv.push(String::from_str(album));
    }
    assert(views(argv@) =~= downloader_argv(url@, name@, base_path@, artist@, album@));
    argv
}

/// The folder reported in the downloader's standard output: the last
/// line that reports a path, trimmed.
pub fn select_output_path(stdout: &str, base_path: &str) -> (res: Option<String>)
    ensures
        match reported_path(stdout@, base_path@) {
            Some(p) => res matches Some(r) && r@ == p,
            None => res is None,
        },
{
    let s = chars_of(stdout);
    let ls = split_lines(&s);
    let base = chars_of(base_path);
    let slash = chars_of("/");
    let ghost all = ls@.map_values(|l: Vec<char>| l@);
    let mut i: usize = ls.len();
    assert(all.take(i as int) =~= all);
    while i > 0
        invariant
            i <= ls@.len(),
            base@ == base_path@,
            slash@ == "/"@,
            all == ls@.map_values(|l: Vec<char>| l@),
            all == lines(stdout@),
            last_path_line(all, base_path@) == last_path_line(all.take(i as int), base_path@),
        decreases i,
    {
        let line = &ls[i - 1];
        let t = trim_chars(line);
        let ghost prefix = all.take(i as int);
        assert(prefix.last() == line@);
        if starts_with_seq(&t, &slash) || contains_seq(line, &base) {
            return Some(string_of(&t));
        }
        assert(prefix.drop_last() =~= all.take(i - 1));
        i = i - 1;
    }
    None
}

/// The folder a download lands in when the downloader reports none.
pub fn fallback_output_path(
    url: &str,
    name: &str,
    base_path: &str,
    artist: &str,
    album: &str,
) -> (res: String)
    ensures
        res@ == fallback_path(url@, name@, base_path@, artist@, album@),
{
    let mut res = String::new();
    res.push_str(base_path);
    if is_youtube_playlist(url) {
        res.push_str("/Playlists/");
        res.push_str(sanitise_name(name).as_str());
    } else {
        res.push_str("/");
        res.push_str(sanitise_name(artist).as_str());
        res.push_str("/");
        res.push_str(sanitise_name(album).as_str());
    }
    res
}

/// The folder a finished download is in: the one the downloader
/// reports, or else the one it is expected to use.
pub fn download_destination(
    stdout: &str,
    url: &str,
    name: &str,
    base_path: &str,
    artist: &str,
    album: &str,
) -> (res: String)
    ensures
        res@ == match reported_path(stdout@, base_path@) {
            Some(p) => p,
            None => fallback_path(url@, name@, base_path@, artist@, album@),
        },
{
    match select_output_path(stdout, base_path) {
        Some(p) => p,
        None => fallback_output_path(url, name, base_path, artist, album),
    }
}

/// The file the cover of `name` is saved to inside `output_path`.
pub fn cover_file_path(output_path: &str, name: &str) -> (res: String)
    ensures
        res@ == output_path@ + "/"@ + sanitised(name@) + ".jpg"@,
{
    let mut res = String::new();
    res.push_str(output_path);
    res.push_str("/");
    res.push_str(sanitise_name(name).as_str());
    res.push_str(".jpg");
    res
}

/// Whether the published version is the one running: both version
/// texts agree once trimmed.
pub fn is_latest_version(local: &str, remote: &str) -> (res: bool)
    ensures
        res == (trim(local@) == trim(remote@)),
{
    let l = trim_chars(&chars_of(local));
    let r = trim_chars(&chars_of(remote));
    crate::text::seq_eq(&l, &r)
}

} // verus!
