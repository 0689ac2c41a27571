//! Decisions behind a listener's albums of the year: which page of their
//! top albums to fetch next, which albums may be from the year, and the
//! text that presents the result.
use vstd::prelude::*;

use crate::numbers::{decimal, parse_u64, parsed_u64, push_decimal};

verus! {

/// One picture of an album, by size.
#[derive(Debug)]
pub struct Image {
    pub size: String,
    pub url: String,
}

/// The artist of a top album.
#[derive(Debug)]
pub struct ArtistShort {
    pub url: String,
    pub name: String,
    pub mbid: String,
}

/// One of a listener's most played albums; the play count is decimal text.
#[derive(Debug)]
pub struct TopAlbum {
    pub name: String,
    pub mbid: String,
    pub url: String,
    pub artist: ArtistShort,
    pub image: Vec<Image>,
    pub playcount: String,
}

/// Paging information of a page of top albums; the numbers are decimal text.
#[derive(Debug)]
pub struct TopAlbumsAttr {
    pub user: String,
    pub total_pages: String,
    pub page: String,
    pub total: String,
    pub per_page: String,
}

/// One page of a listener's top albums, most played first.
#[derive(Debug)]
pub struct TopAlbums {
    pub album: Vec<TopAlbum>,
    pub attr: TopAlbumsAttr,
}

/// How many albums the result shows at most.
pub const AOTY_LIMIT: usize = 25;

/// Albums played this many times or fewer are not considered.
pub const MIN_PLAYS: u64 = 10;

/// A page of top albums that cannot be read.
#[derive(Debug, PartialEq, Eq, Structural)]
pub enum AotyError {
    /// The page count is not a number.
    InvalidPageCount,
    /// The play count of the album at this position is not a number.
    InvalidPlaycount(usize),
}

impl TopAlbums {
    /// Whether to fetch the page after `page`: there is one, and the last
    /// album of this page was still played at least `MIN_PLAYS` times.
    pub fn has_next_page(&self, page: u64) -> (r: Result<bool, AotyError>)
        ensures
            ({
                let albums = self.album@;
                let last_plays: Option<Option<u64>> = if albums.len() == 0 {
                    Some(Some(0))
                } else {
                    Some(parsed_u64(albums.last().playcount@))
                };
                if albums.len() > 0 && parsed_u64(albums.last().playcount@) is None {
                    r == Err::<bool, AotyError>(AotyError::InvalidPlaycount((albums.len() - 1) as usize))
                } else if parsed_u64(self.attr.total_pages@) is None {
                    r == Err::<bool, AotyError>(AotyError::InvalidPageCount)
                } else {
                    r == Ok::<bool, AotyError>(page < parsed_u64(self.attr.total_pages@).unwrap()
                        && last_plays.unwrap().unwrap() >= MIN_PLAYS)
                }
            }),
    {
        let n = self.album.len();
        let last_plays = if n == 0 {
            0
        } else {
            match parse_u64(self.album[n - 1].playcount.as_str()) {
                Some(p) => p,
                None => return Err(AotyError::InvalidPlaycount(n - 1)),
            }
        };
        let total_pages = match parse_u64(self.attr.total_pages.as_str()) {
            Some(t) => t,
            None => return Err(AotyError::InvalidPageCount),
        };
        Ok(page < total_pages && last_plays >= MIN_PLAYS)
    }
}

/// The release year known for the album at position `i`, if any.
pub open spec fn known_year(cached: Seq<Option<u64>>, i: int) -> Option<u64> {
    if 0 <= i < cached.len() {
        cached[i]
    } else {
        None
    }
}

/// The album at position `i` may be from `year`: it was played more than
/// `MIN_PLAYS` times, and its release year is unknown or is `year`.
pub open spec fn may_be_from(albums: Seq<TopAlbum>, cached: Seq<Option<u64>>, year: u64, i: int) -> bool {
    &&& parsed_u64(albums[i].playcount@) is Some
    &&& parsed_u64(albums[i].playcount@).unwrap() > MIN_PLAYS
    &&& match known_year(cached, i) {
        Some(y) => y == year,
        None => true,
    }
}

/// The positions below `n` of albums that may be from `year`, in order.
pub open spec fn candidates(albums: Seq<TopAlbum>, cached: Seq<Option<u64>>, year: u64, n: int) -> Seq<usize>
    decreases n,
{
    if n <= 0 {
        Seq::empty()
    } else if may_be_from(albums, cached, year, n - 1) {
        candidates(albums, cached, year, n - 1).push((n - 1) as usize)
    } else {
        candidates(albums, cached, year, n - 1)
    }
}

/// The positions of the albums whose release year is still to be checked
/// or is `year` already; `cached[i]` is the release year known for album
/// `i`. Refused at the first album whose play count is not a number.
pub fn aoty_candidates(albums: &Vec<TopAlbum>, cached: &Vec<Option<u64>>, year: u64) -> (r: Result<Vec<usize>, AotyError>)
    ensures
        match r {
            Ok(idx) => (forall|i: int| 0 <= i < albums@.len() ==> parsed_u64(#[trigger] albums@[i].playcount@) is Some)
                && idx@ == candidates(albums@, cached@, year, albums@.len() as int),
            Err(e) => exists|i: int| 0 <= i < albums@.len()
                && e == AotyError::InvalidPlaycount(i as usize)
                && parsed_u64(#[trigger] albums@[i].playcount@) is None
                && forall|j: int| 0 <= j < i ==> parsed_u64(#[trigger] albums@[j].playcount@) is Some,
        },
{
    let mut idx: Vec<usize> = Vec::new();
    let mut i: usize = 0;
    while i < albums.len()
        invariant
            i <= albums@.len(),
            forall|j: int| 0 <= j < i ==> parsed_u64(#[trigger] albums@[j].playcount@) is Some,
            idx@ == candidates(albums@, cached@, year, i as int),
        decreases albums@.len() - i,
    {
        let plays = match parse_u64(albums[i].playcount.as_str()) {
            Some(p) => p,
            None => return Err(AotyError::InvalidPlaycount(i)),
        };
        let year_ok = if i < cached.len() {
            match cached[i] {
                Some(y) => y == year,
                None => true,
            }
        } else {
            true
        };
        if plays > MIN_PLAYS && year_ok {
            idx.push(i);
        }
        i = i + 1;
    }
    Ok(idx)
}

/// One line of the result: artist, album and play count.
pub open spec fn aoty_line(a: TopAlbum) -> Seq<char> {
    "\n"@ + a.artist.name@ + " - "@ + a.name@ + " ("@ + a.playcount@ + " plays)"@
}

pub open spec fn aoty_lines(albums: Seq<TopAlbum>) -> Seq<char>
    decreases albums.len(),
{
    if albums.len() == 0 {
        Seq::empty()
    } else {
        aoty_lines(albums.drop_last()) + aoty_line(albums.last())
    }
}

/// The text presenting `albums` as `username`'s top albums of `year`: a
/// heading, then one line for each of the first `AOTY_LIMIT` albums.
pub fn aoty_summary(year: u64, username: &str, albums: &Vec<TopAlbum>) -> (r: String)
    ensures
        r@ == "**Top albums of "@ + decimal(year as nat) + " for "@ + username@ + "**"@
            + aoty_lines(cut_albums(albums@, AOTY_LIMIT as int)),
{
    let mut out = String::from_str("**Top albums of ");
    push_decimal(&mut out, year);
    out.append(" for ");
    out.append(username);
    out.append("**");
    let ghost head = out@;
    let n = if albums.len() < AOTY_LIMIT { albums.len() } else { AOTY_LIMIT };
    let mut i: usize = 0;
    while i < n
        invariant
            n <= albums@.len(),
            n == cut_albums(albums@, AOTY_LIMIT as int).len(),
            i <= n,
            out@ == head + aoty_lines(albums@.subrange(0, i as int)),
        decreases n - i,
    {
        let a = &albums[i];
        out.append("\n");
        out.append(a.artist.name.as_str());
        out.append(" - ");
        out.append(a.name.as_str());
        out.append(" (");
        out.append(a.playcount.as_str());
        out.append(" plays)");
        proof {
            let now = albums@.subrange(0, i + 1);
            assert(now.drop_last() =~= albums@.subrange(0, i as int));
            assert(now.last() == albums@[i as int]);
            assert(out@ =~= head + aoty_lines(now));
        }
        i = i + 1;
    }
    assert(albums@.subrange(0, n as int) =~= cut_albums(albums@, AOTY_LIMIT as int));
    out
}

/// The first `k` albums, or all of them when there are fewer.
pub open spec fn cut_albums(albums: Seq<TopAlbum>, k: int) -> Seq<TopAlbum> {
    if albums.len() <= k {
        albums
    } else {
        albums.take(k)
    }
}

/// The text sent when no album of `year` was found.
pub fn no_aotys_message(year: u64, username: &str) -> (r: String)
    ensures
        r@ == "No "@ + decimal(year as nat) + " albums found for user "@ + username@,
{
    let mut out = String::from_str("No ");
    push_decimal(&mut out, year);
    out.append(" albums found for user ");
    out.append(username);
    out
}

} // verus!
