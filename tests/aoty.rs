use lpbot::aoty::{
    aoty_candidates, aoty_summary, no_aotys_message, AotyError, ArtistShort, TopAlbum, TopAlbums,
    TopAlbumsAttr,
};
use lpbot::numbers::{parse_u64, push_decimal};

fn album(artist: &str, name: &str, plays: &str) -> TopAlbum {
    TopAlbum {
        name: name.to_string(),
        mbid: String::new(),
        url: format!("https://example.test/{name}"),
        artist: ArtistShort { url: String::new(), name: artist.to_string(), mbid: String::new() },
        image: vec![],
        playcount: plays.to_string(),
    }
}

fn page(albums: Vec<TopAlbum>, total_pages: &str) -> TopAlbums {
    TopAlbums {
        album: albums,
        attr: TopAlbumsAttr {
            user: "rj".to_string(),
            total_pages: total_pages.to_string(),
            page: "1".to_string(),
            total: "0".to_string(),
            per_page: "200".to_string(),
        },
    }
}

#[test]
fn parse_numbers() {
    assert_eq!(parse_u64("0"), Some(0));
    assert_eq!(parse_u64("+42"), Some(42));
    assert_eq!(parse_u64("18446744073709551615"), Some(u64::MAX));
    assert_eq!(parse_u64("18446744073709551616"), None);
    assert_eq!(parse_u64(""), None);
    assert_eq!(parse_u64("+"), None);
    assert_eq!(parse_u64("-1"), None);
    assert_eq!(parse_u64("12a"), None);
}

#[test]
fn format_numbers() {
    let mut s = "year ".to_string();
    push_decimal(&mut s, 2023);
    assert_eq!(s, "year 2023");
    let mut z = String::new();
    push_decimal(&mut z, 0);
    push_decimal(&mut z, u64::MAX);
    assert_eq!(z, "018446744073709551615");
}

#[test]
fn next_page_rules() {
    let p = page(vec![album("a", "x", "50"), album("b", "y", "10")], "3");
    assert_eq!(p.has_next_page(1), Ok(true));
    assert_eq!(p.has_next_page(3), Ok(false));
    let low = page(vec![album("a", "x", "50"), album("b", "y", "9")], "3");
    assert_eq!(low.has_next_page(1), Ok(false));
    assert_eq!(page(vec![], "3").has_next_page(1), Ok(false));
    assert_eq!(page(vec![album("a", "x", "5")], "many").has_next_page(1), Err(AotyError::InvalidPageCount));
    assert_eq!(page(vec![album("a", "x", "lots")], "3").has_next_page(1), Err(AotyError::InvalidPlaycount(0)));
}

#[test]
fn candidates_by_plays_and_year() {
    let albums = vec![
        album("a", "old", "40"),
        album("b", "new", "30"),
        album("c", "unknown", "20"),
        album("d", "few", "10"),
        album("e", "beyond", "11"),
    ];
    let cached = vec![Some(2019), Some(2023), None, None];
    assert_eq!(aoty_candidates(&albums, &cached, 2023), Ok(vec![1, 2, 4]));
    let bad = vec![album("a", "x", "12"), album("b", "y", "?")];
    assert_eq!(aoty_candidates(&bad, &vec![], 2023), Err(AotyError::InvalidPlaycount(1)));
}

#[test]
fn summary_text() {
    let albums = vec![album("Boris", "Heavy Rocks", "31"), album("Low", "HEY WHAT", "12")];
    assert_eq!(
        aoty_summary(2023, "rj", &albums),
        "**Top albums of 2023 for rj**\nBoris - Heavy Rocks (31 plays)\nLow - HEY WHAT (12 plays)"
    );
    let many: Vec<TopAlbum> = (0..30).map(|i| album("a", &format!("n{i}"), "11")).collect();
    let text = aoty_summary(2020, "u", &many);
    assert_eq!(text.lines().count(), 26);
    assert!(text.ends_with("a - n24 (11 plays)"));
    assert_eq!(no_aotys_message(1999, "rj"), "No 1999 albums found for user rj");
}
