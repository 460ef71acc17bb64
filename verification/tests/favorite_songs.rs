use maimai_scraping::maimai::parser::favorite_songs::{
    parse_page, FavoriteFormError, FavoriteSongFields, GenreFields,
};
use maimai_scraping::maimai::schema::latest::Category;
use maimai_scraping::maimai::favorite_songs::SetFavoriteSong;
use maimai_scraping::maimai::parser::favorite_songs::{Idx, Token};

#[test]
fn test() {
    let token = Token("token".to_owned());
    let idx0 = Idx("idx0".to_owned());
    let idx1 = Idx("idx1".to_owned());
    let query = SetFavoriteSong::new(vec![idx0, idx1], token);
    assert_eq!(
        &query.query_string(),
        "idx=99&music%5B%5D=idx0&music%5B%5D=idx1&token=token"
    );
}

#[test]
fn form_encoding_of_special_bytes() {
    let query = SetFavoriteSong::new(
        vec![Idx("a b+c/d*-._".to_owned()), Idx("曲".to_owned())],
        Token("t=1&x".to_owned()),
    );
    assert_eq!(
        query.query_string(),
        "idx=99&music%5B%5D=a+b%2Bc%2Fd*-._&music%5B%5D=%E6%9B%B2&token=t%3D1%26x"
    );
    let empty = SetFavoriteSong::new(vec![], Token(String::new()));
    assert_eq!(empty.query_string(), "idx=99&token=");
}

#[test]
fn favorite_form_page() {
    let song = |name: &str, idx: &str, checked: bool| FavoriteSongFields {
        name: Some(name.to_owned()),
        checkbox: Some((Some(idx.to_owned()), checked)),
    };
    let genres = vec![
        GenreFields { heading: Some("maimai".to_owned()), songs: vec![song("A", "a", true)] },
        GenreFields {
            heading: Some("POPS＆アニメ".to_owned()),
            songs: vec![song("B", "b", false), song("C", "c", true)],
        },
    ];
    let page = parse_page(Some(Some("tok")), &genres).unwrap();
    assert_eq!(page.token.0, "tok");
    assert_eq!(page.songs.len(), 3);
    assert_eq!(page.songs[0].category, Category::MaimaiOriginal);
    assert_eq!(page.songs[2].category, Category::PopsAnime);
    assert_eq!(page.songs[2].idx.0, "c");
    assert!(!page.songs[1].checked);
    assert!(matches!(parse_page(None, &genres), Err(FavoriteFormError::NoToken)));
    assert!(matches!(parse_page(Some(None), &genres), Err(FavoriteFormError::NoTokenValue)));
    let mut bad = genres.clone();
    bad[1].heading = Some("???".to_owned());
    assert!(matches!(parse_page(Some(Some("t")), &bad), Err(FavoriteFormError::UnknownCategory)));
    bad[0].songs[0].checkbox = None;
    assert!(matches!(parse_page(Some(Some("t")), &bad), Err(FavoriteFormError::NoCheckbox)));
}
