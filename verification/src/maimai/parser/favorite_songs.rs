use vstd::prelude::*;

use crate::maimai::official_song_list::{category_from_str, category_of_text};
use crate::maimai::schema::latest::{Category, SongName};

verus! {

/// The session token of the favourite-songs form.
#[derive(Clone, PartialEq, Eq, Debug)]
pub struct Token(pub String);

/// The name of a genre heading of the favourite-songs form.
#[derive(Clone, PartialEq, Eq, Debug)]
pub struct GenreName(pub String);

/// The value by which the favourite-songs form names a song.
#[derive(Clone, PartialEq, Eq, PartialOrd, Ord, Hash, Debug)]
pub struct Idx(pub String);

/// A song of the favourite-songs form.
#[derive(Clone, Debug)]
pub struct Song {
    pub category: Category,
    pub name: SongName,
    pub idx: Idx,
    pub checked: bool,
}

/// The favourite-songs form: its token and its songs.
#[derive(Clone, Debug)]
pub struct Page {
    pub token: Token,
    pub songs: Vec<Song>,
}

/// What the favourite-songs form shows of one song: the text of its name
/// block, and its checkbox (the `value` attribute, and whether it is
/// checked), each `None` when missing.
#[derive(Clone, Debug)]
pub struct FavoriteSongFields {
    pub name: Option<String>,
    pub checkbox: Option<(Option<String>, bool)>,
}

/// What the form shows of one genre: the text of its heading, if found, and
/// its songs.
#[derive(Clone, Debug)]
pub struct GenreFields {
    pub heading: Option<String>,
    pub songs: Vec<FavoriteSongFields>,
}

/// Why the favourite-songs form could not be read.
#[derive(Clone, Copy, PartialEq, Eq, Structural, Debug)]
pub enum FavoriteFormError {
    NoToken,
    NoTokenValue,
    NoHeading,
    /// The heading names no category.
    UnknownCategory,
    NoName,
    NoCheckbox,
    NoCheckboxValue,
}

/// The song that the fields give, in a genre of category `c`, or why they
/// give none.
pub open spec fn song_read(c: Category, f: FavoriteSongFields, r: Result<Song, FavoriteFormError>) -> bool {
    match f.name {
        None => r == Err::<Song, FavoriteFormError>(FavoriteFormError::NoName),
        Some(n) => match f.checkbox {
            None => r == Err::<Song, FavoriteFormError>(FavoriteFormError::NoCheckbox),
            Some((None, _)) => r == Err::<Song, FavoriteFormError>(FavoriteFormError::NoCheckboxValue),
            Some((Some(v), checked)) => r matches Ok(song) && song.category == c && song.name.0@ == n@ && song.idx.0@
                == v@ && song.checked == checked,
        },
    }
}

/// The fields give a song.
pub open spec fn song_ok(f: FavoriteSongFields) -> bool {
    f.name is Some && f.checkbox matches Some((Some(_), _))
}

/// The genre reads: its heading names a category and every song reads.
pub open spec fn genre_ok(g: GenreFields) -> bool {
    &&& g.heading matches Some(h) && category_of_text(h@) is Some
    &&& forall|i: int| 0 <= i < g.songs@.len() ==> song_ok(#[trigger] g.songs@[i])
}

/// Why a genre that does not read fails: its heading, or its first song
/// that does not read.
pub open spec fn genre_error(g: GenreFields, e: FavoriteFormError) -> bool {
    match g.heading {
        None => e == FavoriteFormError::NoHeading,
        Some(h) => match category_of_text(h@) {
            None => e == FavoriteFormError::UnknownCategory,
            Some(c) => exists|i: int|
                0 <= i < g.songs@.len() && (forall|j: int| 0 <= j < i ==> song_ok(#[trigger] g.songs@[j]))
                    && song_read(c, #[trigger] g.songs@[i], Err(e)),
        },
    }
}

/// The songs of the genres one after the other, when all read: the
/// category of each genre's heading, with the song's fields.
pub open spec fn page_songs(gs: Seq<GenreFields>) -> Seq<(Category, FavoriteSongFields)>
    decreases gs.len(),
{
    if gs.len() == 0 {
        Seq::empty()
    } else {
        let g = gs.last();
        let c = category_of_text((g.heading->0)@)->0;
        page_songs(gs.drop_last()) + g.songs@.map_values(|f: FavoriteSongFields| (c, f))
    }
}

fn parse_genre(g: &GenreFields, out: &mut Vec<Song>) -> (r: Result<(), FavoriteFormError>)
    ensures
        r is Ok <==> genre_ok(*g),
        r is Ok ==> final(out)@.len() == old(out)@.len() + g.songs@.len() && final(out)@.take(old(out)@.len() as int)
            == old(out)@ && forall|i: int|
            0 <= i < g.songs@.len() ==> song_read(
                category_of_text((g.heading->0)@)->0,
                g.songs@[i],
                Ok(#[trigger] final(out)@[old(out)@.len() + i]),
            ),
        r matches Err(e) ==> genre_error(*g, e),
{
    let heading = match &g.heading {
        None => {
            return Err(FavoriteFormError::NoHeading);
        },
        Some(h) => h,
    };
    let category = match category_from_str(heading.as_str()) {
        Ok(c) => c,
        Err(_) => {
            return Err(FavoriteFormError::UnknownCategory);
        },
    };
    let ghost start = out@;
    let mut i: usize = 0;
    while i < g.songs.len()
        invariant
            0 <= i <= g.songs@.len(),
            g.heading matches Some(h) && category_of_text(h@) == Some(category),
            out@.len() == start.len() + i,
            out@.take(start.len() as int) == start,
            forall|j: int| 0 <= j < i ==> song_ok(#[trigger] g.songs@[j]),
            forall|j: int| 0 <= j < i ==> song_read(category, g.songs@[j], Ok(#[trigger] out@[start.len() + j])),
        decreases g.songs@.len() - i,
    {
        let f = &g.songs[i];
        let name = match &f.name {
            None => {
                proof {
                    assert(song_read(category, g.songs@[i as int], Err(FavoriteFormError::NoName)));
                }
                return Err(FavoriteFormError::NoName);
            },
            Some(n) => n,
        };
        let (value, checked) = match &f.checkbox {
            None => {
                proof {
                    assert(song_read(category, g.songs@[i as int], Err(FavoriteFormError::NoCheckbox)));
                }
                return Err(FavoriteFormError::NoCheckbox);
            },
            Some((None, _)) => {
                proof {
                    assert(song_read(category, g.songs@[i as int], Err(FavoriteFormError::NoCheckboxValue)));
                }
                return Err(FavoriteFormError::NoCheckboxValue);
            },
            Some((Some(v), c)) => (v, *c),
        };
        let ghost before = out@;
        out.push(Song { category, name: SongName(name.clone()), idx: Idx(value.clone()), checked });
        proof {
            assert(out@.take(start.len() as int) =~= before.take(start.len() as int));
            assert forall|j: int| 0 <= j <= i implies song_read(category, g.songs@[j], Ok(#[trigger] out@[start.len() + j])) by {
                if j < i {
                    assert(out@[start.len() + j] == before[start.len() + j]);
                }
            }
        }
        i = i + 1;
    }
    Ok(())
}

/// Reads the favourite-songs form from the `value` of its token input
/// (`None` when there is no token input) and its genres in page order: the
/// songs of all genres one after the other, or the first error.
pub fn parse_page(token: Option<Option<&str>>, genres: &Vec<GenreFields>) -> (r: Result<Page, FavoriteFormError>)
    ensures
        token is None ==> r == Err::<Page, FavoriteFormError>(FavoriteFormError::NoToken),
        token == Some(None::<&str>) ==> r == Err::<Page, FavoriteFormError>(FavoriteFormError::NoTokenValue),
        token matches Some(Some(t)) ==> {
            &&& (forall|k: int| 0 <= k < genres@.len() ==> genre_ok(#[trigger] genres@[k])) ==> (r matches Ok(p)
                && p.token.0@ == t@ && p.songs@.len() == page_songs(genres@).len() && forall|i: int|
                0 <= i < p.songs@.len() ==> song_read(
                    (#[trigger] page_songs(genres@)[i]).0,
                    page_songs(genres@)[i].1,
                    Ok(p.songs@[i]),
                ))
            &&& !(forall|k: int| 0 <= k < genres@.len() ==> genre_ok(#[trigger] genres@[k])) ==> (r matches Err(e)
                && exists|k: int|
                0 <= k < genres@.len() && (forall|m: int| 0 <= m < k ==> genre_ok(#[trigger] genres@[m]))
                    && !genre_ok(genres@[k]) && genre_error(genres@[k], e))
        },
{
    let t = match token {
        None => {
            return Err(FavoriteFormError::NoToken);
        },
        Some(None) => {
            return Err(FavoriteFormError::NoTokenValue);
        },
        Some(Some(t)) => t,
    };
    let mut songs: Vec<Song> = Vec::new();
    let mut k: usize = 0;
    while k < genres.len()
        invariant
            0 <= k <= genres@.len(),
            token == Some(Some(t)),
            forall|m: int| 0 <= m < k ==> genre_ok(#[trigger] genres@[m]),
            songs@.len() == page_songs(genres@.take(k as int)).len(),
            forall|i: int|
                0 <= i < songs@.len() ==> song_read(
                    (#[trigger] page_songs(genres@.take(k as int))[i]).0,
                    page_songs(genres@.take(k as int))[i].1,
                    Ok(songs@[i]),
                ),
        decreases genres@.len() - k,
    {
        let ghost before = songs@;
        let ghost prev = page_songs(genres@.take(k as int));
        match parse_genre(&genres[k], &mut songs) {
            Ok(()) => {},
            Err(e) => {
                proof {
                    assert(!genre_ok(genres@[k as int]) && genre_error(genres@[k as int], e));
                }
                return Err(e);
            },
        }
        proof {
            let g = genres@[k as int];
            let c = category_of_text((g.heading->0)@)->0;
            assert(genres@.take(k + 1).drop_last() =~= genres@.take(k as int));
            assert(genres@.take(k + 1).last() == g);
            let now = page_songs(genres@.take(k + 1));
            assert(now =~= prev + g.songs@.map_values(|f: FavoriteSongFields| (c, f)));
            assert forall|i: int| 0 <= i < songs@.len() implies song_read(
                (#[trigger] now[i]).0,
                now[i].1,
                Ok(songs@[i]),
            ) by {
                if i < before.len() {
                    assert(songs@.take(before.len() as int)[i] == songs@[i]);
                    assert(songs@.take(before.len() as int)[i] == before[i]);
                    assert(prev[i] == now[i]);
                    assert(song_read(prev[i].0, prev[i].1, Ok(before[i])));
                } else {
                    let j = i - before.len();
                    assert(now[i] == (c, g.songs@[j]));
                    assert(song_read(c, g.songs@[j], Ok(songs@[before.len() + j])));
                }
            }
        }
        k = k + 1;
    }
    proof {
        assert(genres@.take(genres@.len() as int) =~= genres@);
    }
    Ok(Page { token: Token(t.to_string()), songs })
}

} // verus!
