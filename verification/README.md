# maimai_scraping

A verified toolkit for the play records of maimai DX: it reads the pages of
the official record site, ties records to a song database, estimates the
internal levels of charts and describes plays, with every rule stated as a
contract and proved with Verus.

## Layout

- `src/` — the library, verified by Verus.
  - `maimai/rating.rs` — levels, score constants, candidate sets of internal
    levels, and the rating formula.
  - `maimai/version.rs` — the game versions and their dates.
  - `maimai/schema/` — the record schema: play times, indices, results.
  - `dom.rs` — the element tree of a page as `scraper` builds it: elements
    named by their position in document order, and the queries the readers
    make (select, text, attributes, siblings, parent).
  - `maimai/parser/` — the readers of the site's pages: image addresses,
    texts, and the pages of play records, the record index, rating targets
    and the score list. Each page reader walks the page through `dom.rs`,
    states exactly what it took from where, and reads those values.
  - `maimai/song_list/` — the song list, its checks and the database that
    play records are tied to; lists of internal levels.
  - `maimai/associated_user_data.rs` — play records and rating target lists
    tied to the charts of a database.
  - `maimai/internal_lv_estimator.rs`, `maimai/estimate_rating.rs` — the
    estimation of internal levels from ratings and rating target lists.
  - `maimai/official_song_list.rs` — the official song list.
  - `data_collector.rs`, `maimai/data_collector.rs` — which records and
    rating target lists to fetch.
  - `watcher/` — the messages posted for plays, the decisions of the
    watcher loop, and the steps of one run.
  - `screenshot.rs`, `sega.rs`, `cookie_store.rs` — file names of
    screenshots, addresses of the site, stored credentials.
- `tests/` — tests of the library on concrete values.
- `app/` — a command-line front end that reads saved pages from files and
  prints what the library makes of them.
