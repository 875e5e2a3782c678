# steam_crawl

A crawler that walks public Steam profiles through their friend lists and
stores, for every profile it meets, whether its friends, games and reviews are
visible, and the games it owns with the recommendations of its reviews.

- `src/` is the verified library (Verus):
  - `text.rs`: splitting, searching, trimming, decimal numbers, over characters;
  - `scrape.rs`: what the crawler reads from profile, friends and review pages;
  - `games.rs`: owned games and reviews, and how reviews are merged into games;
  - `fetch.rs`: the decisions after each web request (retry, slow down, give up);
  - `crawl.rs`: page addresses, new-profile filtering, stored records, and the
    choice of the next profile.
- `app/main.rs` is the program: HTTP requests, waiting, the SQLite database,
  JSON decoding of the Steam Web API, and the crawl loop.
- `tests/` exercises the library on concrete pages and replies.
