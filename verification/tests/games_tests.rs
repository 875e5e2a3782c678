use steam_crawl::games::{combine_games_and_reviews, Game, Review};

fn game(appid: u32, recent: u16, forever: u32, rec: i8) -> Game {
    Game { appid, playtime_2weeks: recent, playtime_forever: forever, is_recommended: rec }
}

fn review(game_id: u32, is_recommended: bool, time_played: u32) -> Review {
    Review { game_id, is_recommended, time_played }
}

#[test]
fn no_reviews_leaves_games_unchanged() {
    let games = vec![game(10, 1, 2, 0), game(20, 3, 4, 0)];
    assert_eq!(combine_games_and_reviews(games.clone(), vec![]), games);
}

#[test]
fn owned_game_takes_recommendation() {
    let games = vec![game(10, 1, 2, 0), game(20, 3, 4, 0)];
    let out = combine_games_and_reviews(games, vec![review(20, true, 99)]);
    assert_eq!(out, vec![game(10, 1, 2, 0), game(20, 3, 4, 1)]);
}

#[test]
fn negative_review_gives_minus_one() {
    let out = combine_games_and_reviews(vec![game(10, 1, 2, 0)], vec![review(10, false, 5)]);
    assert_eq!(out, vec![game(10, 1, 2, -1)]);
}

#[test]
fn unowned_reviewed_game_is_appended() {
    let out = combine_games_and_reviews(vec![game(10, 1, 2, 0)], vec![review(30, true, 600)]);
    assert_eq!(out, vec![game(10, 1, 2, 0), game(30, 0, 600, 1)]);
}

#[test]
fn empty_library_gets_one_entry_per_review() {
    let out = combine_games_and_reviews(vec![], vec![review(5, false, 60), review(6, true, 0)]);
    assert_eq!(out, vec![game(5, 0, 60, -1), game(6, 0, 0, 1)]);
}

#[test]
fn later_review_of_owned_game_wins() {
    let out = combine_games_and_reviews(
        vec![game(10, 1, 2, 0)],
        vec![review(10, true, 1), review(10, false, 2)],
    );
    assert_eq!(out, vec![game(10, 1, 2, -1)]);
}

#[test]
fn repeated_unowned_review_is_appended_twice() {
    let out = combine_games_and_reviews(vec![], vec![review(7, true, 1), review(7, false, 2)]);
    assert_eq!(out, vec![game(7, 0, 1, 1), game(7, 0, 2, -1)]);
}

#[test]
fn only_first_duplicate_owned_entry_is_updated() {
    let out = combine_games_and_reviews(vec![game(10, 1, 2, 0), game(10, 3, 4, 0)], vec![review(10, true, 0)]);
    assert_eq!(out, vec![game(10, 1, 2, 1), game(10, 3, 4, 0)]);
}
