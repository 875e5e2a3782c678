//! Owned games, written reviews, and how the two are merged.
use vstd::prelude::*;

verus! {

/// A game in a player's library, as the Steam Web API lists it, with the
/// player's recommendation: `1` recommended, `-1` not recommended, `0` no review.
#[derive(Debug, Clone, Copy, PartialEq, Eq)]
pub struct Game {
    pub appid: u32,
    pub playtime_2weeks: u16,
    pub playtime_forever: u32,
    pub is_recommended: i8,
}

/// A review read from a profile's review pages.
#[derive(Debug, Clone, Copy, PartialEq, Eq)]
pub struct Review {
    pub game_id: u32,
    pub is_recommended: bool,
    /// Minutes played, as the review page states it.
    pub time_played: u32,
}

/// The recommendation value that a review gives its game.
pub open spec fn recommendation(r: Review) -> i8 {
    if r.is_recommended {
        1i8
    } else {
        -1i8
    }
}

/// The library entry made for a reviewed game that the library lacks.
pub open spec fn game_from_review(r: Review) -> Game {
    Game {
        appid: r.game_id,
        playtime_2weeks: 0,
        playtime_forever: r.time_played,
        is_recommended: recommendation(r),
    }
}

/// The first index at or after `i` of a game with id `appid`.
pub open spec fn position_from(games: Seq<Game>, appid: u32, i: int) -> Option<int>
    decreases games.len() - i,
{
    if i < 0 || i >= games.len() {
        None
    } else if games[i].appid == appid {
        Some(i)
    } else {
        position_from(games, appid, i + 1)
    }
}

/// The first index of a game with id `appid` (`Iterator::position`).
pub open spec fn position_of(games: Seq<Game>, appid: u32) -> Option<int> {
    position_from(games, appid, 0)
}

/// `games` as `acc` stands after one more review: the first game of the
/// original library with the review's id takes its recommendation; a game the
/// library lacks is appended.
pub open spec fn apply_review(games: Seq<Game>, acc: Seq<Game>, r: Review) -> Seq<Game> {
    match position_of(games, r.game_id) {
        Some(p) => acc.update(p, Game { is_recommended: recommendation(r), ..acc[p] }),
        None => acc.push(game_from_review(r)),
    }
}

/// The library after all reviews have been applied in order.
pub open spec fn combined(games: Seq<Game>, reviews: Seq<Review>) -> Seq<Game>
    decreases reviews.len(),
{
    if reviews.len() == 0 {
        games
    } else {
        apply_review(games, combined(games, reviews.drop_last()), reviews.last())
    }
}

/// What `position_of` means.
pub proof fn lemma_position_of(games: Seq<Game>, appid: u32)
    ensures
        match position_of(games, appid) {
            Some(p) => 0 <= p < games.len() && games[p].appid == appid && forall|j: int|
                0 <= j < p ==> #[trigger] games[j].appid != appid,
            None => forall|j: int| 0 <= j < games.len() ==> #[trigger] games[j].appid != appid,
        },
{
    lemma_position_from(games, appid, 0);
}

proof fn lemma_position_from(games: Seq<Game>, appid: u32, i: int)
    requires
        0 <= i,
    ensures
        match position_from(games, appid, i) {
            Some(p) => i <= p < games.len() && games[p].appid == appid && forall|j: int|
                i <= j < p ==> #[trigger] games[j].appid != appid,
            None => forall|j: int| i <= j < games.len() ==> #[trigger] games[j].appid != appid,
        },
    decreases games.len() - i,
{
    if i < games.len() && games[i].appid != appid {
        lemma_position_from(games, appid, i + 1);
    }
}

fn position(games: &Vec<Game>, appid: u32) -> (r: Option<usize>)
    ensures
        match r {
            Some(p) => position_of(games@, appid) == Some(p as int),
            None => position_of(games@, appid) is None,
        },
{
    let mut i: usize = 0;
    while i < games.len()
        invariant
            i <= games.len(),
            position_of(games@, appid) == position_from(games@, appid, i as int),
        decreases games.len() - i,
    {
        if games[i].appid == appid {
            return Some(i);
        }
        i += 1;
    }
    None
}

/// Merges a player's reviews into the list of games the player owns.
///
/// Each review, in order, sets the recommendation of the first owned game
/// with its id; a reviewed game that is not owned is appended, with no
/// recent playtime and the review's time played.
pub fn combine_games_and_reviews(games: Vec<Game>, reviews: Vec<Review>) -> (r: Vec<Game>)
    ensures
        r@ == combined(games@, reviews@),
{
    if reviews.len() == 0 {
        return games;
    }
    let mut new_games: Vec<Game> = Vec::new();
    for i in 0..games.len()
        invariant
            new_games@ == games@.take(i as int),
    {
        new_games.push(games[i]);
    }
    assert(games@.take(games.len() as int) == games@);
    for k in 0..reviews.len()
        invariant
            new_games@ == combined(games@, reviews@.take(k as int)),
    {
        let review = reviews[k];
        let recommendation_i8: i8 = if review.is_recommended { 1 } else { -1 };
        assert(reviews@.take(k + 1).drop_last() == reviews@.take(k as int));
        match position(&games, review.game_id) {
            None => {
                new_games.push(
                    Game {
                        appid: review.game_id,
                        playtime_2weeks: 0,
                        playtime_forever: review.time_played,
                        is_recommended: recommendation_i8,
                    },
                );
            },
            Some(p) => {
                proof {
                    lemma_position_of(games@, review.game_id);
                    lemma_combined_len_at_least(games@, reviews@.take(k as int));
                }
                let old = new_games[p];
                new_games.set(p, Game { is_recommended: recommendation_i8, ..old });
            },
        }
    }
    assert(reviews@.take(reviews.len() as int) == reviews@);
    new_games
}

/// The merged list is never shorter than the owned list.
pub proof fn lemma_combined_len_at_least(games: Seq<Game>, reviews: Seq<Review>)
    ensures
        combined(games, reviews).len() >= games.len(),
    decreases reviews.len(),
{
    if reviews.len() > 0 {
        lemma_combined_len_at_least(games, reviews.drop_last());
        lemma_position_of(games, reviews.last().game_id);
    }
}


/// The entries that merging appends, in review order: one for each review of
/// a game that the owned list lacks.
pub open spec fn appended_games(games: Seq<Game>, reviews: Seq<Review>) -> Seq<Game> {
    reviews.filter_map(
        |r: Review|
            if position_of(games, r.game_id) is None {
                Some(game_from_review(r))
            } else {
                None
            },
    )
}

/// `k` is the last review of game `appid`.
pub open spec fn last_review_of(reviews: Seq<Review>, appid: u32, k: int) -> bool {
    &&& 0 <= k < reviews.len()
    &&& reviews[k].game_id == appid
    &&& forall|j: int| k < j < reviews.len() ==> #[trigger] reviews[j].game_id != appid
}

/// Some review is about game `appid`.
pub open spec fn reviewed(reviews: Seq<Review>, appid: u32) -> bool {
    exists|k: int| 0 <= k < reviews.len() && #[trigger] reviews[k].game_id == appid
}

/// Merging keeps every owned game in its place with its id and playtimes.
/// The first owned game of an id takes the recommendation of the last review
/// of that id; an owned game that no review names, or that repeats an id met
/// earlier in the list, is left exactly as it was.
pub proof fn law_owned_games_kept(games: Seq<Game>, reviews: Seq<Review>, i: int)
    requires
        0 <= i < games.len(),
    ensures
        combined(games, reviews)[i].appid == games[i].appid,
        combined(games, reviews)[i].playtime_2weeks == games[i].playtime_2weeks,
        combined(games, reviews)[i].playtime_forever == games[i].playtime_forever,
        position_of(games, games[i].appid) != Some(i) || !reviewed(reviews, games[i].appid)
            ==> combined(games, reviews)[i] == games[i],
        forall|k: int|
            position_of(games, games[i].appid) == Some(i) && #[trigger] last_review_of(
                reviews,
                games[i].appid,
                k,
            ) ==> combined(games, reviews)[i].is_recommended == recommendation(reviews[k]),
    decreases reviews.len(),
{
    if reviews.len() > 0 {
        let rest = reviews.drop_last();
        let r = reviews.last();
        let a = games[i].appid;
        law_owned_games_kept(games, rest, i);
        lemma_combined_len_at_least(games, rest);
        lemma_position_of(games, r.game_id);
        assert forall|k: int|
            position_of(games, a) == Some(i) && #[trigger] last_review_of(reviews, a, k) implies
            combined(games, reviews)[i].is_recommended == recommendation(reviews[k]) by {
            if k < reviews.len() - 1 {
                assert(last_review_of(rest, a, k));
                assert(reviews[reviews.len() - 1].game_id != a);
            }
        }
        if !reviewed(reviews, a) {
            assert forall|k: int| 0 <= k < rest.len() implies #[trigger] rest[k].game_id != a by {
                assert(reviews[k] == rest[k]);
            }
            assert(reviews[reviews.len() - 1].game_id != a);
        }
        if position_of(games, a) != Some(i) && r.game_id == a {
            lemma_position_of(games, a);
        }
    }
}

/// After the owned games, the merged list holds exactly the appended entries.
pub proof fn law_unowned_reviews_appended(games: Seq<Game>, reviews: Seq<Review>)
    ensures
        combined(games, reviews).len() == games.len() + appended_games(games, reviews).len(),
        forall|j: int|
            0 <= j < appended_games(games, reviews).len() ==> combined(games, reviews)[games.len()
                + j] == #[trigger] appended_games(games, reviews)[j],
    decreases reviews.len(),
{
    if reviews.len() > 0 {
        let rest = reviews.drop_last();
        law_unowned_reviews_appended(games, rest);
        lemma_combined_len_at_least(games, rest);
        lemma_position_of(games, reviews.last().game_id);
        reveal_with_fuel(Seq::filter_map, 1);
    }
}

/// The merged list is empty only when there were neither games nor reviews,
/// and every reviewed game has an entry in it.
pub proof fn law_reviews_represented(games: Seq<Game>, reviews: Seq<Review>, k: int)
    requires
        0 <= k < reviews.len(),
    ensures
        combined(games, reviews).len() > 0,
        exists|i: int|
            0 <= i < combined(games, reviews).len() && #[trigger] combined(games, reviews)[i].appid
                == reviews[k].game_id,
    decreases reviews.len(),
{
    let rest = reviews.drop_last();
    let r = reviews.last();
    lemma_combined_len_at_least(games, rest);
    lemma_position_of(games, r.game_id);
    if k < reviews.len() - 1 {
        law_reviews_represented(games, rest, k);
        let i = choose|i: int|
            0 <= i < combined(games, rest).len() && #[trigger] combined(games, rest)[i].appid
                == rest[k].game_id;
        assert(combined(games, reviews)[i].appid == reviews[k].game_id);
    } else {
        match position_of(games, r.game_id) {
            Some(p) => {
                law_owned_games_kept(games, rest, p);
                assert(combined(games, reviews)[p].appid == r.game_id);
            },
            None => {
                let n = combined(games, rest).len() as int;
                assert(combined(games, reviews)[n].appid == r.game_id);
            },
        }
    }
}

/// With no reviews the owned list comes back unchanged.
pub proof fn law_no_reviews_no_change(games: Seq<Game>)
    ensures
        combined(games, Seq::empty()) == games,
{
}

} // verus!
