use steam_crawl::crawl::{
    account_record, friends_json, friends_url, known_accounts_query, next_source, owned_games_url, plan_friend,
    profile_url, review_pages, reviews_url, unknown_ids, wants_game_list, FriendPlan,
};
use steam_crawl::games::{combine_games_and_reviews, Game, Review};
use steam_crawl::scrape::Visability;

#[test]
fn page_addresses() {
    assert_eq!(profile_url("765"), "https://steamcommunity.com/profiles/765/");
    assert_eq!(friends_url("765"), "https://steamcommunity.com/profiles/765/friends/");
    assert_eq!(reviews_url("765", 1), "https://steamcommunity.com/profiles/765/reviews");
    assert_eq!(reviews_url("765", 12), "https://steamcommunity.com/profiles/765/reviews/?p=12");
    assert_eq!(
        owned_games_url("KEY", "765"),
        "http://api.steampowered.com/IPlayerService/GetOwnedGames/v0001/?key=KEY&steamid=765&format=json"
    );
}

#[test]
fn review_page_limit() {
    assert_eq!(review_pages(1), 1);
    assert_eq!(review_pages(149), 149);
    assert_eq!(review_pages(150), 0);
}

#[test]
fn known_accounts_query_lists_ids() {
    let ids = vec!["1".to_string(), "22".to_string()];
    assert_eq!(known_accounts_query(&ids), "SELECT steamID FROM accounts WHERE SteamID IN (1,22)");
    assert_eq!(known_accounts_query(&vec![]), "SELECT steamID FROM accounts WHERE SteamID IN ()");
}

#[test]
fn stored_ids_are_dropped() {
    let ids = vec!["1".to_string(), "22".to_string(), "3".to_string(), "022".to_string()];
    assert_eq!(unknown_ids(ids, &vec![22, 5]), vec!["1".to_string(), "3".to_string(), "022".to_string()]);
    assert_eq!(unknown_ids(vec!["7".to_string()], &vec![]), vec!["7".to_string()]);
}

#[test]
fn friends_column_is_json() {
    let friends = vec!["765".to_string(), "a\"b\\c\n\u{1}é".to_string()];
    let json = friends_json(&friends);
    assert_eq!(json, "[\"765\",\"a\\\"b\\\\c\\n\\u0001é\"]");
    assert_eq!(serde_json::from_str::<Vec<String>>(&json).unwrap(), friends);
    assert_eq!(friends_json(&vec![]), "[]");
}

fn vis(games: bool, freinds: bool, reviews: bool) -> Visability {
    Visability { games, freinds, reviews }
}

#[test]
fn first_friend_with_visible_friends_is_next() {
    let round = vec![vis(true, false, true), vis(true, true, false), vis(false, true, true)];
    let mut found = false;
    let mut plans = Vec::new();
    for v in round {
        let plan = plan_friend(found, v);
        found = found || plan.becomes_next;
        plans.push(plan);
    }
    assert_eq!(
        plans,
        vec![
            FriendPlan { becomes_next: false, scrapeable: true, friends_available: false },
            FriendPlan { becomes_next: true, scrapeable: false, friends_available: false },
            FriendPlan { becomes_next: false, scrapeable: false, friends_available: true },
        ]
    );
}

#[test]
fn stored_record_of_reviewed_profile() {
    let reviews = vec![Review { game_id: 9, is_recommended: true, time_played: 30 }];
    assert!(wants_game_list(&reviews));
    assert!(!wants_game_list(&vec![]));
    let record = account_record(true, combine_games_and_reviews(vec![], reviews));
    assert!(record.games_used);
    assert!(record.friends_available);
    assert_eq!(record.games, vec![Game { appid: 9, playtime_2weeks: 0, playtime_forever: 30, is_recommended: 1 }]);
    assert!(!account_record(false, vec![]).games_used);
}

#[test]
fn next_source_is_first_stored() {
    assert_eq!(next_source(&vec![76561198273971203, 5]), Some("76561198273971203".to_string()));
    assert_eq!(next_source(&vec![]), None);
}

#[test]
fn dropping_stored_ids_twice_changes_nothing() {
    let stored = vec![22, 5];
    let ids = vec!["5".to_string(), "1".to_string(), "22".to_string(), "3".to_string()];
    let once = unknown_ids(ids, &stored);
    assert_eq!(unknown_ids(once.clone(), &stored), once);
}
