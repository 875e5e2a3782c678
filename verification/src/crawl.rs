//! The crawl itself: where pages are, which profiles are new, what is stored
//! for a profile, and which profile is visited next.
use vstd::prelude::*;
use crate::games::{combined, law_reviews_represented, Game, Review};
use crate::scrape::Visability;
use crate::text::{
    chars_equal, chars_of, decimal, decimal_chars, join_seq, join_strings, law_decimal_injective,
    string_of,
};

verus! {

/// The address of a profile's main page.
pub open spec fn profile_url_of(steam_id: Seq<char>) -> Seq<char> {
    "https://steamcommunity.com/profiles/"@ + steam_id + "/"@
}

/// The address of a profile's friends page.
pub open spec fn friends_url_of(steam_id: Seq<char>) -> Seq<char> {
    "https://steamcommunity.com/profiles/"@ + steam_id + "/friends/"@
}

/// The address of page `page` of a profile's reviews; the first page has no
/// page number.
pub open spec fn reviews_url_of(steam_id: Seq<char>, page: nat) -> Seq<char> {
    if page <= 1 {
        "https://steamcommunity.com/profiles/"@ + steam_id + "/reviews"@
    } else {
        "https://steamcommunity.com/profiles/"@ + steam_id + "/reviews/?p="@ + decimal(page)
    }
}

/// The Steam Web API address that lists a player's owned games.
pub open spec fn owned_games_url_of(steam_api: Seq<char>, steam_id: Seq<char>) -> Seq<char> {
    "http://api.steampowered.com/IPlayerService/GetOwnedGames/v0001/?key="@ + steam_api
        + "&steamid="@ + steam_id + "&format=json"@
}

/// The address of a profile's main page.
pub fn profile_url(steam_id: &str) -> (r: String)
    ensures
        r@ == profile_url_of(steam_id@),
{
    let mut r = String::new();
    r.append("https://steamcommunity.com/profiles/");
    r.append(steam_id);
    r.append("/");
    r
}

/// The address of a profile's friends page.
pub fn friends_url(steam_id: &str) -> (r: String)
    ensures
        r@ == friends_url_of(steam_id@),
{
    let mut r = String::new();
    r.append("https://steamcommunity.com/profiles/");
    r.append(steam_id);
    r.append("/friends/");
    r
}

/// The address of page `page` of a profile's reviews.
pub fn reviews_url(steam_id: &str, page: usize) -> (r: String)
    ensures
        r@ == reviews_url_of(steam_id@, page as nat),
{
    let mut r = String::new();
    r.append("https://steamcommunity.com/profiles/");
    r.append(steam_id);
    if page <= 1 {
        r.append("/reviews");
    } else {
        r.append("/reviews/?p=");
        let digits = string_of(&decimal_chars(page as u64));
        r.append(digits.as_str());
    }
    r
}

/// The Steam Web API address that lists a player's owned games.
pub fn owned_games_url(steam_api: &str, steam_id: &str) -> (r: String)
    ensures
        r@ == owned_games_url_of(steam_api@, steam_id@),
{
    let mut r = String::new();
    r.append("http://api.steampowered.com/IPlayerService/GetOwnedGames/v0001/?key=");
    r.append(steam_api);
    r.append("&steamid=");
    r.append(steam_id);
    r.append("&format=json");
    r
}

/// Every review page has its own address: two different page numbers from
/// one upward never share one, so each page is read once.
pub proof fn law_review_pages_distinct(steam_id: Seq<char>, p: nat, q: nat)
    requires
        1 <= p,
        1 <= q,
        p != q,
    ensures
        reviews_url_of(steam_id, p) != reviews_url_of(steam_id, q),
{
    reveal_strlit("/reviews");
    reveal_strlit("/reviews/?p=");
    let base = "https://steamcommunity.com/profiles/"@ + steam_id;
    if p >= 2 && q >= 2 {
        let long = base + "/reviews/?p="@;
        if reviews_url_of(steam_id, p) == reviews_url_of(steam_id, q) {
            assert(reviews_url_of(steam_id, p) =~= long + decimal(p));
            assert(reviews_url_of(steam_id, q) =~= long + decimal(q));
            assert(decimal(p) =~= reviews_url_of(steam_id, p).subrange(long.len() as int, reviews_url_of(steam_id, p).len() as int));
            assert(decimal(q) =~= reviews_url_of(steam_id, q).subrange(long.len() as int, reviews_url_of(steam_id, q).len() as int));
            law_decimal_injective(p, q);
        }
    } else {
        let k = if p >= 2 { p } else { q };
        crate::text::lemma_decimal_is_digits(k);
        assert(reviews_url_of(steam_id, k).len() > reviews_url_of(steam_id, 1).len());
    }
}

/// How many review pages are read, given how many there are: all of them,
/// unless there are 150 or more, in which case none.
pub open spec fn review_pages_of(page_count: nat) -> nat {
    if page_count < 150 {
        page_count
    } else {
        0
    }
}

/// How many review pages are read.
pub fn review_pages(page_count: usize) -> (r: usize)
    ensures
        r == review_pages_of(page_count as nat),
{
    if page_count < 150 {
        page_count
    } else {
        0
    }
}

/// The query for the stored accounts among the listed ids; the ids are
/// written into the query as they are, separated by commas.
pub open spec fn known_accounts_query_of(ids: Seq<Seq<char>>) -> Seq<char> {
    "SELECT steamID FROM accounts WHERE SteamID IN ("@ + join_seq(ids, ","@) + ")"@
}

/// The query for the stored accounts among `ids`.
pub fn known_accounts_query(ids: &Vec<String>) -> (r: String)
    ensures
        r@ == known_accounts_query_of(ids.deep_view()),
{
    let joined = join_strings(ids, ",");
    let mut r = String::new();
    r.append("SELECT steamID FROM accounts WHERE SteamID IN (");
    r.append(joined.as_str());
    r.append(")");
    r
}

/// The id is one of the stored accounts, written in decimal.
pub open spec fn is_known(id: Seq<char>, stored: Seq<u64>) -> bool {
    exists|j: int| 0 <= j < stored.len() && decimal(stored[j] as nat) == id
}

/// The listed ids that are not stored yet, in their order.
pub open spec fn unknown_ids_of(ids: Seq<Seq<char>>, stored: Seq<u64>) -> Seq<Seq<char>> {
    ids.filter(|id: Seq<char>| !is_known(id, stored))
}

/// The listed ids that are not among the stored accounts, in their order.
pub fn unknown_ids(id_list: Vec<String>, stored: &Vec<u64>) -> (r: Vec<String>)
    ensures
        r.deep_view() == unknown_ids_of(id_list.deep_view(), stored@),
{
    let mut stored_text: Vec<Vec<char>> = Vec::new();
    for j in 0..stored.len()
        invariant
            stored_text.len() == j,
            forall|k: int| 0 <= k < j ==> (#[trigger] stored_text@[k])@ == decimal(stored@[k] as nat),
    {
        stored_text.push(decimal_chars(stored[j]));
    }
    let ghost ids = id_list.deep_view();
    let ghost pred = |id: Seq<char>| !is_known(id, stored@);
    let mut out: Vec<String> = Vec::new();
    for i in 0..id_list.len()
        invariant
            ids == id_list.deep_view(),
            pred == (|id: Seq<char>| !is_known(id, stored@)),
            stored_text.len() == stored.len(),
            forall|k: int| 0 <= k < stored.len() ==> (#[trigger] stored_text@[k])@ == decimal(stored@[k] as nat),
            out.deep_view() == ids.take(i as int).filter(pred),
    {
        let id = chars_of(id_list[i].as_str());
        let mut known = false;
        let mut k: usize = 0;
        while k < stored_text.len()
            invariant
                stored_text.len() == stored.len(),
                forall|k: int| 0 <= k < stored.len() ==> (#[trigger] stored_text@[k])@ == decimal(stored@[k] as nat),
                k <= stored_text.len(),
                id@ == ids[i as int],
                i < ids.len(),
                known == exists|j: int| 0 <= j < k && decimal(stored@[j] as nat) == id@,
            decreases stored_text.len() - k,
        {
            if chars_equal(&stored_text[k], &id) {
                known = true;
            }
            k += 1;
        }
        assert(known == is_known(ids[i as int], stored@));
        assert(ids.take(i + 1).drop_last() =~= ids.take(i as int));
        assert(ids.take(i + 1).last() == ids[i as int]);
        assert(pred(ids[i as int]) == !known);
        proof {
            reveal_with_fuel(Seq::filter, 1);
        }
        assert(ids.take(i + 1).filter(pred) == if pred(ids[i as int]) {
            ids.take(i as int).filter(pred).push(ids[i as int])
        } else {
            ids.take(i as int).filter(pred)
        });
        if !known {
            let ghost before = out.deep_view();
            out.push(string_of(&id));
            assert(out.deep_view() =~= before.push(ids[i as int]));
        }
    }
    assert(ids.take(id_list.len() as int) =~= ids);
    out
}

/// Of the listed ids, exactly those not stored come back: no stored
/// account is listed twice, and no new profile is skipped.
pub proof fn law_new_ids_only(ids: Seq<Seq<char>>, stored: Seq<u64>)
    ensures
        forall|i: int|
            0 <= i < unknown_ids_of(ids, stored).len() ==> !is_known(
                #[trigger] unknown_ids_of(ids, stored)[i],
                stored,
            ),
        forall|i: int|
            0 <= i < ids.len() && !is_known(#[trigger] ids[i], stored) ==> unknown_ids_of(
                ids,
                stored,
            ).contains(ids[i]),
        unknown_ids_of(ids, stored).len() <= ids.len(),
{
    let pred = |id: Seq<char>| !is_known(id, stored);
    ids.lemma_filter_len(pred);
    assert forall|i: int| 0 <= i < unknown_ids_of(ids, stored).len() implies !is_known(
        #[trigger] unknown_ids_of(ids, stored)[i],
        stored,
    ) by {
        ids.lemma_filter_pred(pred, i);
    }
    assert forall|i: int| 0 <= i < ids.len() && !is_known(#[trigger] ids[i], stored) implies unknown_ids_of(
        ids,
        stored,
    ).contains(ids[i]) by {
        ids.lemma_filter_contains(pred, i);
    }
}

/// No stored account comes back: the decimal id of every stored account is
/// dropped from any list, and an id that is the decimal of no stored account
/// is kept.
pub proof fn law_stored_ids_dropped(ids: Seq<Seq<char>>, stored: Seq<u64>)
    ensures
        forall|j: int|
            0 <= j < stored.len() ==> !unknown_ids_of(ids, stored).contains(
                decimal(#[trigger] stored[j] as nat),
            ),
        forall|i: int|
            0 <= i < ids.len() && (forall|j: int|
                0 <= j < stored.len() ==> decimal(#[trigger] stored[j] as nat) != ids[i])
                ==> unknown_ids_of(ids, stored).contains(#[trigger] ids[i]),
{
    law_new_ids_only(ids, stored);
    assert forall|j: int|
        0 <= j < stored.len() implies !unknown_ids_of(ids, stored).contains(
        decimal(#[trigger] stored[j] as nat),
    ) by {
        let x = decimal(stored[j] as nat);
        assert(is_known(x, stored));
        if unknown_ids_of(ids, stored).contains(x) {
            let k = choose|k: int| 0 <= k < unknown_ids_of(ids, stored).len() && unknown_ids_of(ids, stored)[k] == x;
            assert(!is_known(unknown_ids_of(ids, stored)[k], stored));
        }
    }
}

/// Dropping the stored ids a second time changes nothing: a filtered list
/// holds no stored id.
pub proof fn law_unknown_ids_idempotent(ids: Seq<Seq<char>>, stored: Seq<u64>)
    ensures
        unknown_ids_of(unknown_ids_of(ids, stored), stored) == unknown_ids_of(ids, stored),
    decreases ids.len(),
{
    reveal_with_fuel(Seq::filter, 1);
    if ids.len() > 0 {
        let rest = ids.drop_last();
        let x = ids.last();
        law_unknown_ids_idempotent(rest, stored);
        let f = unknown_ids_of(rest, stored);
        if !is_known(x, stored) {
            assert(f.push(x).drop_last() =~= f);
            assert(f.push(x).last() == x);
            assert(unknown_ids_of(ids, stored) == f.push(x));
            assert(unknown_ids_of(f.push(x), stored) == unknown_ids_of(f, stored).push(x));
        } else {
            assert(unknown_ids_of(ids, stored) == f);
        }
    }
}

/// The JSON escape of one character of a string, as serde_json writes it:
/// quote and backslash escaped, the five named control characters by name,
/// other control characters as `\u00xx` in lower-case hex, all else as is.
pub open spec fn json_escaped(c: char) -> Seq<char> {
    if c == '"' {
        seq!['\\', '"']
    } else if c == '\\' {
        seq!['\\', '\\']
    } else if c == '\u{8}' {
        seq!['\\', 'b']
    } else if c == '\u{c}' {
        seq!['\\', 'f']
    } else if c == '\n' {
        seq!['\\', 'n']
    } else if c == '\r' {
        seq!['\\', 'r']
    } else if c == '\t' {
        seq!['\\', 't']
    } else if (c as int) < 0x20 {
        seq!['\\', 'u', '0', '0', hex_digit(c as int / 16), hex_digit(c as int % 16)]
    } else {
        seq![c]
    }
}

/// A lower-case hexadecimal digit.
pub open spec fn hex_digit(d: int) -> char {
    if d < 10 {
        (d + 48) as char
    } else {
        (d + 87) as char
    }
}

/// A JSON string literal.
pub open spec fn json_string(s: Seq<char>) -> Seq<char> {
    seq!['"'] + s.map_values(|c: char| json_escaped(c)).flatten() + seq!['"']
}

/// A compact JSON array of strings.
pub open spec fn json_string_list(items: Seq<Seq<char>>) -> Seq<char> {
    seq!['['] + join_seq(items.map_values(|s: Seq<char>| json_string(s)), seq![',']) + seq![']']
}

/// serde_json: `to_string` of a list of strings. Claimed: it succeeds (a
/// string list has no map keys and no serializer of its own that could fail,
/// and writing into memory does not fail) and gives the compact JSON array,
/// escaped as `json_escaped` says.
#[verifier::external_body]
fn strings_to_json(items: &Vec<String>) -> (r: Option<String>)
    ensures
        r is Some && r->0@ == json_string_list(items.deep_view()),
{
    serde_json::to_string(items).ok()
}

/// The friends column of an account: the ids as a JSON array of strings.
pub fn friends_json(friends: &Vec<String>) -> (r: String)
    ensures
        r@ == json_string_list(friends.deep_view()),
{
    match strings_to_json(friends) {
        Some(s) => s,
        None => String::new(),
    }
}

/// What the crawl does with one friend of the profile it is at.
#[derive(Debug, Clone, Copy, PartialEq, Eq)]
pub struct FriendPlan {
    /// The crawl goes on from this friend.
    pub becomes_next: bool,
    /// The friend's reviews and games are read.
    pub scrapeable: bool,
    /// The friend is stored as one whose friends are still to be visited.
    pub friends_available: bool,
}

/// The plan for a friend with visibility `v`, given whether an earlier
/// friend was already picked to go on from: the first friend that shows its
/// friends is picked, and is then not stored as still to be visited.
pub open spec fn plan_of(next_found: bool, v: Visability) -> FriendPlan {
    let takes = !next_found && v.freinds;
    FriendPlan {
        becomes_next: takes,
        scrapeable: v.games && v.reviews,
        friends_available: v.freinds && !takes,
    }
}

/// The plan for one friend.
pub fn plan_friend(next_found: bool, visibility: Visability) -> (r: FriendPlan)
    ensures
        r == plan_of(next_found, visibility),
{
    let takes = !next_found && visibility.freinds;
    FriendPlan {
        becomes_next: takes,
        scrapeable: visibility.games && visibility.reviews,
        friends_available: visibility.freinds && !takes,
    }
}

/// Whether a friend's reviews and games are read does not depend on whether
/// the crawl goes on from that friend: it is read exactly when both its games
/// and its reviews are visible.
pub proof fn law_scraping_independent_of_pick(v: Visability)
    ensures
        plan_of(true, v).scrapeable == plan_of(false, v).scrapeable,
        plan_of(false, v).scrapeable <==> (v.games && v.reviews),
        plan_of(false, v).becomes_next == v.freinds,
        !plan_of(true, v).becomes_next,
{
}

/// Whether a friend to go on from was picked among the first `k` friends,
/// the plans being made in order.
pub open spec fn picked_among(vs: Seq<Visability>, k: int) -> bool
    decreases k,
{
    if k <= 0 {
        false
    } else {
        picked_among(vs, k - 1) || plan_of(picked_among(vs, k - 1), vs[k - 1]).becomes_next
    }
}

/// Over one round of friends, the crawl goes on from exactly the first
/// friend that shows its friends; every other friend that shows them is
/// stored as still to be visited.
pub proof fn law_round_picks_first_visible(vs: Seq<Visability>, i: int)
    requires
        0 <= i < vs.len(),
    ensures
        picked_among(vs, i) == exists|j: int| 0 <= j < i && #[trigger] vs[j].freinds,
        plan_of(picked_among(vs, i), vs[i]).becomes_next <==> (vs[i].freinds && forall|j: int|
            0 <= j < i ==> !#[trigger] vs[j].freinds),
        plan_of(picked_among(vs, i), vs[i]).friends_available <==> (vs[i].freinds && exists|j: int|
            0 <= j < i && #[trigger] vs[j].freinds),
    decreases i,
{
    lemma_picked_among(vs, i);
}

proof fn lemma_picked_among(vs: Seq<Visability>, k: int)
    requires
        0 <= k <= vs.len(),
    ensures
        picked_among(vs, k) == exists|j: int| 0 <= j < k && #[trigger] vs[j].freinds,
    decreases k,
{
    if k > 0 {
        lemma_picked_among(vs, k - 1);
        if vs[k - 1].freinds {
            assert(exists|j: int| 0 <= j < k && #[trigger] vs[j].freinds);
        }
    }
}

/// What is stored for a visited profile.
pub struct AccountRecord {
    /// Games were read for the profile.
    pub games_used: bool,
    /// The profile's friends are still to be visited.
    pub friends_available: bool,
    /// The games read, reviews merged in.
    pub games: Vec<Game>,
}

/// The record of a profile from the games read for it.
pub fn account_record(friends_available: bool, scraped: Vec<Game>) -> (r: AccountRecord)
    ensures
        r.games_used == (scraped.len() > 0),
        r.friends_available == friends_available,
        r.games@ == scraped@,
{
    AccountRecord { games_used: scraped.len() > 0, friends_available, games: scraped }
}

/// Whether the owned games are looked up: only for a profile with reviews.
pub fn wants_game_list(reviews: &Vec<Review>) -> (r: bool)
    ensures
        r == (reviews.len() > 0),
{
    reviews.len() > 0
}

/// A profile whose reviews could be read is stored as one with games.
pub proof fn law_reviewed_profile_has_games(games: Seq<Game>, reviews: Seq<Review>)
    requires
        reviews.len() > 0,
    ensures
        combined(games, reviews).len() > 0,
{
    law_reviews_represented(games, reviews, 0);
}

/// The profile to go on from when a round found none: the first stored
/// account whose friends are still to be visited, in decimal.
pub fn next_source(stored: &Vec<u64>) -> (r: Option<String>)
    ensures
        stored.len() == 0 ==> r is None,
        stored.len() > 0 ==> r is Some && r->0@ == decimal(stored@[0] as nat),
{
    if stored.len() == 0 {
        None
    } else {
        Some(string_of(&decimal_chars(stored[0])))
    }
}

} // verus!
