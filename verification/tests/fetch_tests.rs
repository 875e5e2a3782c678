use steam_crawl::fetch::{ApiReply, ApiStep, GameListFetch, PageFetch, Reply, Step};
use steam_crawl::games::Game;

fn body(s: &str) -> Reply {
    Reply::Body(s.to_string())
}

fn failure(status: Option<u16>, message: &str) -> Reply {
    Reply::Failure { status, message: message.to_string() }
}

fn describe(step: Step) -> String {
    match step {
        Step::Request { wait_secs } => format!("wait {wait_secs}"),
        Step::Deliver { body, slow_down } => format!("deliver {body} {slow_down}"),
        Step::Abort => "abort".to_string(),
    }
}

fn run(replies: Vec<Reply>) -> Vec<String> {
    let mut fetch = PageFetch::new();
    replies.into_iter().map(|r| describe(fetch.step(r))).collect()
}

#[test]
fn first_page_is_delivered() {
    assert_eq!(run(vec![body("<html>"), body("again")]), vec!["deliver <html> false", "abort"]);
}

#[test]
fn dns_errors_wait_ten_minutes() {
    assert_eq!(
        run(vec![failure(None, "dns error"), failure(None, "x: dns error"), body("page")]),
        vec!["wait 600", "wait 600", "deliver page false"]
    );
}

#[test]
fn dns_wait_ends_without_page_when_other_error() {
    assert_eq!(run(vec![failure(None, "dns error"), failure(None, "timeout")]), vec!["wait 600", "abort"]);
}

#[test]
fn reset_connection_is_retried_after_a_second() {
    assert_eq!(
        run(vec![failure(None, "Connection reset by peer"), body("ok")]),
        vec!["wait 1", "deliver ok false"]
    );
    assert_eq!(run(vec![failure(None, "Connection reset by peer"), failure(None, "again")]), vec!["wait 1", "abort"]);
}

#[test]
fn closed_channel_waits_an_hour_and_slows_down() {
    assert_eq!(run(vec![failure(None, "channel closed"), body("ok")]), vec!["wait 3600", "deliver ok true"]);
    assert_eq!(run(vec![failure(None, "channel closed"), failure(None, "x")]), vec!["wait 3600", "abort"]);
}

#[test]
fn reset_and_closed_channel_both_retried() {
    assert_eq!(
        run(vec![failure(None, "Connection reset by peer; channel closed"), body("first"), body("second")]),
        vec!["wait 1", "wait 3600", "deliver second true"]
    );
}

#[test]
fn other_network_error_gives_up() {
    assert_eq!(run(vec![failure(None, "builder error")]), vec!["abort"]);
}

#[test]
fn throttling_waits_an_hour_and_slows_down() {
    assert_eq!(run(vec![failure(Some(429), "429"), body("ok")]), vec!["wait 3600", "deliver ok true"]);
    assert_eq!(run(vec![failure(Some(503), "503"), failure(Some(503), "503")]), vec!["wait 3600", "abort"]);
}

#[test]
fn other_status_retried_once_after_a_minute() {
    assert_eq!(run(vec![failure(Some(500), "500"), body("")]), vec!["wait 60", "deliver  false"]);
    assert_eq!(run(vec![failure(Some(404), "404"), failure(Some(404), "404")]), vec!["wait 60", "abort"]);
}

fn game(appid: u32) -> Game {
    Game { appid, playtime_2weeks: 0, playtime_forever: 1, is_recommended: 0 }
}

fn describe_api(step: ApiStep) -> String {
    match step {
        ApiStep::Request { wait_secs } => format!("wait {wait_secs}"),
        ApiStep::Deliver(games) => format!("deliver {}", games.iter().map(|g| g.appid.to_string()).collect::<Vec<_>>().join(",")),
        ApiStep::Abort => "abort".to_string(),
    }
}

fn run_api(replies: Vec<ApiReply>) -> Vec<String> {
    let mut fetch = GameListFetch::new();
    replies.into_iter().map(|r| describe_api(fetch.step(r))).collect()
}

#[test]
fn games_delivered() {
    assert_eq!(run_api(vec![ApiReply::Games(vec![game(1), game(2)])]), vec!["deliver 1,2"]);
}

#[test]
fn bad_gateway_page_retried_once() {
    assert_eq!(
        run_api(vec![ApiReply::Unreadable("<h1>502 Bad Gateway</h1>".to_string()), ApiReply::Games(vec![game(3)])]),
        vec!["wait 60", "deliver 3"]
    );
    assert_eq!(
        run_api(vec![ApiReply::Unreadable("504 Gateway Time-out".to_string()), ApiReply::Unreadable("x".to_string())]),
        vec!["wait 60", "abort"]
    );
}

#[test]
fn unreadable_reply_gives_up() {
    assert_eq!(run_api(vec![ApiReply::Unreadable("{}".to_string())]), vec!["abort"]);
}

#[test]
fn api_dns_errors_then_games() {
    let fail = |m: &str| ApiReply::Failure { status: None, message: m.to_string() };
    assert_eq!(
        run_api(vec![fail("dns error"), fail("dns error"), ApiReply::Games(vec![game(4)])]),
        vec!["wait 600", "wait 600", "deliver 4"]
    );
    assert_eq!(run_api(vec![fail("dns error"), fail("refused")]), vec!["wait 600", "deliver "]);
    assert_eq!(run_api(vec![fail("refused")]), vec!["deliver "]);
}

#[test]
fn api_gateway_timeout_status_retried() {
    let fail = |s: u16| ApiReply::Failure { status: Some(s), message: String::new() };
    assert_eq!(run_api(vec![fail(504), ApiReply::Games(vec![])]), vec!["wait 60", "deliver "]);
    assert_eq!(run_api(vec![fail(500)]), vec!["abort"]);
}

#[test]
fn empty_page_after_network_failure_gives_up() {
    assert_eq!(run(vec![failure(None, "channel closed"), body("")]), vec!["wait 3600", "abort"]);
    assert_eq!(run(vec![failure(None, "dns error"), body("")]), vec!["wait 600", "abort"]);
}
