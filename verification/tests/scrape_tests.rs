use steam_crawl::scrape::{
    friend_ids, friend_list_ids, get_review_page_count, profile_visibility, reviews_on_page, ScrapeError,
    Visability,
};

fn page(body: &str) -> String {
    format!("<!DOCTYPE html><html><head><title>t</title></head><body>{body}</body></html>")
}

#[test]
fn friend_ids_from_blocks() {
    let blocks = vec![
        "<div class=\"selectable\" data-steamid=\"76561198000000001\">a</div>".to_string(),
        "<div data-steamid=\"42\" class=\"selectable\"></div>".to_string(),
    ];
    assert_eq!(friend_ids(&blocks), Ok(vec!["76561198000000001".to_string(), "42".to_string()]));
}

#[test]
fn friend_block_without_id_is_an_error() {
    let blocks = vec!["<div class=\"selectable\">a</div>".to_string()];
    assert_eq!(friend_ids(&blocks), Err(ScrapeError::MalformedFriendBlock));
}

#[test]
fn friend_page_ids() {
    let doc = page(
        "<div id=\"search_results\">\
         <div class=\"selectable friend_block_v2 persona offline\" data-steamid=\"76561198000000001\" data-miniprofile=\"1\"><a href=\"https://steamcommunity.com/id/x\"></a></div>\
         <div class=\"selectable friend_block_v2 persona online\" data-steamid=\"76561198000000002\"></div>\
         </div>",
    );
    assert_eq!(
        friend_list_ids(&doc),
        Ok(vec!["76561198000000001".to_string(), "76561198000000002".to_string()])
    );
    assert_eq!(friend_list_ids(&page("<p>private</p>")), Ok(vec![]));
}

fn review_box(appid: &str, verdict: &str, hours: &str) -> String {
    format!(
        "<div class=\"review_box\"><div class=\"title\"><a href=\"https://steamcommunity.com/id/someone/recommended/{appid}/\">{verdict}</a></div>\
         <div class=\"hours\">\n\t\t\t{hours}\t\t</div></div>"
    )
}

#[test]
fn reviews_on_a_page() {
    let doc = page(&format!(
        "{}{}",
        review_box("427520", "Recommended", "1,234.5 hrs on record"),
        review_box("570", "Not Recommended", "0.3 hrs on record")
    ));
    let reviews = reviews_on_page(&doc).unwrap();
    assert_eq!(reviews.len(), 2);
    assert_eq!((reviews[0].game_id, reviews[0].is_recommended, reviews[0].hours.as_str()), (427520, true, "1234.5"));
    assert_eq!((reviews[1].game_id, reviews[1].is_recommended, reviews[1].hours.as_str()), (570, false, "0.3"));
}

#[test]
fn review_without_hours_number() {
    let doc = page(&review_box("10", "Recommended", ""));
    let reviews = reviews_on_page(&doc).unwrap();
    // No "hrs" marker: the text runs on to the closing tag, which reads as no time played.
    assert_eq!(reviews[0].hours, "</div");
}

#[test]
fn review_with_bad_app_id_is_an_error() {
    let doc = page(&review_box("abc", "Recommended", "1 hrs on record"));
    assert_eq!(reviews_on_page(&doc).map(|v| v.len()), Err(ScrapeError::MalformedReview));
}

#[test]
fn review_without_link_is_an_error() {
    let doc = page("<div class=\"review_box\"><div class=\"title\">x</div><div class=\"hours\">1 hrs</div></div>");
    assert_eq!(reviews_on_page(&doc).map(|v| v.len()), Err(ScrapeError::MalformedReview));
}

#[test]
fn page_count_from_last_link() {
    let doc = page(
        "<div class=\"workshopBrowsePagingControls\"><a class=\"pagelink\" href=\"?p=2\">2</a> ... <a class=\"pagelink\" href=\"?p=7\">7</a></div>",
    );
    assert_eq!(get_review_page_count(&doc), Ok(7));
}

#[test]
fn page_count_defaults_to_one() {
    assert_eq!(get_review_page_count(&page("<p>no paging</p>")), Ok(1));
    assert_eq!(get_review_page_count(&page("<div class=\"workshopBrowsePagingControls\"></div>")), Ok(1));
}

#[test]
fn page_count_uses_last_paging_block() {
    let doc = page(
        "<div class=\"workshopBrowsePagingControls\"><a class=\"pagelink\" href=\"?p=9\">9</a></div>\
         <div class=\"workshopBrowsePagingControls\"><a class=\"pagelink\" href=\"?p=3\">3</a></div>",
    );
    assert_eq!(get_review_page_count(&doc), Ok(3));
}

#[test]
fn page_link_without_number_is_an_error() {
    let doc = page("<div class=\"workshopBrowsePagingControls\"><a class=\"pagelink\" href=\"?page=7\">7</a></div>");
    assert_eq!(get_review_page_count(&doc), Err(ScrapeError::MalformedPageLink));
}

fn count_link(label: &str, total: &str) -> String {
    format!(
        "<div class=\"profile_count_link ellipsis\"><a href=\"x\"><span class=\"count_link_label\">{label}</span>&nbsp;<span class=\"profile_count_link_total\">\n\t\t{total}\t</span></a></div>"
    )
}

#[test]
fn visibility_of_an_open_profile() {
    let doc = page(&format!(
        "<div class=\"profile_item_links\">{}{}{}</div><div class=\"profile_friend_links\">friends</div>",
        count_link("Games", "1,234"),
        count_link("Inventory", ""),
        count_link("Reviews", "12")
    ));
    assert_eq!(profile_visibility(&doc), Ok(Visability { games: true, freinds: true, reviews: true }));
}

#[test]
fn visibility_review_bounds() {
    for (count, visible) in [("0", false), ("1", false), ("2", true), ("1,499", true), ("1,500", false), ("many", false)] {
        let doc = page(&format!("<div class=\"profile_item_links\">{}</div>", count_link("Reviews", count)));
        assert_eq!(
            profile_visibility(&doc),
            Ok(Visability { games: false, freinds: false, reviews: visible }),
            "{count}"
        );
    }
}

#[test]
fn visibility_of_a_private_profile() {
    let doc = page(&format!("<div class=\"profile_item_links\">{}</div>", count_link("Games", "0")));
    assert_eq!(profile_visibility(&doc), Ok(Visability { games: false, freinds: false, reviews: false }));
    assert_eq!(profile_visibility(&page("<p>private</p>")), Ok(Visability { games: false, freinds: false, reviews: false }));
}

#[test]
fn count_link_without_label_is_an_error() {
    let doc = page("<div class=\"profile_item_links\"><div class=\"profile_count_link\">x</div></div>");
    assert_eq!(profile_visibility(&doc), Err(ScrapeError::MalformedProfileItem));
}
