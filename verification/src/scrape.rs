//! Reading profile pages: which parts of the HTML are selected, and what the
//! crawler takes from the selected markup.
use vstd::prelude::*;
use crate::text::{
    contains_seq, decimal, last_char_unique, law_decimal_reads_back, lemma_decimal_is_digits,
    lemma_no_first_char, lemma_no_occurrence_concat, lemma_single_char, lemma_split_after_first,
    lemma_split_nonempty, lemma_split_without, chars_of, concat_strings, cut, cut_first, equals_str, parse_unsigned, parse_unsigned_chars,
    remove_all_seq, remove_str, split_seq, string_of, trim, trim_seq,
};

verus! {

/// Why a page could not be read.
#[derive(Debug, Clone, Copy, PartialEq, Eq)]
pub enum ScrapeError {
    /// A CSS selector of the crawler was refused by the selector parser.
    SelectorRejected,
    /// A friend entry without a `data-steamid` attribute.
    MalformedFriendBlock,
    /// A review whose title or hours do not have the expected shape.
    MalformedReview,
    /// A paging link without a `p=` page number.
    MalformedPageLink,
    /// A profile count link whose label or count lacks its markup.
    MalformedProfileItem,
}

/// The outer HTML of each element of `document` that `selector` matches, in
/// document order; `None` when `selector` is not a valid selector.
pub uninterp spec fn selected_html(document: Seq<char>, selector: Seq<char>) -> Option<
    Seq<Seq<char>>,
>;

/// For each element of `document` matched by `scope`, in document order, and
/// for each selector of `fields`, the outer HTML of the descendants of that
/// element that the selector matches; `None` when a selector is invalid.
pub uninterp spec fn selected_html_within(
    document: Seq<char>,
    scope: Seq<char>,
    fields: Seq<Seq<char>>,
) -> Option<Seq<Seq<Seq<Seq<char>>>>>;

/// For each element matched by `outer`, for each of its descendants matched
/// by `inner`, and for each selector of `fields`, the outer HTML of that
/// descendant's descendants that the selector matches; `None` when a selector
/// is invalid.
pub uninterp spec fn selected_html_nested(
    document: Seq<char>,
    outer: Seq<char>,
    inner: Seq<char>,
    fields: Seq<Seq<char>>,
) -> Option<Seq<Seq<Seq<Seq<Seq<char>>>>>>;

/// scraper: `Html::parse_document`, `Selector::parse`, `Html::select` and
/// `ElementRef::html`. Claimed: the result is `selected_html` of the
/// arguments, which depends on them alone (the parser and the serializer are
/// deterministic; attributes are serialized in a fixed order).
#[verifier::external_body]
fn select_html(document: &str, selector: &str) -> (r: Option<Vec<String>>)
    ensures
        match r {
            Some(v) => selected_html(document@, selector@) == Some(v.deep_view()),
            None => selected_html(document@, selector@) is None,
        },
{
    let selector = scraper::Selector::parse(selector).ok()?;
    let doc = scraper::Html::parse_document(document);
    Some(doc.select(&selector).map(|e| e.html()).collect())
}

/// scraper: as `select_html`, then `ElementRef::select` with each field
/// selector inside every scope element. Claimed: the result is
/// `selected_html_within` of the arguments, one list per field selector.
#[verifier::external_body]
fn select_html_within(document: &str, scope: &str, fields: &Vec<&str>) -> (r: Option<
    Vec<Vec<Vec<String>>>,
>)
    ensures
        match r {
            Some(g) => selected_html_within(document@, scope@, fields.deep_view()) == Some(
                g.deep_view(),
            ) && forall|i: int| 0 <= i < g.len() ==> (#[trigger] g@[i]).len() == fields.len(),
            None => selected_html_within(document@, scope@, fields.deep_view()) is None,
        },
{
    let scope = scraper::Selector::parse(scope).ok()?;
    let fields: Vec<scraper::Selector> =
        fields.iter().map(|f| scraper::Selector::parse(f).ok()).collect::<Option<_>>()?;
    let doc = scraper::Html::parse_document(document);
    Some(doc.select(&scope).map(|s| fields.iter().map(|f| s.select(f).map(|e| e.html()).collect()).collect()).collect())
}


/// scraper: as `select_html_within`, one level deeper: every `inner`
/// element inside every `outer` element, then the field selectors inside it.
/// Claimed: the result is `selected_html_nested` of the arguments, one list
/// per field selector.
#[verifier::external_body]
fn select_html_nested(document: &str, outer: &str, inner: &str, fields: &Vec<&str>) -> (r: Option<
    Vec<Vec<Vec<Vec<String>>>>,
>)
    ensures
        match r {
            Some(g) => selected_html_nested(document@, outer@, inner@, fields.deep_view()) == Some(
                g.deep_view(),
            ) && forall|i: int, j: int|
                0 <= i < g.len() && 0 <= j < g@[i].len() ==> (#[trigger] g@[i]@[j]).len()
                    == fields.len(),
            None => selected_html_nested(document@, outer@, inner@, fields.deep_view()) is None,
        },
{
    let outer = scraper::Selector::parse(outer).ok()?;
    let inner = scraper::Selector::parse(inner).ok()?;
    let fields: Vec<scraper::Selector> =
        fields.iter().map(|f| scraper::Selector::parse(f).ok()).collect::<Option<_>>()?;
    let doc = scraper::Html::parse_document(document);
    Some(doc.select(&outer).map(|o| o.select(&inner).map(|m| fields.iter().map(|f| m.select(f).map(|e| e.html()).collect()).collect()).collect()).collect())
}


/// The Steam id in the markup of one friend entry: what stands between the
/// first `data-steamid="` and the next `"`.
pub open spec fn friend_id_of(block: Seq<char>) -> Option<Seq<char>> {
    let after = split_seq(block, "data-steamid=\""@);
    if after.len() < 2 {
        None
    } else {
        Some(split_seq(after[1], "\""@)[0])
    }
}

/// The ids of all friend entries, or `None` if one entry has none.
pub open spec fn friend_ids_of(blocks: Seq<Seq<char>>) -> Option<Seq<Seq<char>>> {
    if forall|i: int| 0 <= i < blocks.len() ==> (#[trigger] friend_id_of(blocks[i])) is Some {
        Some(Seq::new(blocks.len(), |i: int| friend_id_of(blocks[i])->0))
    } else {
        None
    }
}

/// The Steam id of one friend entry.
pub fn friend_id(block: &String) -> (r: Option<String>)
    ensures
        match r {
            Some(id) => friend_id_of(block@) == Some(id@),
            None => friend_id_of(block@) is None,
        },
{
    let b = chars_of(block.as_str());
    match cut(&b, "data-steamid=\"", 1) {
        None => None,
        Some(after) => Some(string_of(&cut_first(&after, "\""))),
    }
}

/// The Steam ids of the friend entries, in order.
pub fn friend_ids(blocks: &Vec<String>) -> (r: Result<Vec<String>, ScrapeError>)
    ensures
        match r {
            Ok(ids) => friend_ids_of(blocks.deep_view()) == Some(ids.deep_view()),
            Err(e) => e == ScrapeError::MalformedFriendBlock && friend_ids_of(blocks.deep_view()) is None,
        },
{
    let ghost bv = blocks.deep_view();
    let mut ids: Vec<String> = Vec::new();
    for i in 0..blocks.len()
        invariant
            bv == blocks.deep_view(),
            ids.len() == i,
            forall|j: int| 0 <= j < i ==> friend_id_of(bv[j]) == Some(#[trigger] ids@[j]@),
    {
        match friend_id(&blocks[i]) {
            Some(id) => ids.push(id),
            None => {
                assert(friend_id_of(bv[i as int]) is None);
                return Err(ScrapeError::MalformedFriendBlock);
            },
        }
    }
    assert forall|j: int| 0 <= j < bv.len() implies (#[trigger] friend_id_of(bv[j])) is Some by {
        assert(friend_id_of(bv[j]) == Some(ids@[j]@));
    }
    assert(ids.deep_view() =~= Seq::new(bv.len(), |i: int| friend_id_of(bv[i])->0));
    Ok(ids)
}

/// The Steam ids listed on a friends page (`div.selectable` entries).
pub fn friend_list_ids(document: &str) -> (r: Result<Vec<String>, ScrapeError>)
    ensures
        match selected_html(document@, "div.selectable"@) {
            None => r == Err::<Vec<String>, ScrapeError>(ScrapeError::SelectorRejected),
            Some(blocks) => match r {
                Ok(ids) => friend_ids_of(blocks) == Some(ids.deep_view()),
                Err(e) => e == ScrapeError::MalformedFriendBlock && friend_ids_of(blocks) is None,
            },
        },
{
    match select_html(document, "div.selectable") {
        None => Err(ScrapeError::SelectorRejected),
        Some(blocks) => friend_ids(&blocks),
    }
}


/// The markup of field `k` of a selected element: its matches joined.
pub open spec fn field_html(fields: Seq<Seq<Seq<char>>>, k: int) -> Seq<char> {
    if 0 <= k < fields.len() {
        fields[k].flatten()
    } else {
        Seq::empty()
    }
}

/// Game id and verdict read from a review title such as
/// `<div class="title"><a href=".../recommended/427520/">Recommended</a></div>`:
/// the id is the number after the first `recommended/` up to the next `/`; the
/// review recommends the game exactly when the link text is `Recommended`.
pub open spec fn review_game(title: Seq<char>) -> Option<(u32, bool)> {
    let p1 = split_seq(title, "recommended/"@);
    if p1.len() < 2 {
        None
    } else {
        let p2 = split_seq(p1[1], "/"@);
        match parse_unsigned(p2[0], u32::MAX as int) {
            None => None,
            Some(id) => if p2.len() < 2 {
                None
            } else {
                let p3 = split_seq(p2[1], ">"@);
                if p3.len() < 2 {
                    None
                } else {
                    Some((id as u32, split_seq(p3[1], "<"@)[0] == "Recommended"@))
                }
            },
        }
    }
}

/// Every app id is read from a review title: a title that links to
/// `recommended/` followed by the decimal id and `/`, then (after markup `b`
/// without `/` or `>`) the link text `t` and a closing tag, gives that id
/// and says the game is recommended exactly when `t` is `Recommended`.
pub proof fn law_review_title_read(
    a: Seq<char>,
    n: u32,
    b: Seq<char>,
    t: Seq<char>,
    d: Seq<char>,
)
    requires
        !contains_seq(a, "recommended/"@),
        !contains_seq(decimal(n as nat) + "/"@ + b + ">"@ + t + "</"@ + d, "recommended/"@),
        !contains_seq(b, "/"@),
        !contains_seq(b, ">"@),
        !contains_seq(t, "/"@),
        !contains_seq(t, ">"@),
        !contains_seq(t, "<"@),
    ensures
        review_game(
            a + "recommended/"@ + decimal(n as nat) + "/"@ + b + ">"@ + t + "</"@ + d,
        ) == Some((n, t == "Recommended"@)),
{
    reveal_strlit("recommended/");
    reveal_strlit("/");
    reveal_strlit(">");
    reveal_strlit("<");
    reveal_strlit("</");
    let rec = "recommended/"@;
    let slash = "/"@;
    let gt = ">"@;
    let lt = "<"@;
    let dn = decimal(n as nat);
    let title = a + rec + dn + slash + b + gt + t + "</"@ + d;
    let rest1 = dn + slash + b + gt + t + "</"@ + d;
    assert(title =~= a + rec + rest1);
    lemma_split_after_first(a, rec, rest1);
    lemma_split_without(rest1, rec);
    let p1 = split_seq(title, rec);
    assert(p1 == seq![a, rest1]);
    // the id runs up to the first slash
    lemma_decimal_is_digits(n as nat);
    lemma_no_first_char(dn, slash);
    let x3 = b + gt + t + lt;
    let y2 = x3 + slash + d;
    assert(rest1 =~= dn + slash + y2);
    lemma_split_after_first(dn, slash, y2);
    lemma_split_nonempty(y2, slash);
    law_decimal_reads_back(n as nat, u32::MAX as int);
    let p2 = split_seq(rest1, slash);
    assert(p2[0] == dn);
    assert(p2.len() >= 2);
    // the link text sits between the next `>` and `<`
    lemma_single_char(b, slash);
    lemma_single_char(t, slash);
    lemma_single_char(x3, slash);
    assert forall|i: int| 0 <= i < x3.len() implies #[trigger] x3[i] != slash[0] by {
        if i < b.len() {
            assert(x3[i] == b[i]);
        } else if i == b.len() {
        } else if i < b.len() + 1 + t.len() {
            assert(x3[i] == t[i - b.len() - 1]);
        }
    }
    lemma_split_after_first(x3, slash, d);
    assert(p2[1] == x3);
    assert(x3 =~= b + gt + (t + lt));
    lemma_single_char(t, gt);
    lemma_single_char(t + lt, gt);
    assert forall|i: int| 0 <= i < (t + lt).len() implies #[trigger] (t + lt)[i] != gt[0] by {
        if i < t.len() {
            assert((t + lt)[i] == t[i]);
        }
    }
    lemma_split_after_first(b, gt, t + lt);
    lemma_split_without(t + lt, gt);
    let p3 = split_seq(x3, gt);
    assert(p3 == seq![b, t + lt]);
    assert(t + lt =~= t + lt + Seq::<char>::empty());
    lemma_split_after_first(t, lt, Seq::empty());
    assert(split_seq(t + lt, lt)[0] == t);
}

/// The hours text of a review's `div.hours` markup: the text after the first
/// `>` up to the next `>`, without `/t` and `,`, cut before `hrs`, trimmed.
pub open spec fn review_hours(hours: Seq<char>) -> Option<Seq<char>> {
    let p1 = split_seq(hours, ">"@);
    if p1.len() < 2 {
        None
    } else {
        Some(
            trim_seq(split_seq(remove_all_seq(remove_all_seq(p1[1], "/t"@), ","@), "hrs"@)[0]),
        )
    }
}

/// What one review box yields, from the markup of its title and its hours.
pub open spec fn review_of_box(fields: Seq<Seq<Seq<char>>>) -> Option<(u32, bool, Seq<char>)> {
    match (review_game(field_html(fields, 0)), review_hours(field_html(fields, 1))) {
        (Some((id, rec)), Some(h)) => Some((id, rec, h)),
        _ => None,
    }
}

/// A review as a review page shows it; the hours are still text.
#[derive(Debug)]
pub struct ReviewEntry {
    pub game_id: u32,
    pub is_recommended: bool,
    /// The hours played, e.g. `1234.5`; empty when the page gives none.
    pub hours: String,
}

impl ReviewEntry {
    /// The entry as plain values.
    pub open spec fn parts(self) -> (u32, bool, Seq<char>) {
        (self.game_id, self.is_recommended, self.hours@)
    }
}

fn field_chars(fields: &Vec<Vec<String>>, k: usize) -> (r: Vec<char>)
    ensures
        r@ == field_html(fields.deep_view(), k as int),
{
    if k < fields.len() {
        concat_strings(&fields[k])
    } else {
        Vec::new()
    }
}

/// Game id and verdict of a review title.
pub fn review_game_of(title: &Vec<char>) -> (r: Option<(u32, bool)>)
    ensures
        r == review_game(title@),
{
    let after = match cut(title, "recommended/", 1) {
        None => return None,
        Some(a) => a,
    };
    let id_text = cut_first(&after, "/");
    let id = match parse_unsigned_chars(&id_text, u32::MAX as u64) {
        None => return None,
        Some(v) => v as u32,
    };
    let rest = match cut(&after, "/", 1) {
        None => return None,
        Some(x) => x,
    };
    let link = match cut(&rest, ">", 1) {
        None => return None,
        Some(x) => x,
    };
    let verdict = cut_first(&link, "<");
    Some((id, equals_str(&verdict, "Recommended")))
}

/// The hours text of a review.
pub fn review_hours_of(hours: &Vec<char>) -> (r: Option<Vec<char>>)
    ensures
        match r {
            Some(h) => review_hours(hours@) == Some(h@),
            None => review_hours(hours@) is None,
        },
{
    let text = match cut(hours, ">", 1) {
        None => return None,
        Some(x) => x,
    };
    let cleaned = remove_str(&remove_str(&text, "/t"), ",");
    Some(trim(&cut_first(&cleaned, "hrs")))
}

/// The review of one review box, from its title and hours markup.
pub fn review_in_box(fields: &Vec<Vec<String>>) -> (r: Option<ReviewEntry>)
    ensures
        match r {
            Some(e) => review_of_box(fields.deep_view()) == Some(e.parts()),
            None => review_of_box(fields.deep_view()) is None,
        },
{
    let title = field_chars(fields, 0);
    let hours = field_chars(fields, 1);
    let game = review_game_of(&title);
    let h = review_hours_of(&hours);
    match (game, h) {
        (Some((id, rec)), Some(h)) => Some(ReviewEntry { game_id: id, is_recommended: rec, hours: string_of(&h) }),
        _ => None,
    }
}

/// The reviews of all boxes, or `None` if one box is malformed.
pub open spec fn reviews_of_boxes(boxes: Seq<Seq<Seq<Seq<char>>>>) -> Option<
    Seq<(u32, bool, Seq<char>)>,
> {
    if forall|i: int| 0 <= i < boxes.len() ==> (#[trigger] review_of_box(boxes[i])) is Some {
        Some(Seq::new(boxes.len(), |i: int| review_of_box(boxes[i])->0))
    } else {
        None
    }
}

/// The reviews of the review boxes of one page, in order.
pub fn reviews_in_boxes(boxes: &Vec<Vec<Vec<String>>>) -> (r: Result<Vec<ReviewEntry>, ScrapeError>)
    ensures
        match r {
            Ok(v) => reviews_of_boxes(boxes.deep_view()) == Some(v@.map_values(|e: ReviewEntry| e.parts())),
            Err(e) => e == ScrapeError::MalformedReview && reviews_of_boxes(boxes.deep_view()) is None,
        },
{
    let ghost bv = boxes.deep_view();
    let mut out: Vec<ReviewEntry> = Vec::new();
    for i in 0..boxes.len()
        invariant
            bv == boxes.deep_view(),
            out.len() == i,
            forall|j: int| 0 <= j < i ==> review_of_box(bv[j]) == Some(#[trigger] out@[j].parts()),
    {
        match review_in_box(&boxes[i]) {
            Some(e) => out.push(e),
            None => {
                assert(review_of_box(bv[i as int]) is None);
                return Err(ScrapeError::MalformedReview);
            },
        }
    }
    assert forall|j: int| 0 <= j < bv.len() implies (#[trigger] review_of_box(bv[j])) is Some by {
        assert(review_of_box(bv[j]) == Some(out@[j].parts()));
    }
    assert(out@.map_values(|e: ReviewEntry| e.parts()) =~= Seq::new(bv.len(), |i: int| review_of_box(bv[i])->0));
    Ok(out)
}

/// The reviews on one page of a profile's reviews (`div.review_box`
/// elements, each with a `div.title` and a `div.hours`).
pub fn reviews_on_page(document: &str) -> (r: Result<Vec<ReviewEntry>, ScrapeError>)
    ensures
        match selected_html_within(document@, "div.review_box"@, seq!["div.title"@, "div.hours"@]) {
            None => r == Err::<Vec<ReviewEntry>, ScrapeError>(ScrapeError::SelectorRejected),
            Some(boxes) => match r {
                Ok(v) => reviews_of_boxes(boxes) == Some(v@.map_values(|e: ReviewEntry| e.parts())),
                Err(e) => e == ScrapeError::MalformedReview && reviews_of_boxes(boxes) is None,
            },
        },
{
    let mut fields: Vec<&str> = Vec::new();
    fields.push("div.title");
    fields.push("div.hours");
    assert(fields.deep_view() =~= seq!["div.title"@, "div.hours"@]);
    match select_html_within(document, "div.review_box", &fields) {
        None => Err(ScrapeError::SelectorRejected),
        Some(boxes) => reviews_in_boxes(&boxes),
    }
}


/// The number of review pages that the paging controls announce: the `p=`
/// number of the last page link in the last paging block, up to the next
/// `"`; one page when there is no paging block or no link in it.
pub open spec fn page_count_of(blocks: Seq<Seq<Seq<Seq<char>>>>) -> Option<int> {
    if blocks.len() == 0 {
        Some(1)
    } else {
        let links = if blocks.last().len() > 0 {
            blocks.last()[0]
        } else {
            Seq::empty()
        };
        if links.len() == 0 {
            Some(1)
        } else {
            let p = split_seq(links.last(), "p="@);
            if p.len() < 2 {
                None
            } else {
                parse_unsigned(split_seq(p[1], "\""@)[0], usize::MAX as int)
            }
        }
    }
}

/// The whole page number is read: when the last link of the last paging
/// block is `a`, `p=`, the decimal number `n`, a quote and `d` (with no `p=`
/// in `a` or `d`), the profile has `n` review pages.
pub proof fn law_page_count_read(blocks: Seq<Seq<Seq<Seq<char>>>>, a: Seq<char>, n: nat, d: Seq<char>)
    requires
        n <= usize::MAX,
        blocks.len() > 0,
        blocks.last().len() > 0,
        blocks.last()[0].len() > 0,
        blocks.last()[0].last() == a + "p="@ + decimal(n) + "\""@ + d,
        !contains_seq(a, "p="@),
        !contains_seq(d, "p="@),
    ensures
        page_count_of(blocks) == Some(n as int),
{
    reveal_strlit("p=");
    reveal_strlit("\"");
    let pe = "p="@;
    let q = "\""@;
    let dn = decimal(n);
    let rest = dn + q + d;
    assert(blocks.last()[0].last() =~= a + pe + rest);
    lemma_split_after_first(a, pe, rest);
    lemma_decimal_is_digits(n);
    assert forall|i: int| 0 <= i < (dn + q).len() implies #[trigger] (dn + q)[i] != pe[0] by {
        if i < dn.len() {
            assert((dn + q)[i] == dn[i]);
        }
    }
    lemma_no_occurrence_concat(dn + q, d, pe);
    assert(rest =~= (dn + q) + d);
    lemma_split_without(rest, pe);
    lemma_no_first_char(dn, q);
    lemma_split_after_first(dn, q, d);
    law_decimal_reads_back(n, usize::MAX as int);
}

/// The number of review pages, from the page links of the paging blocks.
pub fn page_count_in_blocks(blocks: &Vec<Vec<Vec<String>>>) -> (r: Result<usize, ScrapeError>)
    ensures
        match r {
            Ok(n) => page_count_of(blocks.deep_view()) == Some(n as int),
            Err(e) => e == ScrapeError::MalformedPageLink && page_count_of(blocks.deep_view()) is None,
        },
{
    if blocks.len() == 0 {
        return Ok(1);
    }
    let last_block = &blocks[blocks.len() - 1];
    if last_block.len() == 0 || last_block[0].len() == 0 {
        return Ok(1);
    }
    let links = &last_block[0];
    let link = chars_of(links[links.len() - 1].as_str());
    let after = match cut(&link, "p=", 1) {
        None => return Err(ScrapeError::MalformedPageLink),
        Some(a) => a,
    };
    let number = cut_first(&after, "\"");
    match parse_unsigned_chars(&number, usize::MAX as u64) {
        None => Err(ScrapeError::MalformedPageLink),
        Some(n) => Ok(n as usize),
    }
}

/// The number of pages of a profile's reviews, read from the first page
/// (`a.pagelink` links inside `div.workshopBrowsePagingControls`).
pub fn get_review_page_count(document: &str) -> (r: Result<usize, ScrapeError>)
    ensures
        match selected_html_within(
            document@,
            "div.workshopBrowsePagingControls"@,
            seq!["a.pagelink"@],
        ) {
            None => r == Err::<usize, ScrapeError>(ScrapeError::SelectorRejected),
            Some(blocks) => match r {
                Ok(n) => page_count_of(blocks) == Some(n as int),
                Err(e) => e == ScrapeError::MalformedPageLink && page_count_of(blocks) is None,
            },
        },
{
    let mut fields: Vec<&str> = Vec::new();
    fields.push("a.pagelink");
    assert(fields.deep_view() =~= seq!["a.pagelink"@]);
    match select_html_within(document, "div.workshopBrowsePagingControls", &fields) {
        None => Err(ScrapeError::SelectorRejected),
        Some(blocks) => page_count_in_blocks(&blocks),
    }
}

/// Which parts of a profile its visitors can see.
#[derive(Debug, Clone, Copy, PartialEq, Eq)]
pub struct Visability {
    /// The profile shows a non-zero number of games.
    pub games: bool,
    /// The profile shows its friends.
    pub freinds: bool,
    /// The profile shows more than one and fewer than 1500 reviews.
    pub reviews: bool,
}

/// The markup of field `k` of a profile count link, without line feeds and tabs.
pub open spec fn item_field_text(item: Seq<Seq<Seq<char>>>, k: int) -> Seq<char> {
    remove_all_seq(remove_all_seq(field_html(item, k), "\n"@), "\t"@)
}

/// The label of a profile count link: the text after its first `>` up to
/// the next `<`.
pub open spec fn item_title(item: Seq<Seq<Seq<char>>>) -> Option<Seq<char>> {
    let p = split_seq(item_field_text(item, 0), ">"@);
    if p.len() < 2 {
        None
    } else {
        Some(split_seq(p[1], "<"@)[0])
    }
}

/// The count of a profile count link: the text after its first `>` up to the
/// next `<`, without thousands separators; zero when that is not a number.
pub open spec fn item_count(item: Seq<Seq<Seq<char>>>) -> Option<int> {
    let p = split_seq(item_field_text(item, 1), ">"@);
    if p.len() < 2 {
        None
    } else {
        match parse_unsigned(remove_all_seq(split_seq(p[1], "<"@)[0], ","@), u32::MAX as int) {
            Some(v) => Some(v),
            None => Some(0),
        }
    }
}

/// What one profile count link shows: (games visible, reviews visible).
pub open spec fn item_shows(item: Seq<Seq<Seq<char>>>) -> Option<(bool, bool)> {
    match item_title(item) {
        None => None,
        Some(t) => if t == "Games"@ || t == "Reviews"@ {
            match item_count(item) {
                None => None,
                Some(c) => Some((t == "Games"@ && c > 0, t == "Reviews"@ && 1 < c < 1500)),
            }
        } else {
            Some((false, false))
        },
    }
}

/// The count link shows a non-zero number of games.
pub open spec fn shows_games(item: Seq<Seq<Seq<char>>>) -> bool {
    item_shows(item) matches Some((g, _)) && g
}

/// The count link shows more than one and fewer than 1500 reviews.
pub open spec fn shows_reviews(item: Seq<Seq<Seq<char>>>) -> bool {
    item_shows(item) matches Some((_, r)) && r
}

/// The visibility of a profile from its count links, grouped by link block,
/// and the number of friend blocks; `None` when a count link is malformed.
pub open spec fn visibility_of(groups: Seq<Seq<Seq<Seq<Seq<char>>>>>, friend_blocks: int) -> Option<
    Visability,
> {
    if forall|i: int, j: int|
        0 <= i < groups.len() && 0 <= j < groups[i].len() ==> (#[trigger] item_shows(
            groups[i][j],
        )) is Some {
        Some(
            Visability {
                games: exists|i: int, j: int|
                    0 <= i < groups.len() && 0 <= j < groups[i].len() && #[trigger] shows_games(groups[i][j]),
                freinds: friend_blocks > 0,
                reviews: exists|i: int, j: int|
                    0 <= i < groups.len() && 0 <= j < groups[i].len() && #[trigger] shows_reviews(groups[i][j]),
            },
        )
    } else {
        None
    }
}

fn item_text(item: &Vec<Vec<String>>, k: usize) -> (r: Vec<char>)
    ensures
        r@ == item_field_text(item.deep_view(), k as int),
{
    let raw = field_chars(item, k);
    remove_str(&remove_str(&raw, "\n"), "\t")
}

/// What one profile count link shows.
pub fn item_visibility(item: &Vec<Vec<String>>) -> (r: Option<(bool, bool)>)
    ensures
        r == item_shows(item.deep_view()),
{
    let label = item_text(item, 0);
    let after = match cut(&label, ">", 1) {
        None => return None,
        Some(a) => a,
    };
    let title = cut_first(&after, "<");
    let is_games = equals_str(&title, "Games");
    let is_reviews = equals_str(&title, "Reviews");
    if !(is_games || is_reviews) {
        return Some((false, false));
    }
    let count_text = item_text(item, 1);
    let count_after = match cut(&count_text, ">", 1) {
        None => return None,
        Some(a) => a,
    };
    let digits = remove_str(&cut_first(&count_after, "<"), ",");
    let count: u64 = match parse_unsigned_chars(&digits, u32::MAX as u64) {
        Some(v) => v,
        None => 0,
    };
    Some((is_games && count > 0, is_reviews && count > 1 && count < 1500))
}

/// The visibility of a profile from its count links and friend blocks.
pub fn visibility_from_items(groups: &Vec<Vec<Vec<Vec<String>>>>, friend_blocks: usize) -> (r: Result<
    Visability,
    ScrapeError,
>)
    ensures
        match r {
            Ok(v) => visibility_of(groups.deep_view(), friend_blocks as int) == Some(v),
            Err(e) => e == ScrapeError::MalformedProfileItem && visibility_of(
                groups.deep_view(),
                friend_blocks as int,
            ) is None,
        },
{
    let ghost g = groups.deep_view();
    let mut games = false;
    let mut reviews = false;
    for i in 0..groups.len()
        invariant
            g == groups.deep_view(),
            forall|a: int, b: int|
                0 <= a < i && 0 <= b < g[a].len() ==> (#[trigger] item_shows(g[a][b])) is Some,
            games == exists|a: int, b: int|
                0 <= a < i && 0 <= b < g[a].len() && #[trigger] shows_games(g[a][b]),
            reviews == exists|a: int, b: int|
                0 <= a < i && 0 <= b < g[a].len() && #[trigger] shows_reviews(g[a][b]),
    {
        let group = &groups[i];
        for j in 0..group.len()
            invariant
                g == groups.deep_view(),
                i < g.len(),
                group.deep_view() == g[i as int],
                forall|a: int, b: int|
                    (0 <= a < i && 0 <= b < g[a].len()) || (a == i && 0 <= b < j) ==> (
                    #[trigger] item_shows(g[a][b])) is Some,
                games == exists|a: int, b: int|
                    ((0 <= a < i && 0 <= b < g[a].len()) || (a == i && 0 <= b < j)) && #[trigger] shows_games(g[a][b]),
                reviews == exists|a: int, b: int|
                    ((0 <= a < i && 0 <= b < g[a].len()) || (a == i && 0 <= b < j)) && #[trigger] shows_reviews(g[a][b]),
        {
            match item_visibility(&group[j]) {
                None => {
                    assert(item_shows(g[i as int][j as int]) is None);
                    return Err(ScrapeError::MalformedProfileItem);
                },
                Some((gv, rv)) => {
                    let ghost ii = i as int;
                    let ghost jj = j as int;
                    assert(item_shows(g[ii][jj]) == Some((gv, rv)));
                    assert(shows_games(g[ii][jj]) == gv);
                    assert(shows_reviews(g[ii][jj]) == rv);
                    let ghost old_games = games;
                    let ghost old_reviews = reviews;
                    games = games || gv;
                    reviews = reviews || rv;
                    assert(games == exists|a: int, b: int|
                        ((0 <= a < i && 0 <= b < g[a].len()) || (a == i && 0 <= b < j + 1))
                            && #[trigger] shows_games(g[a][b])) by {
                        if exists|a: int, b: int|
                            ((0 <= a < i && 0 <= b < g[a].len()) || (a == i && 0 <= b < j + 1))
                                && #[trigger] shows_games(g[a][b]) {
                            let (a, b) = choose|a: int, b: int|
                                ((0 <= a < i && 0 <= b < g[a].len()) || (a == i && 0 <= b < j + 1))
                                    && #[trigger] shows_games(g[a][b]);
                            if !(a == ii && b == jj) {
                                assert(old_games);
                            }
                        }
                    }
                    assert(reviews == exists|a: int, b: int|
                        ((0 <= a < i && 0 <= b < g[a].len()) || (a == i && 0 <= b < j + 1))
                            && #[trigger] shows_reviews(g[a][b])) by {
                        if exists|a: int, b: int|
                            ((0 <= a < i && 0 <= b < g[a].len()) || (a == i && 0 <= b < j + 1))
                                && #[trigger] shows_reviews(g[a][b]) {
                            let (a, b) = choose|a: int, b: int|
                                ((0 <= a < i && 0 <= b < g[a].len()) || (a == i && 0 <= b < j + 1))
                                    && #[trigger] shows_reviews(g[a][b]);
                            if !(a == ii && b == jj) {
                                assert(old_reviews);
                            }
                        }
                    }
                },
            }
        }
    }
    Ok(Visability { games, freinds: friend_blocks > 0, reviews })
}

/// The visibility of a profile, read from its page: the count links
/// (`div.profile_count_link`) inside `div.profile_item_links`, with their
/// `span.count_link_label` and `span.profile_count_link_total`, and the
/// `div.profile_friend_links` blocks.
pub fn profile_visibility(document: &str) -> (r: Result<Visability, ScrapeError>)
    ensures
        match (
            selected_html_nested(
                document@,
                "div.profile_item_links"@,
                "div.profile_count_link"@,
                seq!["span.count_link_label"@, "span.profile_count_link_total"@],
            ),
            selected_html(document@, "div.profile_friend_links"@),
        ) {
            (Some(groups), Some(friends)) => match r {
                Ok(v) => visibility_of(groups, friends.len() as int) == Some(v),
                Err(e) => e == ScrapeError::MalformedProfileItem && visibility_of(
                    groups,
                    friends.len() as int,
                ) is None,
            },
            _ => r == Err::<Visability, ScrapeError>(ScrapeError::SelectorRejected),
        },
{
    let mut fields: Vec<&str> = Vec::new();
    fields.push("span.count_link_label");
    fields.push("span.profile_count_link_total");
    assert(fields.deep_view() =~= seq!["span.count_link_label"@, "span.profile_count_link_total"@]);
    let groups = match select_html_nested(
        document,
        "div.profile_item_links",
        "div.profile_count_link",
        &fields,
    ) {
        None => return Err(ScrapeError::SelectorRejected),
        Some(g) => g,
    };
    let friends = match select_html(document, "div.profile_friend_links") {
        None => return Err(ScrapeError::SelectorRejected),
        Some(f) => f,
    };
    visibility_from_items(&groups, friends.len())
}

} // verus!
