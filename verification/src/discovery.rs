//! Finding the page on which hours are booked.

use crate::links;
use crate::links::absolutize_url;
use crate::markup;
use crate::markup::{capture_texts, read_links, LinkElement, LinkElementView};
use crate::sorting;
use crate::text;
use crate::text::{contains_text, join_texts, same_text, starts_with_text};
use vstd::prelude::*;

verus! {

/// How likely an address is the one of the page on which hours are booked, from the address and
/// the label of the element that leads there, both in lower case.
pub open spec fn score_of(url: Seq<char>, label: Seq<char>) -> int {
    (if text::holds(url, "admin_timbratura"@) { 30int } else { 0 }) + (if text::holds(
        url,
        "timbratura"@,
    ) { 10int } else { 0 }) + (if text::holds(url, "inserisci"@) { 40int } else { 0 }) + (
    if text::holds(url, "aggiungi"@) || text::holds(label, "aggiungi"@) { 35int } else { 0 }) + (
    if text::holds(url, "nuov"@) || text::holds(label, "nuov"@) { 25int } else { 0 }) + (
    if text::holds(label, "timbratura"@) || text::holds(label, "ore"@) { 15int } else { 0 })
}

/// The score of an address, where it is high enough, from the texts of the element that leads
/// there.
pub open spec fn likely_score(texts: Seq<Seq<char>>, address: Seq<char>) -> Option<i32> {
    let score = score_of(text::lowered(address), text::lowered(text::joined(texts, " "@)));
    if score < 35 {
        None
    } else {
        Some(score as i32)
    }
}

/// The address that a reference leads to, with its score, where the score is high enough. A
/// reference within the page or to a script leads nowhere.
pub open spec fn candidate_of(
    texts: Seq<Seq<char>>,
    page_url: Seq<char>,
    raw_url: Seq<char>,
) -> Option<(i32, Seq<char>)> {
    let raw = text::trimmed(raw_url);
    if raw.len() == 0 || "#"@.is_prefix_of(raw) || "javascript:"@.is_prefix_of(raw) {
        None
    } else {
        match links::absolute(page_url, raw) {
            Err(_) => None,
            Ok(address) => match likely_score(texts, address) {
                Some(score) => Some((score, address)),
                None => None,
            },
        }
    }
}

/// The score of an address, where it is high enough, from the texts of the element that leads
/// there.
pub fn score_address(texts: &Vec<String>, address: &str) -> (r: Option<i32>)
    ensures
        r == likely_score(texts.deep_view(), address@),
{
    let lowered_url = address.to_ascii_lowercase();
    let lowered_label = join_texts(texts, " ").as_str().to_ascii_lowercase();
    let url_text = lowered_url.as_str();
    let label = lowered_label.as_str();
    let mut score: i32 = 0;
    if contains_text(url_text, "admin_timbratura") {
        score = score + 30;
    }
    if contains_text(url_text, "timbratura") {
        score = score + 10;
    }
    if contains_text(url_text, "inserisci") {
        score = score + 40;
    }
    if contains_text(url_text, "aggiungi") || contains_text(label, "aggiungi") {
        score = score + 35;
    }
    if contains_text(url_text, "nuov") || contains_text(label, "nuov") {
        score = score + 25;
    }
    if contains_text(label, "timbratura") || contains_text(label, "ore") {
        score = score + 15;
    }
    if score < 35 {
        None
    } else {
        Some(score)
    }
}

/// The address that an element leads to, with its score, where the score is high enough.
pub fn score_insert_candidate(texts: &Vec<String>, page_url: &str, raw_url: &str) -> (r: Option<
    (i32, String),
>)
    ensures
        r.deep_view() == candidate_of(texts.deep_view(), page_url@, raw_url@),
{
    let raw_url = raw_url.trim();
    if raw_url.is_empty() || starts_with_text(raw_url, "#") || starts_with_text(
        raw_url,
        "javascript:",
    ) {
        return None;
    }
    let absolute = match absolutize_url(page_url, raw_url) {
        Ok(address) => address,
        Err(_) => return None,
    };
    match score_address(texts, absolute.as_str()) {
        Some(score) => Some((score, absolute)),
        None => None,
    }
}

/// What an element leads to: its `href`, else its action, else that of the form it is.
pub open spec fn reference_of(link: LinkElementView) -> Option<Seq<char>> {
    match link.href {
        Some(raw) => Some(raw),
        None => match link.data_action {
            Some(raw) => Some(raw),
            None => link.action,
        },
    }
}

/// The candidates among the elements of a page, in their order.
pub open spec fn link_candidates(
    links: Seq<LinkElementView>,
    page_url: Seq<char>,
) -> Seq<(i32, Seq<char>)>
    decreases links.len(),
{
    if links.len() == 0 {
        Seq::empty()
    } else {
        let before = link_candidates(links.drop_last(), page_url);
        match reference_of(links.last()) {
            Some(raw) => match candidate_of(links.last().texts, page_url, raw) {
                Some(candidate) => before.push(candidate),
                None => before,
            },
            None => before,
        }
    }
}

/// The candidates among the elements of a page, in their order.
pub fn score_links(links: &Vec<LinkElement>, page_url: &str) -> (r: Vec<(i32, String)>)
    ensures
        r.deep_view() == link_candidates(links.deep_view(), page_url@),
{
    let ghost all = links.deep_view();
    let mut r: Vec<(i32, String)> = Vec::new();
    assert(r.deep_view() =~= link_candidates(all.take(0), page_url@));
    for i in 0..links.len()
        invariant
            all == links.deep_view(),
            r.deep_view() == link_candidates(all.take(i as int), page_url@),
    {
        let link = &links[i];
        let ghost before = r.deep_view();
        proof {
            assert(all.take(i + 1).drop_last() =~= all.take(i as int));
            assert(all.take(i + 1).last() == link.deep_view());
        }
        let reference = match &link.href {
            Some(raw) => Some(raw),
            None => match &link.data_action {
                Some(raw) => Some(raw),
                None => link.action.as_ref(),
            },
        };
        if let Some(raw) = reference {
            if let Some(candidate) = score_insert_candidate(&link.texts, page_url, raw.as_str()) {
                r.push(candidate);
                assert(r.deep_view() =~= before.push(candidate.deep_view()));
            }
        }
    }
    assert(all.take(all.len() as int) =~= all);
    r
}

/// The addresses that stand anywhere in a page, in markup or script.
pub open spec fn address_pattern() -> Seq<char> {
    r#"(?P<url>/app-timbrature/[^"'\s>]*(?:admin_timbratura|timbratura)[^"'\s>]*(?:inserisci|aggiungi|nuov|crea)[^"'\s>]*)"#@
}

/// The candidates among the texts that the pattern captured, each with a score of 60, up to the
/// first that is no address.
pub open spec fn captured_candidates(
    found: Seq<Option<Seq<char>>>,
    page_url: Seq<char>,
) -> Result<Seq<(i32, Seq<char>)>, Seq<char>>
    decreases found.len(),
{
    if found.len() == 0 {
        Ok(Seq::empty())
    } else {
        match captured_candidates(found.drop_last(), page_url) {
            Err(message) => Err(message),
            Ok(before) => match found.last() {
                None => Ok(before),
                Some(raw) => match links::absolute(page_url, raw) {
                    Err(message) => Err(message),
                    Ok(address) => Ok(before.push((60i32, address))),
                },
            },
        }
    }
}

proof fn lemma_captured_stop(found: Seq<Option<Seq<char>>>, page_url: Seq<char>, n: int)
    requires
        0 <= n <= found.len(),
        captured_candidates(found.take(n), page_url) is Err,
    ensures
        captured_candidates(found, page_url) == captured_candidates(found.take(n), page_url),
    decreases found.len(),
{
    if n == found.len() {
        assert(found.take(n) =~= found);
    } else {
        assert(found.drop_last().take(n) =~= found.take(n));
        lemma_captured_stop(found.drop_last(), page_url, n);
    }
}

/// The candidates among the texts that the pattern captured.
pub fn score_captured(found: &Vec<Option<String>>, page_url: &str) -> (r: Result<
    Vec<(i32, String)>,
    String,
>)
    ensures
        text::outcome(r) == captured_candidates(found.deep_view(), page_url@),
{
    let ghost all = found.deep_view();
    let mut r: Vec<(i32, String)> = Vec::new();
    assert(r.deep_view() =~= Seq::empty());
    for i in 0..found.len()
        invariant
            all == found.deep_view(),
            captured_candidates(all.take(i as int), page_url@) == Ok::<
                Seq<(i32, Seq<char>)>,
                Seq<char>,
            >(r.deep_view()),
    {
        let ghost before = r.deep_view();
        proof {
            assert(all.take(i + 1).drop_last() =~= all.take(i as int));
            assert(all.take(i + 1).last() == found@[i as int].deep_view());
        }
        if let Some(raw) = &found[i] {
            match absolutize_url(page_url, raw.as_str()) {
                Ok(address) => {
                    let ghost written = address@;
                    r.push((60, address));
                    assert(r.deep_view() =~= before.push((60i32, written)));
                },
                Err(message) => {
                    proof {
                        lemma_captured_stop(all, page_url@, i + 1);
                    }
                    return Err(message);
                },
            }
        }
    }
    assert(all.take(all.len() as int) =~= all);
    Ok(r)
}

/// The length of a text in UTF-8.
pub open spec fn byte_length(s: Seq<char>) -> nat {
    vstd::utf8::encode_utf8(s).len()
}

/// Whether one candidate ranks before another: by a higher score, else by a shorter address.
pub open spec fn ranks_before(a: (i32, Seq<char>), b: (i32, Seq<char>)) -> bool {
    a.0 > b.0 || (a.0 == b.0 && byte_length(a.1) < byte_length(b.1))
}

/// The candidates by rank; candidates of the same rank keep their order.
pub open spec fn ranked(scored: Seq<(i32, Seq<char>)>) -> Seq<(i32, Seq<char>)> {
    sorting::arranged(scored, |a: (i32, Seq<char>), b: (i32, Seq<char>)| ranks_before(a, b))
}

/// A sequence without what occurred before.
pub open spec fn first_occurrences(s: Seq<Seq<char>>) -> Seq<Seq<char>>
    decreases s.len(),
{
    if s.len() == 0 {
        s
    } else {
        let before = first_occurrences(s.drop_last());
        if before.contains(s.last()) {
            before
        } else {
            before.push(s.last())
        }
    }
}

/// The addresses of the candidates, the best one first and each one once.
pub open spec fn best_first(scored: Seq<(i32, Seq<char>)>) -> Seq<Seq<char>> {
    first_occurrences(ranked(scored).map_values(|c: (i32, Seq<char>)| c.1))
}

fn rank(scored: Vec<(i32, String)>) -> (r: Vec<(i32, String)>)
    ensures
        r.deep_view() == ranked(scored.deep_view()),
{
    let ghost before = |a: (i32, Seq<char>), b: (i32, Seq<char>)| ranks_before(a, b);
    let ghost all = scored.deep_view();
    let mut r: Vec<(i32, String)> = Vec::new();
    assert(r.deep_view() =~= sorting::arranged(all.take(0), before));
    for i in 0..scored.len()
        invariant
            all == scored.deep_view(),
            before == (|a: (i32, Seq<char>), b: (i32, Seq<char>)| ranks_before(a, b)),
            r.deep_view() == sorting::arranged(all.take(i as int), before),
    {
        let score = scored[i].0;
        let url = scored[i].1.clone();
        let length: usize = url.as_str().as_bytes().len();
        let ghost sorted = r.deep_view();
        let ghost x = (score, url@);
        let mut p: usize = r.len();
        while p > 0 && (score > r[p - 1].0 || (score == r[p - 1].0 && length < r[p
            - 1].1.as_str().as_bytes().len()))
            invariant
                p <= r@.len(),
                sorted == r.deep_view(),
                x == (score, url@),
                length == byte_length(url@),
                before == (|a: (i32, Seq<char>), b: (i32, Seq<char>)| ranks_before(a, b)),
                forall|q: int| p <= q < sorted.len() ==> before(x, #[trigger] sorted[q]),
            decreases p,
        {
            assert(sorted[p - 1] == r@[p - 1].deep_view());
            p = p - 1;
        }
        proof {
            if p > 0 {
                assert(sorted[p - 1] == r@[p - 1].deep_view());
            }
            sorting::lemma_placed_at(sorted, x, before, p as int);
        }
        r.insert(p, (score, url));
        proof {
            assert(r.deep_view() =~= sorted.insert(p as int, x));
            assert(all.take(i + 1).drop_last() =~= all.take(i as int));
            assert(all.take(i + 1).last() == x);
        }
    }
    assert(all.take(all.len() as int) =~= all);
    r
}

fn occurs(urls: &Vec<String>, url: &str) -> (r: bool)
    ensures
        r == urls.deep_view().contains(url@),
{
    for i in 0..urls.len()
        invariant
            forall|k: int| 0 <= k < i ==> (#[trigger] urls@[k])@ != url@,
    {
        if same_text(urls[i].as_str(), url) {
            assert(urls.deep_view()[i as int] == url@);
            return true;
        }
    }
    proof {
        if urls.deep_view().contains(url@) {
            let k = choose|k: int| 0 <= k < urls@.len() && urls.deep_view()[k] == url@;
            assert(urls@[k]@ == url@);
        }
    }
    false
}

/// The addresses of the candidates, the best one first and each one once.
pub fn rank_candidates(scored: Vec<(i32, String)>) -> (r: Vec<String>)
    ensures
        r.deep_view() == best_first(scored.deep_view()),
{
    let ordered = rank(scored);
    let ghost all = ordered.deep_view().map_values(|c: (i32, Seq<char>)| c.1);
    let mut urls: Vec<String> = Vec::new();
    assert(urls.deep_view() =~= first_occurrences(all.take(0)));
    for i in 0..ordered.len()
        invariant
            all == ordered.deep_view().map_values(|c: (i32, Seq<char>)| c.1),
            urls.deep_view() == first_occurrences(all.take(i as int)),
    {
        let ghost before = urls.deep_view();
        proof {
            assert(all.take(i + 1).drop_last() =~= all.take(i as int));
            assert(all.take(i + 1).last() == ordered@[i as int].1@);
        }
        if !occurs(&urls, ordered[i].1.as_str()) {
            urls.push(ordered[i].1.clone());
            assert(urls.deep_view() =~= before.push(ordered@[i as int].1@));
        }
    }
    assert(all.take(all.len() as int) =~= all);
    urls
}

/// The addresses at which hours may be booked, the best one first: from the elements of a page,
/// and from the texts that the pattern captured in it.
pub open spec fn insert_candidates(
    links: Seq<LinkElementView>,
    captured: Result<Seq<Option<Seq<char>>>, Seq<char>>,
    page_url: Seq<char>,
) -> Result<Seq<Seq<char>>, Seq<char>> {
    match captured {
        Err(message) => Err(message),
        Ok(found) => match captured_candidates(found, page_url) {
            Err(message) => Err(message),
            Ok(more) => Ok(best_first(link_candidates(links, page_url) + more)),
        },
    }
}

/// The addresses at which hours may be booked, from what a page holds.
pub fn choose_insert_candidates(
    links: &Vec<LinkElement>,
    captured: Result<Vec<Option<String>>, String>,
    page_url: &str,
) -> (r: Result<Vec<String>, String>)
    ensures
        text::outcome(r) == insert_candidates(
            links.deep_view(),
            text::outcome(captured),
            page_url@,
        ),
{
    let mut scored = score_links(links, page_url);
    let ghost first = scored.deep_view();
    let found = match captured {
        Ok(found) => found,
        Err(message) => return Err(message),
    };
    let mut more = match score_captured(&found, page_url) {
        Ok(more) => more,
        Err(message) => return Err(message),
    };
    let ghost second = more.deep_view();
    scored.append(&mut more);
    assert(scored.deep_view() =~= first + second);
    Ok(rank_candidates(scored))
}

/// The addresses at which hours may be booked, from a page.
pub fn discover_insert_candidates(html: &str, page_url: &str) -> (r: Result<Vec<String>, String>)
    ensures
        text::outcome(r) == insert_candidates(
            markup::links_of(html@),
            markup::captured(address_pattern(), "url"@, html@),
            page_url@,
        ),
{
    let links = read_links(html);
    let captured = capture_texts(
        r#"(?P<url>/app-timbrature/[^"'\s>]*(?:admin_timbratura|timbratura)[^"'\s>]*(?:inserisci|aggiungi|nuov|crea)[^"'\s>]*)"#,
        "url",
        html,
    );
    choose_insert_candidates(&links, captured, page_url)
}

proof fn lemma_first_occurrences(s: Seq<Seq<char>>)
    ensures
        first_occurrences(s).no_duplicates(),
        forall|url: Seq<char>|
            #[trigger] first_occurrences(s).contains(url) <==> s.contains(url),
    decreases s.len(),
{
    if s.len() > 0 {
        let front = s.drop_last();
        lemma_first_occurrences(front);
        let before = first_occurrences(front);
        assert(s =~= front.push(s.last()));
        assert forall|url: Seq<char>| s.contains(url) == (front.contains(url) || url
            == s.last()) by {
            if front.contains(url) {
                let k = choose|k: int| 0 <= k < front.len() && front[k] == url;
                assert(s[k] == url);
            }
            if url == s.last() {
                assert(s[s.len() - 1] == url);
            }
        }
        if !before.contains(s.last()) {
            let r = before.push(s.last());
            assert forall|url: Seq<char>| #[trigger] r.contains(url) == (before.contains(url) || url
                == s.last()) by {
                if before.contains(url) {
                    let k = choose|k: int| 0 <= k < before.len() && before[k] == url;
                    assert(r[k] == url);
                }
                if url == s.last() {
                    assert(r[r.len() - 1] == url);
                }
            }
        }
    }
}

proof fn lemma_first_occurrences_order(s: Seq<Seq<char>>, i: int, j: int) -> (p: int)
    requires
        0 <= i < j < first_occurrences(s).len(),
    ensures
        0 <= p < s.len(),
        s[p] == first_occurrences(s)[i],
        forall|q: int| 0 <= q < s.len() && #[trigger] s[q] == first_occurrences(s)[j] ==> p < q,
    decreases s.len(),
{
    let front = s.drop_last();
    let before = first_occurrences(front);
    lemma_first_occurrences(front);
    if j < before.len() {
        let p = lemma_first_occurrences_order(front, i, j);
        assert forall|q: int| 0 <= q < s.len() && #[trigger] s[q]
            == first_occurrences(s)[j] implies p < q by {
            if q < front.len() {
                assert(front[q] == before[j]);
            }
        }
        p
    } else {
        assert(before.contains(before[i]));
        assert(front.contains(before[i]));
        let p = choose|p: int| 0 <= p < front.len() && front[p] == before[i];
        assert forall|q: int| 0 <= q < s.len() && #[trigger] s[q]
            == first_occurrences(s)[j] implies p < q by {
            if q < front.len() {
                assert(front[q] == s.last());
                assert(before.contains(s.last()));
            }
        }
        p
    }
}

/// Whether no candidate for the address `other` ranks before the candidate `c`.
pub open spec fn unbeaten(
    scored: Seq<(i32, Seq<char>)>,
    c: (i32, Seq<char>),
    other: Seq<char>,
) -> bool {
    forall|d: (i32, Seq<char>)|
        #[trigger] scored.contains(d) && d.1 == other ==> !ranks_before(d, c)
}

/// Whether the address `a` has a candidate that none for the address `b` outranks.
pub open spec fn not_worse(scored: Seq<(i32, Seq<char>)>, a: Seq<char>, b: Seq<char>) -> bool {
    exists|c: (i32, Seq<char>)|
        scored.contains(c) && c.1 == a && #[trigger] unbeaten(scored, c, b)
}

/// The addresses found hold no address twice, and exactly those of the candidates. One that
/// stands in front of another has a candidate that no candidate of the other outranks; so the
/// first address is one of the best.
pub proof fn law_best_first(scored: Seq<(i32, Seq<char>)>)
    ensures
        best_first(scored).no_duplicates(),
        forall|url: Seq<char>|
            #[trigger] best_first(scored).contains(url) <==> exists|k: int|
                0 <= k < scored.len() && (#[trigger] scored[k]).1 == url,
        forall|i: int, j: int|
            0 <= i < j < best_first(scored).len() ==> not_worse(
                scored,
                #[trigger] best_first(scored)[i],
                #[trigger] best_first(scored)[j],
            ),
{
    let before = |a: (i32, Seq<char>), b: (i32, Seq<char>)| ranks_before(a, b);
    let order = ranked(scored);
    let urls = order.map_values(|c: (i32, Seq<char>)| c.1);
    assert(sorting::strict_order(before));
    sorting::lemma_arranged_in_order(scored, before);
    sorting::lemma_arranged_multiset(scored, before);
    lemma_first_occurrences(urls);
    assert forall|c: (i32, Seq<char>)| scored.contains(c) == #[trigger] order.contains(c) by {
        scored.to_multiset_ensures();
        order.to_multiset_ensures();
        assert(scored.to_multiset().count(c) == order.to_multiset().count(c));
    }
    assert forall|url: Seq<char>| #[trigger] best_first(scored).contains(url) implies exists|k: int|
        0 <= k < scored.len() && (#[trigger] scored[k]).1 == url by {
        assert(urls.contains(url));
        let p = choose|p: int| 0 <= p < urls.len() && urls[p] == url;
        assert(order.contains(order[p]));
        assert(scored.contains(order[p]));
        let k = choose|k: int| 0 <= k < scored.len() && scored[k] == order[p];
        assert(scored[k].1 == url);
    }
    assert forall|k: int| 0 <= k < scored.len() implies best_first(scored).contains(
        (#[trigger] scored[k]).1,
    ) by {
        assert(scored.contains(scored[k]));
        assert(order.contains(scored[k]));
        let p = choose|p: int| 0 <= p < order.len() && order[p] == scored[k];
        assert(urls[p] == scored[k].1);
        assert(urls.contains(scored[k].1));
    }
    assert forall|i: int, j: int| 0 <= i < j < best_first(scored).len() implies not_worse(
        scored,
        #[trigger] best_first(scored)[i],
        #[trigger] best_first(scored)[j],
    ) by {
        let p = lemma_first_occurrences_order(urls, i, j);
        let c = order[p];
        assert(order.contains(c));
        assert(scored.contains(c));
        assert forall|d: (i32, Seq<char>)| #[trigger]
            scored.contains(d) && d.1 == best_first(scored)[j] implies !ranks_before(d, c) by {
            assert(order.contains(d));
            let q = choose|q: int| 0 <= q < order.len() && order[q] == d;
            assert(urls[q] == best_first(scored)[j]);
            assert(!before(order[q], order[p]));
        }
        assert(unbeaten(scored, c, best_first(scored)[j]));
    }
}

/// How many points an address and the label that leads there make, whatever their case: thirty for
/// the page of bookings in the address, ten for bookings in it, forty for entering in it,
/// thirty-five for adding and twenty-five for something new in either, and fifteen for bookings or
/// hours in the label. An address is likely from thirty-five points on.
pub proof fn law_likely_score(texts: Seq<Seq<char>>, address: Seq<char>)
    ensures
        ({
            let url = text::lowered(address);
            let label = text::lowered(text::joined(texts, " "@));
            let points = |due: bool, n: int| if due { n } else { 0int };
            let page = points(text::holds(url, "admin_timbratura"@), 30);
            let booking = points(text::holds(url, "timbratura"@), 10);
            let entering = points(text::holds(url, "inserisci"@), 40);
            let adding = points(
                text::holds(url, "aggiungi"@) || text::holds(label, "aggiungi"@),
                35,
            );
            let new = points(text::holds(url, "nuov"@) || text::holds(label, "nuov"@), 25);
            let named = points(
                text::holds(label, "timbratura"@) || text::holds(label, "ore"@),
                15,
            );
            let total = page + booking + entering + adding + new + named;
            &&& likely_score(texts, address) is Some <==> total >= 35
            &&& likely_score(texts, address) is Some ==> likely_score(texts, address)->0 == total
        }),
{
}

/// A reference leads to a candidate exactly where it is neither empty nor within the page nor a
/// script, can be resolved, and leads to a likely address; the candidate is that address with its
/// score. The white space around the reference makes no difference.
pub proof fn law_candidate(
    texts: Seq<Seq<char>>,
    page_url: Seq<char>,
    raw_url: Seq<char>,
    score: i32,
    address: Seq<char>,
)
    ensures
        candidate_of(texts, page_url, raw_url) == Some((score, address)) <==> {
            let raw = text::trimmed(raw_url);
            &&& raw.len() > 0
            &&& !"#"@.is_prefix_of(raw)
            &&& !"javascript:"@.is_prefix_of(raw)
            &&& links::absolute(page_url, raw) == Ok::<Seq<char>, Seq<char>>(address)
            &&& likely_score(texts, address) == Some(score)
        },
        candidate_of(texts, page_url, raw_url) == candidate_of(
            texts,
            page_url,
            text::trimmed(raw_url),
        ),
{
    text::lemma_trimmed_twice(raw_url);
}

/// The candidates among the elements of a page are those of each element, in their order. An
/// element leads where its `href` says, and where it has none, where its own action says, and
/// where it has neither, where it sends a form.
pub proof fn law_link_candidates(
    first: Seq<LinkElementView>,
    later: Seq<LinkElementView>,
    link: LinkElementView,
    page_url: Seq<char>,
)
    ensures
        link_candidates(Seq::empty(), page_url).len() == 0,
        link_candidates(first + later, page_url) == link_candidates(first, page_url)
            + link_candidates(later, page_url),
        ({
            let raw = if link.href is Some {
                link.href
            } else if link.data_action is Some {
                link.data_action
            } else {
                link.action
            };
            let found = link_candidates(seq![link], page_url);
            let candidate = candidate_of(link.texts, page_url, raw->0);
            &&& raw is None || candidate is None ==> found.len() == 0
            &&& raw is Some && candidate is Some ==> found == seq![candidate->0]
        }),
    decreases later.len(),
{
    let none = Seq::<(i32, Seq<char>)>::empty();
    assert(link_candidates(Seq::empty(), page_url) =~= none);
    assert(seq![link].drop_last() =~= Seq::empty());
    if later.len() == 0 {
        assert(first + later =~= first);
        assert(link_candidates(first, page_url) + none =~= link_candidates(first, page_url));
    } else {
        law_link_candidates(first, later.drop_last(), link, page_url);
        assert((first + later).drop_last() =~= first + later.drop_last());
        assert(link_candidates(first + later, page_url) =~= link_candidates(first, page_url)
            + link_candidates(later, page_url));
    }
}

/// The candidates among the texts that were captured are their addresses, in their order, each
/// with a score of sixty; a match without a text is passed over, and the first text that cannot be
/// resolved fails them all.
pub proof fn law_captured_candidates(
    found: Seq<Option<Seq<char>>>,
    text: Option<Seq<char>>,
    page_url: Seq<char>,
)
    ensures
        captured_candidates(Seq::empty(), page_url) == Ok::<Seq<(i32, Seq<char>)>, Seq<char>>(
            Seq::empty(),
        ),
        ({
            let before = captured_candidates(found, page_url);
            let after = captured_candidates(found.push(text), page_url);
            let address = links::absolute(page_url, text->0);
            &&& before is Err || text is None ==> after == before
            &&& before is Ok && text is Some && address is Err ==> after is Err && after->Err_0
                == address->Err_0
            &&& before is Ok && text is Some && address is Ok ==> after is Ok && after->Ok_0
                == before->Ok_0.push((60, address->Ok_0))
        }),
{
    assert(found.push(text).drop_last() =~= found);
}

/// The candidates by rank are the same candidates. A candidate in front of another has a higher
/// score, or the same score and an address that is no longer; candidates of one score and one
/// length keep their order.
pub proof fn law_ranked(scored: Seq<(i32, Seq<char>)>, score: i32, url: Seq<char>)
    ensures
        ranked(scored).to_multiset() == scored.to_multiset(),
        ranked(scored).len() == scored.len(),
        forall|i: int, j: int|
            0 <= i < j < scored.len() ==> {
                ||| (#[trigger] ranked(scored)[i]).0 > (#[trigger] ranked(scored)[j]).0
                ||| ranked(scored)[i].0 == ranked(scored)[j].0 && vstd::utf8::encode_utf8(
                    ranked(scored)[i].1,
                ).len() <= vstd::utf8::encode_utf8(ranked(scored)[j].1).len()
            },
        ({
            let alike = |c: (i32, Seq<char>)|
                c.0 == score && vstd::utf8::encode_utf8(c.1).len() == vstd::utf8::encode_utf8(
                    url,
                ).len();
            ranked(scored).filter(alike) == scored.filter(alike)
        }),
{
    let before = |a: (i32, Seq<char>), b: (i32, Seq<char>)| ranks_before(a, b);
    assert(sorting::strict_order(before));
    sorting::lemma_arranged_in_order(scored, before);
    sorting::lemma_arranged_multiset(scored, before);
    sorting::lemma_arranged_stable(scored, before, (score, url));
    scored.to_multiset_ensures();
    ranked(scored).to_multiset_ensures();
    let alike = |c: (i32, Seq<char>)|
        c.0 == score && vstd::utf8::encode_utf8(c.1).len() == vstd::utf8::encode_utf8(url).len();
    let tied = |c: (i32, Seq<char>)| sorting::tied(c, (score, url), before);
    assert forall|c: (i32, Seq<char>)| #[trigger] tied(c) == alike(c) by {}
    assert(tied =~= alike);
    assert forall|i: int, j: int| 0 <= i < j < scored.len() implies {
        ||| (#[trigger] ranked(scored)[i]).0 > (#[trigger] ranked(scored)[j]).0
        ||| ranked(scored)[i].0 == ranked(scored)[j].0 && vstd::utf8::encode_utf8(
            ranked(scored)[i].1,
        ).len() <= vstd::utf8::encode_utf8(ranked(scored)[j].1).len()
    } by {
        assert(!before(ranked(scored)[j], ranked(scored)[i]));
    }
}

/// The addresses of the candidates are listed in the order of the candidates by rank, each where
/// it stands first: one more candidate at the end adds its address at the end, or nothing where
/// the address is listed already.
pub proof fn law_listed_once(urls: Seq<Seq<char>>, url: Seq<char>, scored: Seq<(i32, Seq<char>)>)
    ensures
        first_occurrences(Seq::empty()).len() == 0,
        urls.contains(url) ==> first_occurrences(urls.push(url)) == first_occurrences(urls),
        !urls.contains(url) ==> first_occurrences(urls.push(url)) == first_occurrences(urls).push(
            url,
        ),
        best_first(scored) == first_occurrences(
            Seq::new(scored.len(), |i: int| ranked(scored)[i].1),
        ),
{
    assert(urls.push(url).drop_last() =~= urls);
    lemma_first_occurrences(urls);
    law_ranked(scored, 0, url);
    assert(ranked(scored).map_values(|c: (i32, Seq<char>)| c.1) =~= Seq::new(
        scored.len(),
        |i: int| ranked(scored)[i].1,
    ));
}

/// An address is offered exactly where an element of the page leads to it or the text of the page
/// names it. Of candidates of one rank those of the elements come first.
pub proof fn law_insert_candidates(
    links: Seq<LinkElementView>,
    found: Seq<Option<Seq<char>>>,
    message: Seq<char>,
    page_url: Seq<char>,
    url: Seq<char>,
)
    ensures
        insert_candidates(links, Err(message), page_url) == Err::<Seq<Seq<char>>, Seq<char>>(
            message,
        ),
        match captured_candidates(found, page_url) {
            Err(message) => insert_candidates(links, Ok(found), page_url) == Err::<
                Seq<Seq<char>>,
                Seq<char>,
            >(message),
            Ok(more) => {
                let offered = insert_candidates(links, Ok(found), page_url);
                let led = link_candidates(links, page_url);
                &&& offered is Ok
                &&& offered->Ok_0 == best_first(led + more)
                &&& offered->Ok_0.contains(url) <==> {
                    ||| exists|k: int| 0 <= k < led.len() && (#[trigger] led[k]).1 == url
                    ||| exists|k: int| 0 <= k < more.len() && (#[trigger] more[k]).1 == url
                }
            },
        },
{
    if let Ok(more) = captured_candidates(found, page_url) {
        let led = link_candidates(links, page_url);
        let all = led + more;
        law_best_first(all);
        let urls = best_first(all);
        if urls.contains(url) {
            let k = choose|k: int| 0 <= k < all.len() && (#[trigger] all[k]).1 == url;
            if k < led.len() {
                assert(led[k].1 == url);
            } else {
                assert(more[k - led.len()].1 == url);
            }
        }
        if exists|k: int| 0 <= k < led.len() && (#[trigger] led[k]).1 == url {
            let k = choose|k: int| 0 <= k < led.len() && (#[trigger] led[k]).1 == url;
            assert(all[k].1 == url);
        }
        if exists|k: int| 0 <= k < more.len() && (#[trigger] more[k]).1 == url {
            let k = choose|k: int| 0 <= k < more.len() && (#[trigger] more[k]).1 == url;
            assert(all[led.len() + k].1 == url);
        }
    }
}

} // verus!
