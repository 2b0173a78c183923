//! The mirror fetcher's pure half: build the search query and URL, read
//! candidate links off the listing page, and turn fetched case pages into
//! records. The HTTP fetches themselves happen outside the library; they
//! hand page text in and take records back. Pages that fail to load or
//! to parse are dropped one by one, never failing the batch; a listing
//! that yields no candidates is the empty outcome, not a failure.
use vstd::prelude::*;
use crate::digits::spec_normalize_digits;
use crate::error::Error;
use crate::model::{DekaInfo, RetrievalOutcome, TGDeka};
use crate::normalize::{normalize, seg_run};
use crate::text::{
    chars_of, dec_chars, join_strings_sep, spec_dec, spec_join_nl, spec_join_sep, spec_lines,
    string_of_chars,
};

verus! {

/// Whether a CSS selector text is well-formed. Names the success of
/// scraper's `Selector::parse`.
pub uninterp spec fn css_ok(sel: Seq<char>) -> bool;

/// For each element matching the first selector, the named attribute of
/// its first descendant matching the second selector, in document order.
/// Names what scraper's `select` chain reads off a parsed document.
pub uninterp spec fn post_links_of(
    html: Seq<char>,
    post_sel: Seq<char>,
    link_sel: Seq<char>,
    attr: Seq<char>,
) -> Seq<Option<Seq<char>>>;

/// The text parts of the first element matching the selector, or nothing
/// when no element matches. Names what scraper's `text` reads off the
/// first match.
pub uninterp spec fn first_texts_of(html: Seq<char>, sel: Seq<char>) -> Option<Seq<Seq<char>>>;

/// Whether a text parses as an absolute URL. Names the success of the
/// url crate's `Url::parse`.
pub uninterp spec fn url_ok(s: Seq<char>) -> bool;

/// The URL with one query pair appended, percent-encoded. Names the
/// result of the url crate's query-pair serializer.
pub uninterp spec fn url_with_query(base: Seq<char>, key: Seq<char>, value: Seq<char>) -> Seq<
    char,
>;

/// Relies on scraper (`Html::parse_document`, `Selector::parse`, `select`,
/// `Element::attr`): for each element matching `post_sel`, the `attr`
/// attribute of its first descendant matching `link_sel`; fails only when
/// a selector is malformed.
#[verifier::external_body]
pub(crate) fn select_post_links(
    html: &str,
    post_sel: &str,
    link_sel: &str,
    attr: &str,
) -> (r: Option<Vec<Option<String>>>)
    ensures
        (r is Some) <==> (css_ok(post_sel@) && css_ok(link_sel@)),
        r matches Some(v) ==> v.deep_view() == post_links_of(html@, post_sel@, link_sel@, attr@),
{
    let posts = scraper::Selector::parse(post_sel).ok()?;
    let links = scraper::Selector::parse(link_sel).ok()?;
    let doc = scraper::Html::parse_document(html);
    Some(
        doc.select(&posts).map(
            |p| p.select(&links).next().and_then(|a| a.value().attr(attr)).map(
                |s| s.to_string(),
            ),
        ).collect(),
    )
}

/// Relies on scraper (`Html::parse_document`, `Selector::parse`, `select`,
/// `ElementRef::text`): the text parts of the first element matching
/// `sel`; fails only when the selector is malformed.
#[verifier::external_body]
pub(crate) fn first_match_texts(html: &str, sel: &str) -> (r: Option<Option<Vec<String>>>)
    ensures
        (r is Some) <==> css_ok(sel@),
        r matches Some(m) ==> m.deep_view() == first_texts_of(html@, sel@),
{
    let s = scraper::Selector::parse(sel).ok()?;
    let doc = scraper::Html::parse_document(html);
    Some(doc.select(&s).next().map(|el| el.text().map(|t| t.to_string()).collect()))
}

/// Relies on the url crate (`Url::parse`, `query_pairs_mut`): the base
/// URL with one query pair appended; fails only when the base does not
/// parse.
#[verifier::external_body]
pub(crate) fn build_query_url(base: &str, key: &str, value: &str) -> (r: Option<String>)
    ensures
        (r is Some) <==> url_ok(base@),
        r matches Some(u) ==> u@ == url_with_query(base@, key@, value@),
{
    let mut u = url::Url::parse(base).ok()?;
    u.query_pairs_mut().append_pair(key, value);
    Some(u.to_string())
}

/// The mirror's search endpoint.
pub open spec fn spec_mirror_base() -> Seq<char> {
    "https://www.dekasuksa.com/search"@
}

/// The mirror's display name, put before the page URL in each record's
/// source description.
pub open spec fn spec_mirror_name() -> Seq<char> {
    "\u{0e40}\u{0e27}\u{0e47}\u{0e1a}\u{0e44}\u{0e0b}\u{0e15}\u{0e4c}\u{0e0e}\u{0e35}\u{0e01}\u{0e32}\u{0e28}\u{0e36}\u{0e01}\u{0e29}\u{0e32}"@
}

/// The selector for one listing entry.
pub open spec fn post_sel_text() -> Seq<char> {
    ".blog-posts .blog-post"@
}

/// The selector for the link inside one listing entry.
pub open spec fn link_sel_text() -> Seq<char> {
    ".post-title a"@
}

/// The selector for a case page's title.
pub open spec fn title_sel_text() -> Seq<char> {
    "h1.post-title"@
}

/// The selector for a case page's body.
pub open spec fn body_sel_text() -> Seq<char> {
    ".post-body.post-content"@
}

/// The free-text query put to the mirror: for a by-number query the
/// serial and year joined by a slash; for a search the keywords, law
/// name, law section and start year, space-separated.
pub open spec fn spec_mirror_query(info: TGDeka) -> Seq<char> {
    match info {
        TGDeka::Number(n) => n.deka_serial@ + "/"@ + spec_dec(n.deka_year as nat),
        TGDeka::Search(s) => spec_join_sep(s.search_words.deep_view(), " "@) + " "@ + (match s
            .search_law {
            Some(l) => l@,
            None => Seq::<char>::empty(),
        }) + " "@ + (match s.search_law_no {
            Some(l) => l@,
            None => Seq::<char>::empty(),
        }) + " "@ + (match s.case_from {
            Some(y) => spec_dec(y as nat),
            None => Seq::<char>::empty(),
        }),
    }
}

/// Render the mirror query text for a query.
pub fn mirror_query_text(info: &TGDeka) -> (q: String)
    ensures
        q@ == spec_mirror_query(*info),
{
    let mut out: Vec<char> = Vec::new();
    match info {
        TGDeka::Number(n) => {
            let mut serial = chars_of(n.deka_serial.as_str());
            out.append(&mut serial);
            out.push('/');
            let mut year = dec_chars(n.deka_year as u64);
            out.append(&mut year);
        },
        TGDeka::Search(s) => {
            let mut words = join_strings_sep(&s.search_words, " ");
            out.append(&mut words);
            out.push(' ');
            match &s.search_law {
                Some(l) => {
                    let mut law = chars_of(l.as_str());
                    out.append(&mut law);
                },
                None => {},
            }
            out.push(' ');
            match &s.search_law_no {
                Some(l) => {
                    let mut law_no = chars_of(l.as_str());
                    out.append(&mut law_no);
                },
                None => {},
            }
            out.push(' ');
            match &s.case_from {
                Some(y) => {
                    let mut year = dec_chars(*y as u64);
                    out.append(&mut year);
                },
                None => {},
            }
        },
    }
    proof {
        reveal_strlit("/");
        reveal_strlit(" ");
        assert(out@ =~= spec_mirror_query(*info));
    }
    string_of_chars(&out)
}

/// The mirror search URL for a query text; a malformed URL is a hard
/// failure that escalates the query to automation.
pub fn mirror_search_url(q: &str) -> (r: Result<String, Error>)
    ensures
        r is Ok <==> url_ok(spec_mirror_base()),
        r matches Ok(u) ==> u@ == url_with_query(spec_mirror_base(), "q"@, q@),
        r matches Err(e) ==> e matches Error::TransientSource { .. },
{
    match build_query_url("https://www.dekasuksa.com/search", "q", q) {
        Some(u) => Ok(u),
        None => Err(
            Error::TransientSource { detail: String::from_str("malformed mirror search url") },
        ),
    }
}

/// The candidate links of a listing page, in listing order. A selector
/// failure is a hard failure; a listing without candidates yields the
/// empty list.
pub fn mirror_candidates(listing_html: &str) -> (r: Result<Vec<String>, Error>)
    ensures
        r is Ok <==> css_ok(post_sel_text()) && css_ok(link_sel_text()),
        r matches Ok(links) ==> links.deep_view() == flatten_links(
            post_links_of(listing_html@, post_sel_text(), link_sel_text(), "href"@),
        ),
        r matches Err(e) ==> e matches Error::StructuralParse { .. },
{
    match select_post_links(listing_html, ".blog-posts .blog-post", ".post-title a", "href") {
        None => Err(
            Error::StructuralParse { detail: String::from_str("mirror listing selectors") },
        ),
        Some(raw) => {
            let ghost all = raw.deep_view();
            let n = raw.len();
            let mut j: usize = 0;
            let mut out: Vec<String> = Vec::new();
            proof {
                assert(out.deep_view() =~~= flatten_links(all.take(0)));
            }
            while j < n
                invariant
                    j <= n,
                    n == raw@.len(),
                    all == raw.deep_view(),
                    out.deep_view() == flatten_links(all.take(j as int)),
                decreases n - j,
            {
                let ghost prefix = all.take(j as int);
                match &raw[j] {
                    Some(l) => {
                        out.push(l.clone());
                        proof {
                            lemma_flatten_links_push(prefix, all[j as int]);
                            assert(out.deep_view() =~~= flatten_links(prefix).push(
                                all[j as int]->Some_0,
                            ));
                        }
                    },
                    None => {
                        proof {
                            lemma_flatten_links_push(prefix, all[j as int]);
                        }
                    },
                }
                proof {
                    assert(prefix.push(all[j as int]) =~~= all.take(j + 1 as int));
                }
                j = j + 1;
            }
            proof {
                assert(all.take(raw@.len() as int) =~~= all);
            }
            Ok(out)
        },
    }
}

/// The present links, kept in order.
pub open spec fn flatten_links(s: Seq<Option<Seq<char>>>) -> Seq<Seq<char>>
    decreases s.len(),
{
    if s.len() == 0 {
        Seq::empty()
    } else {
        let rest = flatten_links(s.drop_last());
        match s.last() {
            Some(l) => rest.push(l),
            None => rest,
        }
    }
}

proof fn lemma_flatten_links_push(s: Seq<Option<Seq<char>>>, x: Option<Seq<char>>)
    ensures
        flatten_links(s.push(x)) == (match x {
            Some(l) => flatten_links(s).push(l),
            None => flatten_links(s),
        }),
{
    assert(s.push(x).drop_last() =~~= s);
    assert(s.push(x).last() == x);
}

/// Whether a fetched page parses as a case document: both structural
/// containers are present.
pub open spec fn page_parses(html: Seq<char>) -> bool {
    &&& css_ok(title_sel_text())
    &&& css_ok(body_sel_text())
    &&& first_texts_of(html, title_sel_text()) is Some
    &&& first_texts_of(html, body_sel_text()) is Some
}

/// The title of a case page: its title texts concatenated.
pub open spec fn page_title_text(html: Seq<char>) -> Seq<char> {
    spec_join_sep(first_texts_of(html, title_sel_text())->Some_0, ""@)
}

/// The body of a case page: its body texts joined with newlines.
pub open spec fn page_body_text(html: Seq<char>) -> Seq<char> {
    spec_join_sep(first_texts_of(html, body_sel_text())->Some_0, "\n"@)
}

/// The record extracted from a case page at a link: the normalized title
/// as case number, the segmented body sections, and the mirror's name
/// plus the link as provenance.
pub open spec fn page_record_from(rec: DekaInfo, html: Seq<char>, link: Seq<char>) -> bool {
    &&& page_parses(html)
    &&& rec.deka_no@ == spec_normalize_digits(page_title_text(html))
    &&& rec.short_note@ == spec_join_nl(seg_run(spec_lines(page_body_text(html))).short)
    &&& (match seg_run(spec_lines(page_body_text(html))).long {
        Some(ls) => rec.long_note matches Some(n) && n@ == spec_join_nl(ls),
        None => rec.long_note is None,
    })
    &&& rec.metadata.law@ == spec_join_nl(seg_run(spec_lines(page_body_text(html))).law)
    &&& rec.metadata.source@ == spec_mirror_name() + " "@ + link
}

/// Whether a fetched page body is present and parses as a case document.
pub open spec fn page_good(b: Option<Seq<char>>) -> bool {
    match b {
        Some(h) => page_parses(h),
        None => false,
    }
}

/// The records of a batch of fetched pages: one record per loaded page
/// that parses, in candidate order, each tagged with its own link; pages
/// that failed to load or to parse are dropped.
pub open spec fn spec_mirror_records(
    links: Seq<Seq<char>>,
    bodies: Seq<Option<Seq<char>>>,
    recs: Seq<DekaInfo>,
) -> bool
    decreases links.len(),
{
    if links.len() != bodies.len() {
        false
    } else if links.len() == 0 {
        recs.len() == 0
    } else if page_good(bodies[0]) {
        &&& recs.len() >= 1
        &&& page_record_from(recs[0], bodies[0]->Some_0, links[0])
        &&& spec_mirror_records(links.drop_first(), bodies.drop_first(), recs.drop_first())
    } else {
        spec_mirror_records(links.drop_first(), bodies.drop_first(), recs)
    }
}

proof fn lemma_mirror_records_snoc(
    links: Seq<Seq<char>>,
    bodies: Seq<Option<Seq<char>>>,
    recs: Seq<DekaInfo>,
    l: Seq<char>,
    b: Option<Seq<char>>,
    rec: Option<DekaInfo>,
)
    requires
        spec_mirror_records(links, bodies, recs),
        match rec {
            Some(rc) => page_good(b) && page_record_from(rc, b->Some_0, l),
            None => !page_good(b),
        },
    ensures
        spec_mirror_records(
            links.push(l),
            bodies.push(b),
            match rec {
                Some(rc) => recs.push(rc),
                None => recs,
            },
        ),
    decreases links.len(),
{
    let nl = links.push(l);
    let nb = bodies.push(b);
    let nr = match rec {
        Some(rc) => recs.push(rc),
        None => recs,
    };
    if links.len() == 0 {
        assert(recs.len() == 0);
        assert(nl.drop_first() =~~= Seq::<Seq<char>>::empty());
        assert(nb.drop_first() =~~= Seq::<Option<Seq<char>>>::empty());
        assert(nb[0] == b);
        assert(nl[0] == l);
        match rec {
            Some(rc) => {
                assert(nr[0] == rc);
                assert(nr.drop_first() =~~= Seq::<DekaInfo>::empty());
                assert(spec_mirror_records(nl.drop_first(), nb.drop_first(), nr.drop_first()));
            },
            None => {
                assert(spec_mirror_records(nl.drop_first(), nb.drop_first(), nr));
            },
        }
    } else {
        assert(nl[0] == links[0]);
        assert(nb[0] == bodies[0]);
        assert(nl.drop_first() =~~= links.drop_first().push(l));
        assert(nb.drop_first() =~~= bodies.drop_first().push(b));
        if page_good(bodies[0]) {
            assert(nr[0] == recs[0]);
            lemma_mirror_records_snoc(
                links.drop_first(),
                bodies.drop_first(),
                recs.drop_first(),
                l,
                b,
                rec,
            );
            match rec {
                Some(rc) => {
                    assert(nr.drop_first() =~~= recs.drop_first().push(rc));
                },
                None => {
                    assert(nr.drop_first() =~~= recs.drop_first());
                },
            }
        } else {
            lemma_mirror_records_snoc(links.drop_first(), bodies.drop_first(), recs, l, b, rec);
        }
    }
}

/// Turn the fetched candidate pages into the mirror outcome. Each loaded
/// page that parses becomes one record, in candidate order, tagged with
/// its own link; failed loads and failed parses are dropped one by one.
/// With no candidates at all the outcome is empty, not a failure; this
/// function never fails.
pub fn mirror_collect(links: &Vec<String>, bodies: &Vec<Option<String>>) -> (r: RetrievalOutcome)
    requires
        links@.len() == bodies@.len(),
    ensures
        !(r is Failed),
        links@.len() == 0 ==> r is Empty,
        (r is Records) <==> (exists|i: int|
            0 <= i < bodies@.len() && page_good(#[trigger] bodies.deep_view()[i])),
        r matches RetrievalOutcome::Records(v) ==> v@.len() >= 1 && spec_mirror_records(
            links.deep_view(),
            bodies.deep_view(),
            v@,
        ),
        r is Empty ==> spec_mirror_records(
            links.deep_view(),
            bodies.deep_view(),
            Seq::<DekaInfo>::empty(),
        ),
{
    let ghost gl = links.deep_view();
    let ghost gb = bodies.deep_view();
    let mut recs: Vec<DekaInfo> = Vec::new();
    let mut i: usize = 0;
    proof {
        assert(gl.take(0) =~~= Seq::<Seq<char>>::empty());
        assert(gb.take(0) =~~= Seq::<Option<Seq<char>>>::empty());
    }
    while i < bodies.len()
        invariant
            i <= bodies@.len(),
            links@.len() == bodies@.len(),
            gl == links.deep_view(),
            gb == bodies.deep_view(),
            spec_mirror_records(gl.take(i as int), gb.take(i as int), recs@),
            (recs@.len() > 0) <==> (exists|k: int| 0 <= k < i && page_good(#[trigger] gb[k])),
        decreases bodies@.len() - i,
    {
        let ghost pl = gl.take(i as int);
        let ghost pb = gb.take(i as int);
        let ghost old_recs = recs@;
        proof {
            assert(gl[i as int] =~= links@[i as int]@);
            assert(pl.push(gl[i as int]) =~~= gl.take(i + 1 as int));
            assert(pb.push(gb[i as int]) =~~= gb.take(i + 1 as int));
        }
        match &bodies[i] {
            Some(body) => {
                proof {
                    assert(gb[i as int] == Some(body@));
                }
                match parse_case_page(body.as_str(), links[i].as_str()) {
                    Some(rec) => {
                        let ghost grec = rec;
                        recs.push(rec);
                        proof {
                            lemma_mirror_records_snoc(
                                pl,
                                pb,
                                old_recs,
                                gl[i as int],
                                gb[i as int],
                                Some(grec),
                            );
                        }
                    },
                    None => {
                        proof {
                            lemma_mirror_records_snoc(
                                pl,
                                pb,
                                old_recs,
                                gl[i as int],
                                gb[i as int],
                                None,
                            );
                        }
                    },
                }
            },
            None => {
                proof {
                    assert(gb[i as int] is None);
                    lemma_mirror_records_snoc(pl, pb, old_recs, gl[i as int], gb[i as int], None);
                }
            },
        }
        i = i + 1;
    }
    proof {
        assert(gl.take(gl.len() as int) =~~= gl);
        assert(gb.take(gb.len() as int) =~~= gb);
    }
    if recs.len() == 0 {
        proof {
            assert(recs@ =~= Seq::<DekaInfo>::empty());
        }
        RetrievalOutcome::Empty
    } else {
        RetrievalOutcome::Records(recs)
    }
}

/// Extract one case record from a fetched page; nothing when the page is
/// not a case document, which drops the page without failing the batch.
pub fn parse_case_page(html: &str, link: &str) -> (r: Option<DekaInfo>)
    ensures
        r is Some <==> page_parses(html@),
        r matches Some(rec) ==> page_record_from(rec, html@, link@),
{
    let title_texts = match first_match_texts(html, "h1.post-title") {
        Some(Some(ts)) => ts,
        _ => return None,
    };
    let body_texts = match first_match_texts(html, ".post-body.post-content") {
        Some(Some(ts)) => ts,
        _ => return None,
    };
    let title_chars = join_strings_sep(&title_texts, "");
    let body_chars = join_strings_sep(&body_texts, "\n");
    let title = string_of_chars(&title_chars);
    let body = string_of_chars(&body_chars);
    let mut rec = normalize(title.as_str(), body.as_str());
    let mut source = chars_of(
        "\u{0e40}\u{0e27}\u{0e47}\u{0e1a}\u{0e44}\u{0e0b}\u{0e15}\u{0e4c}\u{0e0e}\u{0e35}\u{0e01}\u{0e32}\u{0e28}\u{0e36}\u{0e01}\u{0e29}\u{0e32}",
    );
    source.push(' ');
    let mut link_chars = chars_of(link);
    source.append(&mut link_chars);
    proof {
        reveal_strlit(" ");
        assert(source@ =~= spec_mirror_name() + " "@ + link@);
    }
    rec.metadata.source = string_of_chars(&source);
    Some(rec)
}

} // verus!
