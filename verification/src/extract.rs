use vstd::prelude::*;
use vstd::string::StringExecFns;
use crate::CrawlError;
use crate::text::norm_ws;
use crate::text::normalize_whitespace;

verus! {

/// What one matched element looks like before any normalization: its raw
/// text, and its `href` / `src` attribute where one is carried.
pub type MatchView = (Seq<char>, Option<Seq<char>>, Option<Seq<char>>);

/// Whether the selector grammar accepts `pattern`; acceptance depends on the
/// pattern alone.
pub uninterp spec fn selector_ok(pattern: Seq<char>) -> bool;

/// The elements of the document `html` that the selector `pattern` matches,
/// in document order. Per element: its descendant text nodes joined with
/// single spaces, and the `href` / `src` attribute of the element itself or
/// of its first descendant anchor / image, where one is carried. The result
/// depends on `html` and `pattern` alone.
pub uninterp spec fn matches_of(html: Seq<char>, pattern: Seq<char>) -> Seq<MatchView>;

/// One element matched by a selector, as the markup library reports it.
pub struct RawMatch {
    /// The element's descendant text nodes, joined with single spaces.
    pub text: String,
    /// The `href` of the element or of its first descendant anchor.
    pub href: Option<String>,
    /// The `src` of the element or of its first descendant image.
    pub src: Option<String>,
}

/// The view of an optional attribute value.
pub open spec fn opt_view(a: Option<String>) -> Option<Seq<char>> {
    match a {
        Some(s) => Some(s@),
        None => None,
    }
}

impl View for RawMatch {
    type V = MatchView;

    open spec fn view(&self) -> MatchView {
        (self.text@, opt_view(self.href), opt_view(self.src))
    }
}

/// Relies on scraper's `Selector::parse`: whether the selector grammar
/// accepts a pattern is a function of the pattern alone.
#[verifier::external_body]
fn selector_compiles(pattern: &str) -> (r: bool)
    ensures
        r == selector_ok(pattern@),
{
    scraper::Selector::parse(pattern).is_ok()
}

/// Relies on scraper: `Html::parse_document` builds a best-effort tree from
/// any input (malformed markup degrades, never fails); `select` yields the
/// elements matching the compiled selector in document order; `text` yields
/// an element's descendant text nodes in order; `attr` reads an attribute,
/// and `select` under the element finds its first descendant anchor / image.
/// All of that is a function of `html` and `pattern` alone, here named
/// `matches_of`.
#[verifier::external_body]
fn select_matches(html: &str, pattern: &str) -> (r: Vec<RawMatch>)
    requires
        selector_ok(pattern@),
    ensures
        r@.map_values(|m: RawMatch| m@) == matches_of(html@, pattern@),
{
    let sel = scraper::Selector::parse(pattern).unwrap();
    let a_sel = scraper::Selector::parse("a").unwrap();
    let img_sel = scraper::Selector::parse("img").unwrap();
    let doc = scraper::Html::parse_document(html);
    doc.select(&sel)
        .map(|e| RawMatch {
            text: e.text().collect::<Vec<&str>>().join(" "),
            href: e.attr("href").or_else(|| e.select(&a_sel).next().and_then(|d| d.attr("href"))).map(String::from),
            src: e.attr("src").or_else(|| e.select(&img_sel).next().and_then(|d| d.attr("src"))).map(String::from),
        })
        .collect()
}

/// A named selector pattern, validated against the selector grammar when it
/// is built: an invalid pattern never enters a crawl (fail-fast).
#[derive(Debug)]
pub struct SelectorSpec {
    name: String,
    pattern: String,
}

impl SelectorSpec {
    /// The human-readable tag this selector reports under.
    pub closed spec fn name_view(self) -> Seq<char> {
        self.name@
    }

    /// The selector pattern itself.
    pub closed spec fn pattern_view(self) -> Seq<char> {
        self.pattern@
    }

    /// The (name, pattern) pair this selector was built from.
    pub open spec fn pair_view(self) -> (Seq<char>, Seq<char>) {
        (self.name_view(), self.pattern_view())
    }

    #[verifier::type_invariant]
    spec fn wf(self) -> bool {
        selector_ok(self.pattern@)
    }

    /// Builds a selector from a pattern, rejecting — as a fatal
    /// configuration error — every pattern the selector grammar refuses.
    pub fn new(name: String, pattern: String) -> (r: Result<SelectorSpec, CrawlError>)
        ensures
            r is Ok <==> selector_ok(pattern@),
            match r {
                Ok(s) => s.name_view() == name@ && s.pattern_view() == pattern@,
                Err(e) => e == CrawlError::ConfigurationError,
            },
    {
        if selector_compiles(pattern.as_str()) {
            Ok(SelectorSpec { name, pattern })
        } else {
            Err(CrawlError::ConfigurationError)
        }
    }

    /// The name this selector reports under.
    pub fn name(&self) -> (r: &String)
        ensures
            r@ == self.name_view(),
    {
        &self.name
    }

    /// The pattern this selector was built from.
    pub fn pattern(&self) -> (r: &String)
        ensures
            r@ == self.pattern_view(),
    {
        &self.pattern
    }
}

/// The (name, pattern) pairs of a selector set, in order.
pub open spec fn specs_view(specs: Seq<SelectorSpec>) -> Seq<(Seq<char>, Seq<char>)> {
    specs.map_values(|s: SelectorSpec| s.pair_view())
}

/// The structured result of applying one selector to one matched element:
/// the name of the selector, the whitespace-normalized text, and the
/// `href` / `src` attribute values, with `"N/A"` standing in for an absent
/// one.
#[derive(Debug, Clone, PartialEq)]
pub struct ExtractedRecord {
    pub name: String,
    pub text: String,
    pub href: String,
    pub src: String,
}

/// The mathematical shape of an extracted record.
#[verifier::ext_equal]
pub ghost struct RecordView {
    pub name: Seq<char>,
    pub text: Seq<char>,
    pub href: Seq<char>,
    pub src: Seq<char>,
}

impl View for ExtractedRecord {
    type V = RecordView;

    open spec fn view(&self) -> RecordView {
        RecordView { name: self.name@, text: self.text@, href: self.href@, src: self.src@ }
    }
}

/// The sentinel that marks an absent attribute.
pub open spec fn na_seq() -> Seq<char> {
    "N/A"@
}

/// An attribute value, or the sentinel where none is present.
pub open spec fn attr_or_na(a: Option<Seq<char>>) -> Seq<char> {
    match a {
        Some(v) => v,
        None => na_seq(),
    }
}

/// The attribute value where one is present, else the `"N/A"` sentinel.
pub fn attr_value_or_na(a: &Option<String>) -> (r: String)
    ensures
        r@ == attr_or_na(opt_view(*a)),
{
    match a {
        Some(v) => v.clone(),
        None => String::from_str("N/A"),
    }
}

/// The record derived from one raw match under the selector named `name`:
/// text whitespace-normalized, absent attributes replaced by the sentinel.
pub open spec fn record_of(name: Seq<char>, m: MatchView) -> RecordView {
    RecordView { name, text: norm_ws(m.0), href: attr_or_na(m.1), src: attr_or_na(m.2) }
}

/// All records one selector yields on a document, in document order.
pub open spec fn records_for(html: Seq<char>, name: Seq<char>, pattern: Seq<char>) -> Seq<
    RecordView,
> {
    matches_of(html, pattern).map_values(|m: MatchView| record_of(name, m))
}

/// All records a selector set yields on a document: selectors in the given
/// order, and per selector its matches in document order.
pub open spec fn extract_view(html: Seq<char>, specs: Seq<(Seq<char>, Seq<char>)>) -> Seq<
    RecordView,
>
    decreases specs.len(),
{
    if specs.len() == 0 {
        Seq::empty()
    } else {
        records_for(html, specs[0].0, specs[0].1) + extract_view(html, specs.drop_first())
    }
}

/// The hrefs that a run of matches carries, in match order.
pub open spec fn links_of_matches(ms: Seq<MatchView>) -> Seq<Seq<char>>
    decreases ms.len(),
{
    if ms.len() == 0 {
        Seq::empty()
    } else {
        let rest = links_of_matches(ms.drop_first());
        match ms[0].1 {
            Some(h) => seq![h] + rest,
            None => rest,
        }
    }
}

/// Every href that a selector set discovers on a document, in extraction
/// order.
pub open spec fn links_view(html: Seq<char>, specs: Seq<(Seq<char>, Seq<char>)>) -> Seq<Seq<char>>
    decreases specs.len(),
{
    if specs.len() == 0 {
        Seq::empty()
    } else {
        links_of_matches(matches_of(html, specs[0].1)) + links_view(html, specs.drop_first())
    }
}

proof fn lemma_extract_view_snoc(html: Seq<char>, specs: Seq<(Seq<char>, Seq<char>)>, p: (Seq<char>, Seq<char>))
    ensures
        extract_view(html, specs.push(p)) == extract_view(html, specs) + records_for(
            html,
            p.0,
            p.1,
        ),
    decreases specs.len(),
{
    let s1 = specs.push(p);
    assert(s1.len() == specs.len() + 1);
    if specs.len() == 0 {
        assert(s1[0] == p);
        assert(s1.drop_first() =~= Seq::<(Seq<char>, Seq<char>)>::empty());
        assert(extract_view(html, s1) == records_for(html, p.0, p.1) + extract_view(
            html,
            s1.drop_first(),
        ));
        assert(extract_view(html, s1.drop_first()) =~= Seq::<RecordView>::empty());
        assert(extract_view(html, specs) =~= Seq::<RecordView>::empty());
        assert(extract_view(html, s1) =~= extract_view(html, specs) + records_for(
            html,
            p.0,
            p.1,
        ));
    } else {
        lemma_extract_view_snoc(html, specs.drop_first(), p);
        assert(s1[0] == specs[0]);
        assert(s1.drop_first() =~= specs.drop_first().push(p));
        assert(extract_view(html, s1) == records_for(html, specs[0].0, specs[0].1) + extract_view(
            html,
            s1.drop_first(),
        ));
        assert(extract_view(html, specs) == records_for(html, specs[0].0, specs[0].1)
            + extract_view(html, specs.drop_first()));
        assert(extract_view(html, s1) =~= extract_view(html, specs) + records_for(
            html,
            p.0,
            p.1,
        ));
    }
}

proof fn lemma_links_view_snoc(html: Seq<char>, specs: Seq<(Seq<char>, Seq<char>)>, p: (Seq<char>, Seq<char>))
    ensures
        links_view(html, specs.push(p)) == links_view(html, specs) + links_of_matches(
            matches_of(html, p.1),
        ),
    decreases specs.len(),
{
    let s1 = specs.push(p);
    assert(s1.len() == specs.len() + 1);
    if specs.len() == 0 {
        assert(s1[0] == p);
        assert(s1.drop_first() =~= Seq::<(Seq<char>, Seq<char>)>::empty());
        assert(links_view(html, s1) == links_of_matches(matches_of(html, p.1)) + links_view(
            html,
            s1.drop_first(),
        ));
        assert(links_view(html, s1.drop_first()) =~= Seq::<Seq<char>>::empty());
        assert(links_view(html, specs) =~= Seq::<Seq<char>>::empty());
        assert(links_view(html, s1) =~= links_view(html, specs) + links_of_matches(
            matches_of(html, p.1),
        ));
    } else {
        lemma_links_view_snoc(html, specs.drop_first(), p);
        assert(s1[0] == specs[0]);
        assert(s1.drop_first() =~= specs.drop_first().push(p));
        assert(links_view(html, s1) == links_of_matches(matches_of(html, specs[0].1)) + links_view(
            html,
            s1.drop_first(),
        ));
        assert(links_view(html, specs) == links_of_matches(matches_of(html, specs[0].1))
            + links_view(html, specs.drop_first()));
        assert(links_view(html, s1) =~= links_view(html, specs) + links_of_matches(
            matches_of(html, p.1),
        ));
    }
}

proof fn lemma_links_of_matches_snoc(ms: Seq<MatchView>, m: MatchView)
    ensures
        links_of_matches(ms.push(m)) == links_of_matches(ms) + (match m.1 {
            Some(h) => seq![h],
            None => Seq::<Seq<char>>::empty(),
        }),
    decreases ms.len(),
{
    let s1 = ms.push(m);
    assert(s1.len() == ms.len() + 1);
    if ms.len() == 0 {
        assert(s1[0] == m);
        assert(s1.drop_first() =~= Seq::<MatchView>::empty());
        assert(links_of_matches(s1.drop_first()) =~= Seq::<Seq<char>>::empty());
        assert(links_of_matches(ms) =~= Seq::<Seq<char>>::empty());
        assert(links_of_matches(s1) =~= links_of_matches(ms) + (match m.1 {
            Some(h) => seq![h],
            None => Seq::<Seq<char>>::empty(),
        }));
    } else {
        lemma_links_of_matches_snoc(ms.drop_first(), m);
        assert(s1[0] == ms[0]);
        assert(s1.drop_first() =~= ms.drop_first().push(m));
        assert(links_of_matches(s1) =~= links_of_matches(ms) + (match m.1 {
            Some(h) => seq![h],
            None => Seq::<Seq<char>>::empty(),
        }));
    }
}

/// Applies every selector of the set to the document and also reports the
/// hrefs the matches carry, in extraction order, for link-following.
pub fn extract_page(html: &str, specs: &Vec<SelectorSpec>) -> (r: (
    Vec<ExtractedRecord>,
    Vec<String>,
))
    ensures
        r.0@.map_values(|rec: ExtractedRecord| rec@) == extract_view(html@, specs_view(specs@)),
        r.1@.map_values(|u: String| u@) == links_view(html@, specs_view(specs@)),
{
    let ghost sv = specs_view(specs@);
    let mut records: Vec<ExtractedRecord> = Vec::new();
    let mut links: Vec<String> = Vec::new();
    let mut j: usize = 0;
    proof {
        assert(sv.take(0) =~= Seq::<(Seq<char>, Seq<char>)>::empty());
    }
    while j < specs.len()
        invariant
            j <= specs.len(),
            sv == specs_view(specs@),
            records@.map_values(|rec: ExtractedRecord| rec@) == extract_view(html@, sv.take(j as int)),
            links@.map_values(|u: String| u@) == links_view(html@, sv.take(j as int)),
        decreases specs.len() - j,
    {
        let sp = &specs[j];
        proof {
            use_type_invariant(sp);
        }
        let ghost name = sp.name_view();
        let ghost pat = sp.pattern_view();
        let ghost mv = matches_of(html@, pat);
        let ms = select_matches(html, sp.pattern().as_str());
        let mut k: usize = 0;
        proof {
            assert(mv.take(0) =~= Seq::<MatchView>::empty());
            assert(records_for(html@, name, pat).take(0) =~= Seq::<RecordView>::empty());
        }
        while k < ms.len()
            invariant
                k <= ms.len(),
                sv == specs_view(specs@),
                j < specs.len(),
                sv[j as int] == (name, pat),
                sp.name_view() == name,
                sp.pattern_view() == pat,
                mv == matches_of(html@, pat),
                ms@.map_values(|m: RawMatch| m@) == mv,
                records@.map_values(|rec: ExtractedRecord| rec@) == extract_view(
                    html@,
                    sv.take(j as int),
                ) + records_for(html@, name, pat).take(k as int),
                links@.map_values(|u: String| u@) == links_view(html@, sv.take(j as int))
                    + links_of_matches(mv.take(k as int)),
            decreases ms.len() - k,
        {
            let m = &ms[k];
            proof {
                assert(mv[k as int] == m@);
            }
            let rec = ExtractedRecord {
                name: sp.name().clone(),
                text: normalize_whitespace(m.text.as_str()),
                href: attr_value_or_na(&m.href),
                src: attr_value_or_na(&m.src),
            };
            proof {
                assert(rec@ =~= record_of(name, mv[k as int]));
            }
            let ghost recs0 = records@;
            let ghost links0 = links@;
            let ghost recv = rec@;
            records.push(rec);
            proof {
                lemma_links_of_matches_snoc(mv.take(k as int), mv[k as int]);
                assert(mv.take(k + 1) =~= mv.take(k as int).push(mv[k as int]));
                let rf = records_for(html@, name, pat);
                assert(rf[k as int] == record_of(name, mv[k as int]));
                assert(rf.take(k + 1) =~= rf.take(k as int).push(record_of(name, mv[k as int])));
                assert(records@ == recs0.push(rec));
                assert(records@.map_values(|r: ExtractedRecord| r@) =~= recs0.map_values(
                    |r: ExtractedRecord| r@,
                ).push(recv));
                assert(records@.map_values(|rec: ExtractedRecord| rec@) =~= extract_view(
                    html@,
                    sv.take(j as int),
                ) + rf.take(k + 1));
            }
            match &m.href {
                Some(h) => {
                    links.push(h.clone());
                    proof {
                        assert(mv[k as int].1 == Some(h@));
                        assert(links@.map_values(|u: String| u@) =~= links0.map_values(
                            |u: String| u@,
                        ).push(h@));
                        assert(links_of_matches(mv.take(k + 1)) == links_of_matches(
                            mv.take(k as int),
                        ) + seq![h@]);
                    }
                },
                None => {
                    proof {
                        assert(links@ == links0);
                        assert(links_of_matches(mv.take(k + 1)) == links_of_matches(
                            mv.take(k as int),
                        ) + Seq::<Seq<char>>::empty());
                    }
                },
            }
            proof {
                assert(links@.map_values(|u: String| u@) =~= links_view(html@, sv.take(j as int))
                    + links_of_matches(mv.take(k + 1)));
            }
            k = k + 1;
        }
        proof {
            assert(mv.take(ms@.len() as int) =~= mv);
            assert(records_for(html@, name, pat).take(ms@.len() as int) =~= records_for(
                html@,
                name,
                pat,
            ));
            lemma_extract_view_snoc(html@, sv.take(j as int), (name, pat));
            lemma_links_view_snoc(html@, sv.take(j as int), (name, pat));
            assert(sv.take(j + 1) =~= sv.take(j as int).push((name, pat)));
        }
        j = j + 1;
    }
    proof {
        assert(sv.take(specs@.len() as int) =~= sv);
    }
    (records, links)
}

/// Applies every selector of the set to the document: for each selector in
/// the given order, one record per matched element, in document order. A
/// selector that matches nothing contributes nothing; that is a valid,
/// silent outcome.
pub fn extract(html: &str, specs: &Vec<SelectorSpec>) -> (r: Vec<ExtractedRecord>)
    ensures
        r@.map_values(|rec: ExtractedRecord| rec@) == extract_view(html@, specs_view(specs@)),
{
    let (records, _links) = extract_page(html, specs);
    records
}

/// Extraction is idempotent: two extractions from the same document with the
/// same selector set yield identical ordered output.
pub proof fn lemma_extract_idempotent(
    a: Seq<RecordView>,
    b: Seq<RecordView>,
    html: Seq<char>,
    specs: Seq<(Seq<char>, Seq<char>)>,
)
    requires
        a == extract_view(html, specs),
        b == extract_view(html, specs),
    ensures
        a == b,
{
}

} // verus!
