//! The document model: a navigable tree of sections over one immutable
//! text, with workflow-keyword classification.

use vstd::prelude::*;

use crate::builder::OutputBuilder;
use crate::config::{
    cfg_finished, cfg_unfinished, copy_config, default_finished, default_unfinished, Config,
};
use crate::utils::{bytes_eq, is_prefix, starts_with_bytes, trim_bytes, trim_spec};

verus! {

/// Why an operation failed.
#[derive(Clone, Copy, Debug, PartialEq, Eq, Structural)]
pub enum OrgError {
    /// The syntax source could not tokenize the input.
    ParseFailure,
    /// No section's headline matched the search text.
    SectionNotFound,
}

impl OrgError {
    /// A short description for reporting.
    pub fn message(&self) -> &'static str {
        match self {
            OrgError::ParseFailure => "could not parse the input as an org document",
            OrgError::SectionNotFound => "could not find a section with that headline",
        }
    }
}

/// Workflow classification of one section's headline.
#[derive(Debug)]
pub enum Keyword {
    /// The headline starts with a configured finished keyword.
    Finished(Vec<u8>),
    /// The headline starts with a configured unfinished keyword.
    Unfinished(Vec<u8>),
    /// The headline starts with no configured keyword.
    Missing,
}

/// Mathematical model of a [`Keyword`]: the flag is true for finished.
pub open spec fn kw_view(k: Keyword) -> Option<(bool, Seq<u8>)> {
    match k {
        Keyword::Finished(v) => Some((true, v@)),
        Keyword::Unfinished(v) => Some((false, v@)),
        Keyword::Missing => None,
    }
}

impl PartialEq for Keyword {
    fn eq(&self, other: &Keyword) -> (r: bool) {
        match (self, other) {
            (Keyword::Finished(a), Keyword::Finished(b)) => bytes_eq(a.as_slice(), b.as_slice()),
            (Keyword::Unfinished(a), Keyword::Unfinished(b)) => bytes_eq(a.as_slice(), b.as_slice()),
            (Keyword::Missing, Keyword::Missing) => true,
            _ => false,
        }
    }
}

impl vstd::std_specs::cmp::PartialEqSpecImpl for Keyword {
    open spec fn obeys_eq_spec() -> bool {
        true
    }

    open spec fn eq_spec(&self, other: &Keyword) -> bool {
        kw_view(*self) == kw_view(*other)
    }
}

/// Where an inserted section is placed relative to the located target.
#[derive(Clone, Copy, Debug)]
pub enum Position {
    /// As the target's first child, right after the target's headline line.
    Under,
    /// As a sibling, right after the target's whole span.
    After,
}

/// One outline section: a headline plus everything nested beneath it,
/// described by byte offsets into the original text.
pub struct Section {
    /// Start of the whole span, including all descendants.
    pub start: usize,
    /// Exclusive end of the whole span.
    pub end: usize,
    /// Exclusive end of the headline line (including its newline).
    pub hl_end: usize,
    /// Span of the headline item text (keyword and title), when present.
    pub item_start: usize,
    pub item_end: usize,
    pub has_item: bool,
    /// Span of the body text, when present.
    pub body_start: usize,
    pub body_end: usize,
    pub has_body: bool,
    /// Number of leading star markers; the section's depth.
    pub stars: usize,
    /// Direct subsections in document order.
    pub children: Vec<Section>,
}

/// Well-formedness of one section relative to the enclosing byte range
/// `[lo, hi]`: spans are ordered and nested, the headline leads the span,
/// and children sit between body and section end.
pub open spec fn sec_wf(s: Section, lo: int, hi: int) -> bool
    decreases s, 1nat,
{
    &&& lo <= s.start <= s.hl_end <= s.end <= hi
    &&& (s.has_item ==> s.start <= s.item_start <= s.item_end <= s.hl_end)
    &&& (s.has_body ==> s.hl_end <= s.body_start <= s.body_end <= s.end)
    &&& (s.has_body && s.children@.len() > 0 ==> s.body_end <= s.children@[0].start)
    &&& 1 <= s.stars <= s.hl_end - s.start
    &&& secs_wf_from(s.children@, 0, s.hl_end as int, s.end as int)
}

/// Well-formedness of the sibling list `secs[i..]` within `[lo, hi]`:
/// each section is well formed and spans are in document order without
/// overlap.
pub open spec fn secs_wf_from(secs: Seq<Section>, i: int, lo: int, hi: int) -> bool
    decreases secs, secs.len() - i + 1,
{
    if i < 0 || i >= secs.len() {
        true
    } else {
        &&& sec_wf(secs[i], lo, hi)
        &&& secs_wf_from(secs, i + 1, secs[i].end as int, hi)
    }
}

/// The end of the last section in `secs[i..]`, or `lo` if there is none.
pub open spec fn tail_end(secs: Seq<Section>, i: int, lo: int) -> int
    decreases secs.len() - i,
{
    if i < 0 || i >= secs.len() {
        lo
    } else {
        tail_end(secs, i + 1, secs[i].end as int)
    }
}

/// A well-formed sibling list stays well formed when a section starting
/// at or after the list's last end is appended.
pub proof fn lemma_secs_wf_push(secs: Seq<Section>, x: Section, i: int, lo: int, hi: int)
    requires
        secs_wf_from(secs, i, lo, hi),
        sec_wf(x, tail_end(secs, i, lo), hi),
    ensures
        secs_wf_from(secs.push(x), i, lo, hi),
    decreases secs.len() - i,
{
    if 0 <= i < secs.len() {
        assert(secs.push(x)[i] == secs[i]);
        lemma_secs_wf_push(secs, x, i + 1, secs[i].end as int, hi);
    } else if i == secs.len() {
        assert(secs.push(x)[i] == x);
        assert(secs_wf_from(secs.push(x), i + 1, x.end as int, hi));
    }
}

/// Appending a section makes it the list's last end.
pub proof fn lemma_tail_end_push(secs: Seq<Section>, x: Section, i: int, lo: int)
    requires
        0 <= i <= secs.len(),
    ensures
        tail_end(secs.push(x), i, lo) == x.end,
    decreases secs.len() - i,
{
    if i < secs.len() {
        assert(secs.push(x)[i] == secs[i]);
        lemma_tail_end_push(secs, x, i + 1, secs[i].end as int);
    } else {
        assert(secs.push(x)[i] == x);
        assert(tail_end(secs.push(x), i + 1, x.end as int) == x.end);
    }
}

/// The headline item bytes of `s` within `input`.
pub open spec fn item_spec(input: Seq<u8>, s: Section) -> Seq<u8> {
    input.subrange(s.item_start as int, s.item_end as int)
}

/// First keyword in `kws[i..]` that prefixes `item`, in list order.
pub open spec fn kw_match_from(kws: Seq<Seq<u8>>, i: int, item: Seq<u8>) -> Option<Seq<u8>>
    decreases kws.len() - i,
{
    if i < 0 || i >= kws.len() {
        None
    } else if is_prefix(kws[i], item) {
        Some(kws[i])
    } else {
        kw_match_from(kws, i + 1, item)
    }
}

/// A matched keyword is always a prefix of the item it matched.
pub proof fn lemma_kw_match_is_prefix(kws: Seq<Seq<u8>>, i: int, item: Seq<u8>)
    ensures
        kw_match_from(kws, i, item) matches Some(k) ==> is_prefix(k, item),
    decreases kws.len() - i,
{
    if 0 <= i < kws.len() && !is_prefix(kws[i], item) {
        lemma_kw_match_is_prefix(kws, i + 1, item);
    }
}

/// Classification of a headline item: finished keywords are tried first,
/// then unfinished, each first-match-wins; `None` when nothing matches or
/// the headline has no item.
pub open spec fn classify_spec(
    fin: Seq<Seq<u8>>,
    unf: Seq<Seq<u8>>,
    input: Seq<u8>,
    s: Section,
) -> Option<(bool, Seq<u8>)> {
    if !s.has_item {
        None
    } else {
        let item = item_spec(input, s);
        match kw_match_from(fin, 0, item) {
            Some(k) => Some((true, k)),
            None => match kw_match_from(unf, 0, item) {
                Some(k) => Some((false, k)),
                None => None,
            },
        }
    }
}

/// The section's own keyword is a configured finished keyword.
pub open spec fn sec_finished(fin: Seq<Seq<u8>>, input: Seq<u8>, s: Section) -> bool {
    s.has_item && kw_match_from(fin, 0, item_spec(input, s)) is Some
}

/// The keyword-stripped, whitespace-trimmed headline text, or `None` for
/// a headline with no item.
pub open spec fn headline_text_spec(
    fin: Seq<Seq<u8>>,
    unf: Seq<Seq<u8>>,
    input: Seq<u8>,
    s: Section,
) -> Option<Seq<u8>> {
    if !s.has_item {
        None
    } else {
        let item = item_spec(input, s);
        match classify_spec(fin, unf, input, s) {
            Some(p) => Some(trim_spec(item.subrange(p.1.len() as int, item.len() as int))),
            None => Some(trim_spec(item)),
        }
    }
}

/// First keyword of `kws` that prefixes `item`, cloned.
pub fn find_keyword_in(kws: &Vec<Vec<u8>>, item: &[u8]) -> (r: Option<Vec<u8>>)
    ensures
        match kw_match_from(kws.deep_view(), 0, item@) {
            Some(k) => r matches Some(v) && v@ == k,
            None => r is None,
        },
{
    let n = kws.len();
    let mut i: usize = 0;
    while i < n
        invariant
            0 <= i <= n,
            n == kws@.len(),
            kw_match_from(kws.deep_view(), 0, item@) == kw_match_from(
                kws.deep_view(),
                i as int,
                item@,
            ),
        decreases n - i,
    {
        proof {
            assert(kws.deep_view()[i as int] =~= kws@[i as int]@);
        }
        if starts_with_bytes(item, kws[i].as_slice()) {
            return Some(vstd::slice::slice_to_vec(kws[i].as_slice()));
        }
        i = i + 1;
    }
    None
}

impl Section {
    /// Start byte of the section's span.
    pub fn start_byte(&self) -> (r: usize)
        ensures
            r == self.start,
    {
        self.start
    }

    /// Exclusive end byte of the section's span.
    pub fn end_byte(&self) -> (r: usize)
        ensures
            r == self.end,
    {
        self.end
    }

    /// The headline line's span: section start through end of line.
    pub fn headline(&self) -> (r: (usize, usize))
        ensures
            r.0 == self.start,
            r.1 == self.hl_end,
    {
        (self.start, self.hl_end)
    }

    /// The body span, when the section has body text.
    pub fn body(&self) -> (r: Option<(usize, usize)>)
        ensures
            self.has_body ==> (r matches Some(p) && p.0 == self.body_start && p.1 == self.body_end),
            !self.has_body ==> r is None,
    {
        if self.has_body {
            Some((self.body_start, self.body_end))
        } else {
            None
        }
    }

    /// The body text, when present.
    pub fn body_text<'a>(&self, input: &'a [u8]) -> (r: Option<&'a [u8]>)
        requires
            self.has_body ==> self.body_start <= self.body_end <= input@.len(),
        ensures
            self.has_body ==> (r matches Some(b) && b@ == input@.subrange(
                self.body_start as int,
                self.body_end as int,
            )),
            !self.has_body ==> r is None,
    {
        if self.has_body {
            Some(vstd::slice::slice_subrange(input, self.body_start, self.body_end))
        } else {
            None
        }
    }

    /// The number of leading star markers.
    pub fn stars(&self) -> (r: usize)
        ensures
            r == self.stars,
    {
        self.stars
    }

    /// The direct subsections, in document order.
    pub fn subsections(&self) -> (r: &Vec<Section>)
        ensures
            *r == self.children,
    {
        &self.children
    }

    /// The full headline item text including any keyword, excluding the
    /// star markers.
    pub fn headline_text_full<'a>(&self, input: &'a [u8]) -> (r: Option<&'a [u8]>)
        requires
            self.has_item ==> self.item_start <= self.item_end <= input@.len(),
        ensures
            self.has_item ==> (r matches Some(t) && t@ == item_spec(input@, *self)),
            !self.has_item ==> r is None,
    {
        if self.has_item {
            Some(vstd::slice::slice_subrange(input, self.item_start, self.item_end))
        } else {
            None
        }
    }

    /// The workflow classification of this section's headline.
    pub fn keyword(&self, config: &Config, input: &[u8]) -> (r: Keyword)
        requires
            self.has_item ==> self.item_start <= self.item_end <= input@.len(),
        ensures
            kw_view(r) == classify_spec(cfg_finished(*config), cfg_unfinished(*config), input@, *self),
    {
        if let Some(item) = self.headline_text_full(input) {
            if let Some(k) = self.find_keyword(&config.keywords_finished, item) {
                return Keyword::Finished(k);
            }
            if let Some(k) = self.find_keyword(&config.keywords_unfinished, item) {
                return Keyword::Unfinished(k);
            }
        }
        Keyword::Missing
    }

    /// First keyword of `keywords` that prefixes `headline_text`.
    pub fn find_keyword(&self, keywords: &Vec<Vec<u8>>, headline_text: &[u8]) -> (r: Option<
        Vec<u8>,
    >)
        ensures
            match kw_match_from(keywords.deep_view(), 0, headline_text@) {
                Some(k) => r matches Some(v) && v@ == k,
                None => r is None,
            },
    {
        find_keyword_in(keywords, headline_text)
    }

    /// The keyword-stripped, trimmed headline text.
    pub fn headline_text(&self, config: &Config, input: &[u8]) -> (r: Option<Vec<u8>>)
        requires
            self.has_item ==> self.item_start <= self.item_end <= input@.len(),
        ensures
            match headline_text_spec(
                cfg_finished(*config),
                cfg_unfinished(*config),
                input@,
                *self,
            ) {
                Some(t) => r matches Some(v) && v@ == t,
                None => r is None,
            },
    {
        match self.headline_text_full(input) {
            None => None,
            Some(item) => {
                match self.keyword(config, input) {
                    Keyword::Finished(k) | Keyword::Unfinished(k) => {
                        proof {
                            lemma_kw_match_is_prefix(cfg_finished(*config), 0, item@);
                            lemma_kw_match_is_prefix(cfg_unfinished(*config), 0, item@);
                            assert(is_prefix(k@, item@));
                        }
                        let rest = vstd::slice::slice_subrange(item, k.len(), item.len());
                        Some(trim_bytes(rest))
                    },
                    Keyword::Missing => Some(trim_bytes(item)),
                }
            },
        }
    }
}

/// The parsed document: one immutable text snapshot, the keyword
/// configuration, and the tree of top-level sections.
pub struct OrgFile {
    pub config: Config,
    pub input: Vec<u8>,
    pub sections: Vec<Section>,
}

impl OrgFile {
    /// The section tree is well formed over the input, whose offsets
    /// stay below the machine limit.
    pub open spec fn wf(&self) -> bool {
        &&& self.input@.len() < usize::MAX
        &&& secs_wf_from(self.sections@, 0, 0, self.input@.len() as int)
    }

    /// The top-level sections, in document order.
    pub fn subsections(&self) -> (r: &Vec<Section>)
        ensures
            *r == self.sections,
    {
        &self.sections
    }

    /// A fresh output builder over this document's text.
    pub fn output_builder(&self) -> (r: OutputBuilder)
        ensures
            r.wf(),
            r.input@ == self.input@,
            r.output@ == Seq::<u8>::empty(),
            r.start_byte == 0,
            cfg_finished(r.config) == cfg_finished(self.config),
            cfg_unfinished(r.config) == cfg_unfinished(self.config),
    {
        OutputBuilder::new(&self.config, self.input.as_slice())
    }
}

/// Entry point carrying a keyword configuration from which documents are
/// loaded.
pub struct Org {
    pub config: Config,
}

impl Org {
    /// An entry point with the default workflow vocabulary.
    pub fn new() -> (r: Org)
        ensures
            cfg_finished(r.config) == default_finished(),
            cfg_unfinished(r.config) == default_unfinished(),
    {
        Org { config: Config::default() }
    }

    /// An entry point with the given configuration.
    pub fn from_config(config: Config) -> (r: Org)
        ensures
            r.config == config,
    {
        Org { config }
    }

    /// Replace the unfinished keyword list.
    pub fn keywords_unfinished(self, keywords: Vec<Vec<u8>>) -> (r: Org)
        ensures
            cfg_unfinished(r.config) == keywords.deep_view(),
            cfg_finished(r.config) == cfg_finished(self.config),
    {
        let Org { config } = self;
        Org { config: Config { keywords_unfinished: keywords, ..config } }
    }

    /// Replace the finished keyword list.
    pub fn keywords_finished(self, keywords: Vec<Vec<u8>>) -> (r: Org)
        ensures
            cfg_finished(r.config) == keywords.deep_view(),
            cfg_unfinished(r.config) == cfg_unfinished(self.config),
    {
        let Org { config } = self;
        Org { config: Config { keywords_finished: keywords, ..config } }
    }

    /// Parse `input` into a document; fails with `ParseFailure` when the
    /// syntax source cannot tokenize it.
    pub fn load(&self, input: &[u8]) -> (r: Result<OrgFile, OrgError>)
        ensures
            r matches Ok(f) ==> f.wf() && f.input@ == input@ && cfg_finished(f.config)
                == cfg_finished(self.config) && cfg_unfinished(f.config) == cfg_unfinished(
                self.config,
            ),
            r matches Err(e) ==> e == OrgError::ParseFailure,
    {
        crate::parse::build_doc(copy_config(&self.config), vstd::slice::slice_to_vec(input))
    }
}

/// A well-formed section stays well formed in a wider enclosing range.
pub proof fn lemma_sec_wf_widen(s: Section, lo1: int, hi1: int, lo2: int, hi2: int)
    requires
        sec_wf(s, lo1, hi1),
        lo2 <= lo1,
        hi1 <= hi2,
    ensures
        sec_wf(s, lo2, hi2),
{
}

/// A well-formed sibling list stays well formed when its lower bound is
/// moved down.
pub proof fn lemma_secs_wf_weaken_lo(secs: Seq<Section>, i: int, lo1: int, lo2: int, hi: int)
    requires
        secs_wf_from(secs, i, lo1, hi),
        lo2 <= lo1,
    ensures
        secs_wf_from(secs, i, lo2, hi),
{
    if 0 <= i < secs.len() {
        lemma_sec_wf_widen(secs[i], lo1, hi, lo2, hi);
    }
}

/// Within an ordered sibling list, each section is well formed from the
/// end of the section before it (or the list's own lower bound).
pub proof fn lemma_sec_wf_linked(secs: Seq<Section>, i: int, j: int, lo: int, hi: int)
    requires
        secs_wf_from(secs, i, lo, hi),
        0 <= i <= j < secs.len(),
    ensures
        sec_wf(
            secs[j],
            if j == i {
                lo
            } else {
                secs[j - 1].end as int
            },
            hi,
        ),
    decreases j - i,
{
    if i < j {
        lemma_sec_wf_linked(secs, i + 1, j, secs[i].end as int, hi);
    }
}

/// Pointwise well-formedness: every section of the list is well formed
/// within `[0, hi]`. Order is irrelevant here; searching needs only the
/// spans' validity.
pub open spec fn secs_all_wf(secs: Seq<Section>, hi: int) -> bool {
    forall|k: int| 0 <= k < secs.len() ==> sec_wf(#[trigger] secs[k], 0, hi)
}

/// An ordered sibling list is pointwise well formed.
pub proof fn lemma_secs_wf_pointwise(secs: Seq<Section>, i: int, lo: int, hi: int)
    requires
        secs_wf_from(secs, i, lo, hi),
        0 <= lo,
        0 <= i,
    ensures
        forall|k: int| 0 <= k < secs.len() && i <= k ==> sec_wf(#[trigger] secs[k], 0, hi),
    decreases secs.len() - i,
{
    if 0 <= i < secs.len() {
        lemma_sec_wf_widen(secs[i], lo, hi, 0, hi);
        lemma_secs_wf_pointwise(secs, i + 1, secs[i].end as int, hi);
    }
}

/// The children of a well-formed section are pointwise well formed in
/// the same enclosing range.
pub proof fn lemma_children_all_wf(s: Section, lo: int, hi: int)
    requires
        sec_wf(s, lo, hi),
        0 <= lo,
    ensures
        secs_all_wf(s.children@, hi),
{
    lemma_secs_wf_pointwise(s.children@, 0, s.hl_end as int, s.end as int);
    assert forall|k: int| 0 <= k < s.children@.len() implies sec_wf(
        #[trigger] s.children@[k],
        0,
        hi,
    ) by {
        assert(sec_wf(s.children@[k], 0, s.end as int));
    }
}

/// Depth-first, pre-order search below one section.
pub open spec fn find_in_children(
    input: Seq<u8>,
    s: Section,
    search: Seq<u8>,
    fin: Seq<Seq<u8>>,
    unf: Seq<Seq<u8>>,
) -> Option<Section>
    decreases s, 0int,
{
    find_in_from(input, s.children@, 0, search, fin, unf)
}

/// Depth-first, pre-order search over the siblings `secs[i..]`: the
/// first section, in document order, whose keyword-stripped headline
/// text equals `search` exactly.
pub open spec fn find_in_from(
    input: Seq<u8>,
    secs: Seq<Section>,
    i: int,
    search: Seq<u8>,
    fin: Seq<Seq<u8>>,
    unf: Seq<Seq<u8>>,
) -> Option<Section>
    decreases secs, secs.len() - i + 1,
{
    if i < 0 || i >= secs.len() {
        None
    } else if headline_text_spec(fin, unf, input, secs[i]) == Some(search) {
        Some(secs[i])
    } else {
        match find_in_children(input, secs[i], search, fin, unf) {
            Some(r) => Some(r),
            None => find_in_from(input, secs, i + 1, search, fin, unf),
        }
    }
}

/// Whatever the search finds is a well-formed section of the document.
pub proof fn lemma_find_wf(
    input: Seq<u8>,
    secs: Seq<Section>,
    i: int,
    search: Seq<u8>,
    fin: Seq<Seq<u8>>,
    unf: Seq<Seq<u8>>,
    hi: int,
)
    requires
        secs_all_wf(secs, hi),
    ensures
        find_in_from(input, secs, i, search, fin, unf) matches Some(t) ==> sec_wf(t, 0, hi),
    decreases secs, secs.len() - i + 1,
{
    if 0 <= i < secs.len() {
        if headline_text_spec(fin, unf, input, secs[i]) == Some(search) {
        } else {
            lemma_children_all_wf(secs[i], 0, hi);
            lemma_find_wf_children(input, secs[i], search, fin, unf, hi);
            lemma_find_wf(input, secs, i + 1, search, fin, unf, hi);
        }
    }
}

/// Companion of [`lemma_find_wf`] descending into one section.
pub proof fn lemma_find_wf_children(
    input: Seq<u8>,
    s: Section,
    search: Seq<u8>,
    fin: Seq<Seq<u8>>,
    unf: Seq<Seq<u8>>,
    hi: int,
)
    requires
        secs_all_wf(s.children@, hi),
    ensures
        find_in_children(input, s, search, fin, unf) matches Some(t) ==> sec_wf(t, 0, hi),
    decreases s, 0int,
{
    lemma_find_wf(input, s.children@, 0, search, fin, unf, hi);
}

/// Depth-first, pre-order search over a sibling list: the first section
/// whose keyword-stripped headline text equals `search` exactly.
pub fn find_in_secs<'a>(
    secs: &'a Vec<Section>,
    config: &Config,
    input: &[u8],
    search: &[u8],
) -> (r: Option<&'a Section>)
    requires
        secs_all_wf(secs@, input@.len() as int),
    ensures
        match find_in_from(
            input@,
            secs@,
            0,
            search@,
            cfg_finished(*config),
            cfg_unfinished(*config),
        ) {
            Some(t) => r matches Some(p) && *p == t,
            None => r is None,
        },
    decreases secs@,
{
    let ghost fin = cfg_finished(*config);
    let ghost unf = cfg_unfinished(*config);
    let n = secs.len();
    let mut i: usize = 0;
    while i < n
        invariant
            0 <= i <= n,
            n == secs@.len(),
            secs_all_wf(secs@, input@.len() as int),
            fin == cfg_finished(*config),
            unf == cfg_unfinished(*config),
            find_in_from(input@, secs@, 0, search@, fin, unf) == find_in_from(
                input@,
                secs@,
                i as int,
                search@,
                fin,
                unf,
            ),
        decreases n - i,
    {
        proof {
            assert(sec_wf(secs@[i as int], 0, input@.len() as int));
        }
        let sec = &secs[i];
        let ht = sec.headline_text(config, input);
        let matched = match &ht {
            Some(t) => bytes_eq(t.as_slice(), search),
            None => false,
        };
        if matched {
            proof {
                assert(headline_text_spec(fin, unf, input@, secs@[i as int]) == Some(search@));
            }
            return Some(sec);
        }
        proof {
            assert(headline_text_spec(fin, unf, input@, secs@[i as int]) != Some(search@));
            lemma_children_all_wf(secs@[i as int], 0, input@.len() as int);
        }
        match find_in_secs(&sec.children, config, input, search) {
            Some(found) => {
                proof {
                    assert(find_in_children(input@, secs@[i as int], search@, fin, unf)
                        == Some(*found));
                    assert(find_in_from(input@, secs@, i as int, search@, fin, unf) == Some(
                        *found,
                    ));
                }
                return Some(found);
            },
            None => {},
        }
        proof {
            assert(find_in_children(input@, secs@[i as int], search@, fin, unf) is None);
            assert(find_in_from(input@, secs@, i as int, search@, fin, unf) == find_in_from(
                input@,
                secs@,
                i + 1,
                search@,
                fin,
                unf,
            ));
        }
        i = i + 1;
    }
    None
}

impl OrgFile {
    /// The first section, in document order, whose keyword-stripped
    /// headline text equals `search` exactly; `None` when no section at
    /// any depth matches.
    pub fn find_section(&self, search: &[u8]) -> (r: Option<&Section>)
        requires
            self.wf(),
        ensures
            match find_in_from(
                self.input@,
                self.sections@,
                0,
                search@,
                cfg_finished(self.config),
                cfg_unfinished(self.config),
            ) {
                Some(t) => r matches Some(p) && *p == t,
                None => r is None,
            },
    {
        proof {
            lemma_secs_wf_pointwise(self.sections@, 0, 0, self.input@.len() as int);
        }
        find_in_secs(&self.sections, &self.config, self.input.as_slice(), search)
    }
}

/// The headline items of sections classified unfinished in `secs[i..]`,
/// in depth-first, pre-order document order.
pub open spec fn unfinished_items_from(
    input: Seq<u8>,
    secs: Seq<Section>,
    i: int,
    fin: Seq<Seq<u8>>,
    unf: Seq<Seq<u8>>,
) -> Seq<Seq<u8>>
    decreases secs, secs.len() - i + 1,
{
    if i < 0 || i >= secs.len() {
        Seq::empty()
    } else {
        unfinished_own(input, secs[i], fin, unf) + unfinished_items_children(
            input,
            secs[i],
            fin,
            unf,
        ) + unfinished_items_from(input, secs, i + 1, fin, unf)
    }
}

/// One section's own contribution to the unfinished listing.
pub open spec fn unfinished_own(
    input: Seq<u8>,
    s: Section,
    fin: Seq<Seq<u8>>,
    unf: Seq<Seq<u8>>,
) -> Seq<Seq<u8>> {
    match classify_spec(fin, unf, input, s) {
        Some(p) => if !p.0 {
            seq![item_spec(input, s)]
        } else {
            Seq::empty()
        },
        None => Seq::empty(),
    }
}

/// The contributions of one section's descendants.
pub open spec fn unfinished_items_children(
    input: Seq<u8>,
    s: Section,
    fin: Seq<Seq<u8>>,
    unf: Seq<Seq<u8>>,
) -> Seq<Seq<u8>>
    decreases s, 0int,
{
    unfinished_items_from(input, s.children@, 0, fin, unf)
}

/// Append the unfinished headline items below `secs` to `acc`, in
/// document order.
fn collect_unfinished(secs: &Vec<Section>, config: &Config, input: &[u8], acc: &mut Vec<Vec<u8>>)
    requires
        secs_all_wf(secs@, input@.len() as int),
    ensures
        final(acc).deep_view() == old(acc).deep_view() + unfinished_items_from(
            input@,
            secs@,
            0,
            cfg_finished(*config),
            cfg_unfinished(*config),
        ),
    decreases secs@,
{
    let ghost fin = cfg_finished(*config);
    let ghost unf = cfg_unfinished(*config);
    let ghost acc0 = acc.deep_view();
    let n = secs.len();
    let mut i: usize = 0;
    while i < n
        invariant
            0 <= i <= n,
            n == secs@.len(),
            secs_all_wf(secs@, input@.len() as int),
            fin == cfg_finished(*config),
            unf == cfg_unfinished(*config),
            acc0 == old(acc).deep_view(),
            acc.deep_view() + unfinished_items_from(input@, secs@, i as int, fin, unf) == acc0
                + unfinished_items_from(input@, secs@, 0, fin, unf),
        decreases n - i,
    {
        proof {
            assert(sec_wf(secs@[i as int], 0, input@.len() as int));
        }
        let ghost a1 = acc.deep_view();
        let sec = &secs[i];
        let is_unfinished = match sec.keyword(config, input) {
            Keyword::Unfinished(_) => true,
            _ => false,
        };
        if is_unfinished {
            let item = vstd::slice::slice_subrange(input, sec.item_start, sec.item_end);
            acc.push(vstd::slice::slice_to_vec(item));
            proof {
                assert(acc.deep_view() =~~= a1 + unfinished_own(input@, secs@[i as int], fin, unf));
            }
        } else {
            proof {
                assert(unfinished_own(input@, secs@[i as int], fin, unf) =~= Seq::<Seq<u8>>::empty());
                assert(acc.deep_view() =~~= a1 + unfinished_own(input@, secs@[i as int], fin, unf));
            }
        }
        let ghost a2 = acc.deep_view();
        proof {
            lemma_children_all_wf(secs@[i as int], 0, input@.len() as int);
        }
        collect_unfinished(&sec.children, config, input, acc);
        proof {
            let own = unfinished_own(input@, secs@[i as int], fin, unf);
            let ch = unfinished_items_children(input@, secs@[i as int], fin, unf);
            let rest = unfinished_items_from(input@, secs@, i + 1, fin, unf);
            assert(acc.deep_view() == a2 + ch);
            assert(unfinished_items_from(input@, secs@, i as int, fin, unf) == own + ch + rest);
            assert(a1 + (own + ch + rest) =~~= ((a1 + own) + ch) + rest);
        }
        i = i + 1;
    }
}

impl OrgFile {
    /// The headline items of every section classified unfinished, in
    /// document order.
    pub fn unfinished_headlines(&self) -> (r: Vec<Vec<u8>>)
        requires
            self.wf(),
        ensures
            r.deep_view() == unfinished_items_from(
                self.input@,
                self.sections@,
                0,
                cfg_finished(self.config),
                cfg_unfinished(self.config),
            ),
    {
        proof {
            lemma_secs_wf_pointwise(self.sections@, 0, 0, self.input@.len() as int);
        }
        let mut acc: Vec<Vec<u8>> = Vec::new();
        collect_unfinished(&self.sections, &self.config, self.input.as_slice(), &mut acc);
        proof {
            assert(acc.deep_view() =~~= unfinished_items_from(
                self.input@,
                self.sections@,
                0,
                cfg_finished(self.config),
                cfg_unfinished(self.config),
            ));
        }
        acc
    }
}

/// List the unfinished headline items of a raw text, in document order.
/// The parser decides only whether the text tokenizes; for every
/// document it accepts, the listing is exactly the unfinished items of
/// the well-formed section tree built from it.
pub fn list_headlines(config: &Config, input: &[u8]) -> (r: Result<Vec<Vec<u8>>, OrgError>)
    ensures
        r matches Err(e) ==> e == OrgError::ParseFailure,
        r matches Ok(items) ==> exists|secs: Seq<Section>|
            secs_wf_from(secs, 0, 0, input@.len() as int) && items.deep_view()
                == unfinished_items_from(
                input@,
                secs,
                0,
                cfg_finished(*config),
                cfg_unfinished(*config),
            ),
{
    let org = Org::from_config(copy_config(config));
    match org.load(input) {
        Err(e) => Err(e),
        Ok(f) => {
            let items = f.unfinished_headlines();
            proof {
                let secs = f.sections@;
                assert(secs_wf_from(secs, 0, 0, input@.len() as int) && items.deep_view()
                    == unfinished_items_from(
                    input@,
                    secs,
                    0,
                    cfg_finished(*config),
                    cfg_unfinished(*config),
                ));
            }
            Ok(items)
        },
    }
}

} // verus!
