//! The splicing output builder: accumulates an output buffer by copying
//! verbatim byte ranges of the original text and interleaving synthesized
//! text, with a cursor that only moves forward.

use vstd::prelude::*;

use crate::config::{cfg_finished, cfg_unfinished, copy_config, Config};
use crate::utils::{bytes_eq, push_range, upper_bytes, upper_spec};

verus! {

/// `n` star markers.
pub open spec fn stars_spec(n: nat) -> Seq<u8> {
    Seq::new(n, |i: int| 42u8)
}

/// The property drawer carrying the creation timestamp:
/// `:PROPERTIES:`, `:CREATED: [created]`, `:END:`, one per line.
pub open spec fn props_spec(created: Seq<u8>) -> Seq<u8> {
    seq![58u8, 80u8, 82u8, 79u8, 80u8, 69u8, 82u8, 84u8, 73u8, 69u8, 83u8, 58u8, 10u8]
        + seq![58u8, 67u8, 82u8, 69u8, 65u8, 84u8, 69u8, 68u8, 58u8, 32u8, 91u8] + created + seq![
        93u8,
        10u8,
    ] + seq![58u8, 69u8, 78u8, 68u8, 58u8, 10u8]
}

/// The exact text of a rendered section: the star markers, a space,
/// optionally the keyword and a space, the headline, a newline, the
/// property drawer, then the body verbatim.
pub open spec fn render_spec(
    stars: nat,
    keyword: Option<Seq<u8>>,
    headline: Seq<u8>,
    body: Option<Seq<u8>>,
    created: Seq<u8>,
) -> Seq<u8> {
    stars_spec(stars) + (match keyword {
        Some(k) => seq![32u8] + k,
        None => Seq::<u8>::empty(),
    }) + seq![32u8] + headline + seq![10u8] + props_spec(created) + (match body {
        Some(b) => b,
        None => Seq::<u8>::empty(),
    })
}

/// View of an optional byte vector.
pub open spec fn opt_bytes_view(o: Option<Vec<u8>>) -> Option<Seq<u8>> {
    match o {
        Some(v) => Some(v@),
        None => None,
    }
}

/// `w` occurs in the keyword list `kws`.
pub open spec fn kw_in(kws: Seq<Seq<u8>>, w: Seq<u8>) -> bool {
    exists|i: int| 0 <= i < kws.len() && kws[i] == w
}

/// Whether `w` occurs in the keyword list.
fn contains_kw(kws: &Vec<Vec<u8>>, w: &[u8]) -> (r: bool)
    ensures
        r <==> kw_in(kws.deep_view(), w@),
{
    let n = kws.len();
    let mut i: usize = 0;
    while i < n
        invariant
            0 <= i <= n,
            n == kws@.len(),
            forall|k: int| 0 <= k < i ==> kws.deep_view()[k] != w@,
        decreases n - i,
    {
        proof {
            assert(kws.deep_view()[i as int] =~= kws@[i as int]@);
        }
        if bytes_eq(kws[i].as_slice(), w) {
            assert(kws.deep_view()[i as int] == w@);
            return true;
        }
        i = i + 1;
    }
    false
}

/// A cursor over the original text plus the output accumulated so far.
pub struct OutputBuilder {
    /// The keyword configuration, shared with rendered sections.
    pub config: Config,
    /// The original text.
    pub input: Vec<u8>,
    /// The output accumulated so far.
    pub output: Vec<u8>,
    /// Exclusive end of the last committed or skipped range.
    pub start_byte: usize,
}

impl OutputBuilder {
    /// The cursor never passes the end of the input.
    pub open spec fn wf(&self) -> bool {
        self.start_byte <= self.input@.len()
    }

    /// A fresh builder at cursor zero with empty output.
    pub fn new(config: &Config, input: &[u8]) -> (r: OutputBuilder)
        ensures
            r.wf(),
            r.input@ == input@,
            r.output@ == Seq::<u8>::empty(),
            r.start_byte == 0,
            cfg_finished(r.config) == cfg_finished(*config),
            cfg_unfinished(r.config) == cfg_unfinished(*config),
    {
        OutputBuilder {
            config: copy_config(config),
            input: vstd::slice::slice_to_vec(input),
            output: Vec::new(),
            start_byte: 0,
        }
    }

    /// Append the input from the cursor up to `end_byte`, then move the
    /// cursor there.
    pub fn append_to(&mut self, end_byte: usize)
        requires
            old(self).wf(),
            old(self).start_byte <= end_byte <= old(self).input@.len(),
        ensures
            final(self).wf(),
            final(self).config == old(self).config,
            final(self).input == old(self).input,
            final(self).start_byte == end_byte,
            final(self).output@ == old(self).output@ + old(self).input@.subrange(
                old(self).start_byte as int,
                end_byte as int,
            ),
    {
        let input = vstd::slice::slice_to_vec(self.input.as_slice());
        push_range(&mut self.output, input.as_slice(), self.start_byte, end_byte);
        self.start_byte = end_byte;
    }

    /// Move the cursor forward to `byte` without appending, dropping the
    /// skipped range from the output.
    pub fn skip_to(&mut self, byte: usize)
        requires
            old(self).wf(),
            old(self).start_byte <= byte <= old(self).input@.len(),
        ensures
            final(self).wf(),
            final(self).config == old(self).config,
            final(self).input == old(self).input,
            final(self).output == old(self).output,
            final(self).start_byte == byte,
    {
        self.start_byte = byte;
    }

    /// Append synthesized text without touching the cursor.
    pub fn insert_text(&mut self, text: &[u8])
        ensures
            final(self).config == old(self).config,
            final(self).input == old(self).input,
            final(self).start_byte == old(self).start_byte,
            final(self).output@ == old(self).output@ + text@,
            old(self).wf() ==> final(self).wf(),
    {
        push_range(&mut self.output, text, 0, text.len());
        proof {
            assert(text@.subrange(0, text@.len() as int) =~= text@);
        }
    }

    /// Append the input from the cursor up to the start of `section`.
    pub fn append_up_to_section(&mut self, section: &crate::org::Section)
        requires
            old(self).wf(),
            old(self).start_byte <= section.start,
            section.start <= old(self).input@.len(),
        ensures
            final(self).wf(),
            final(self).config == old(self).config,
            final(self).input == old(self).input,
            final(self).start_byte == section.start,
            final(self).output@ == old(self).output@ + old(self).input@.subrange(
                old(self).start_byte as int,
                section.start as int,
            ),
    {
        self.append_to(section.start_byte());
    }

    /// Append the input from the cursor up to the end of `section`.
    pub fn append_to_end_of_section(&mut self, section: &crate::org::Section)
        requires
            old(self).wf(),
            old(self).start_byte <= section.end,
            section.end <= old(self).input@.len(),
        ensures
            final(self).wf(),
            final(self).config == old(self).config,
            final(self).input == old(self).input,
            final(self).start_byte == section.end,
            final(self).output@ == old(self).output@ + old(self).input@.subrange(
                old(self).start_byte as int,
                section.end as int,
            ),
    {
        self.append_to(section.end_byte());
    }

    /// A fresh section builder sharing this builder's configuration.
    pub fn new_section(&self) -> (r: SectionBuilder)
        ensures
            r.stars == 1,
            r.headline@ == Seq::<u8>::empty(),
            r.keyword is None,
            r.body is None,
            r.created@ == Seq::<u8>::empty(),
            cfg_finished(r.config) == cfg_finished(self.config),
            cfg_unfinished(r.config) == cfg_unfinished(self.config),
    {
        SectionBuilder::new(&self.config)
    }

    /// Render `section` and append it to the output as synthesized text.
    pub fn insert_section(&mut self, section: SectionBuilder)
        ensures
            final(self).config == old(self).config,
            final(self).input == old(self).input,
            final(self).start_byte == old(self).start_byte,
            final(self).output@ == old(self).output@ + render_spec(
                section.stars as nat,
                opt_bytes_view(section.keyword),
                section.headline@,
                opt_bytes_view(section.body),
                section.created@,
            ),
            old(self).wf() ==> final(self).wf(),
    {
        let text = section.render();
        self.insert_text(text.as_slice());
    }

    /// Append the rest of the input and return the finished output.
    /// Consumes the builder; it must be the last operation performed.
    pub fn append_to_end_of_input(self) -> (r: Vec<u8>)
        requires
            self.wf(),
        ensures
            r@ == self.output@ + self.input@.subrange(
                self.start_byte as int,
                self.input@.len() as int,
            ),
    {
        let mut me = self;
        let len = me.input.len();
        me.append_to(len);
        me.output
    }

    /// Append the rest of the input and return the finished output;
    /// alternate name of [`OutputBuilder::append_to_end_of_input`] kept
    /// for callers.
    pub fn append_to_end(self) -> (r: Vec<u8>)
        requires
            self.wf(),
        ensures
            r@ == self.output@ + self.input@.subrange(
                self.start_byte as int,
                self.input@.len() as int,
            ),
    {
        self.append_to_end_of_input()
    }
}

/// Append the property drawer for `created` to `out`.
fn push_props(out: &mut Vec<u8>, created: &[u8])
    ensures
        final(out)@ == old(out)@ + props_spec(created@),
{
    // :PROPERTIES:
    out.push(58);
    out.push(80);
    out.push(82);
    out.push(79);
    out.push(80);
    out.push(69);
    out.push(82);
    out.push(84);
    out.push(73);
    out.push(69);
    out.push(83);
    out.push(58);
    out.push(10);
    // :CREATED: [
    out.push(58);
    out.push(67);
    out.push(82);
    out.push(69);
    out.push(65);
    out.push(84);
    out.push(69);
    out.push(68);
    out.push(58);
    out.push(32);
    out.push(91);
    push_range(out, created, 0, created.len());
    // ]
    out.push(93);
    out.push(10);
    // :END:
    out.push(58);
    out.push(69);
    out.push(78);
    out.push(68);
    out.push(58);
    out.push(10);
    proof {
        assert(created@.subrange(0, created@.len() as int) =~= created@);
        assert(out@ =~= old(out)@ + props_spec(created@));
    }
}

/// Builds the exact text of one new section: depth, optional workflow
/// keyword, headline, optional body, and a creation timestamp for the
/// property drawer.
pub struct SectionBuilder {
    pub config: Config,
    pub stars: usize,
    pub headline: Vec<u8>,
    pub keyword: Option<Vec<u8>>,
    pub body: Option<Vec<u8>>,
    pub created: Vec<u8>,
}

impl SectionBuilder {
    /// A builder for a depth-1 section with empty headline, no keyword,
    /// no body and an empty timestamp.
    pub fn new(config: &Config) -> (r: SectionBuilder)
        ensures
            r.stars == 1,
            r.headline@ == Seq::<u8>::empty(),
            r.keyword is None,
            r.body is None,
            r.created@ == Seq::<u8>::empty(),
            cfg_finished(r.config) == cfg_finished(*config),
            cfg_unfinished(r.config) == cfg_unfinished(*config),
    {
        SectionBuilder {
            config: copy_config(config),
            stars: 1,
            headline: Vec::new(),
            keyword: None,
            body: None,
            created: Vec::new(),
        }
    }

    /// The rendered text of this builder's section.
    pub fn render(&self) -> (r: Vec<u8>)
        ensures
            r@ == render_spec(
                self.stars as nat,
                opt_bytes_view(self.keyword),
                self.headline@,
                opt_bytes_view(self.body),
                self.created@,
            ),
    {
        let mut out: Vec<u8> = Vec::new();
        let n = self.stars;
        let mut i: usize = 0;
        while i < n
            invariant
                0 <= i <= n,
                out@ =~= stars_spec(i as nat),
            decreases n - i,
        {
            out.push(42);
            proof {
                assert(out@ =~= stars_spec((i + 1) as nat));
            }
            i = i + 1;
        }
        if let Some(k) = &self.keyword {
            out.push(32);
            push_range(&mut out, k.as_slice(), 0, k.len());
        }
        out.push(32);
        push_range(&mut out, self.headline.as_slice(), 0, self.headline.len());
        out.push(10);
        push_props(&mut out, self.created.as_slice());
        if let Some(b) = &self.body {
            push_range(&mut out, b.as_slice(), 0, b.len());
        }
        proof {
            assert(self.keyword matches Some(k) ==> k@.subrange(0, k@.len() as int) =~= k@);
            assert(self.headline@.subrange(0, self.headline@.len() as int) =~= self.headline@);
            assert(self.body matches Some(b) ==> b@.subrange(0, b@.len() as int) =~= b@);
            assert(out@ =~= render_spec(
                self.stars as nat,
                opt_bytes_view(self.keyword),
                self.headline@,
                opt_bytes_view(self.body),
                self.created@,
            ));
        }
        out
    }

    /// Set the section's depth.
    pub fn stars(self, stars: usize) -> (r: SectionBuilder)
        ensures
            r.stars == stars,
            r.headline == self.headline,
            r.keyword == self.keyword,
            r.body == self.body,
            r.created == self.created,
            r.config == self.config,
    {
        SectionBuilder { stars, ..self }
    }

    /// Set the workflow keyword, upper-cased (ASCII case folding); a
    /// keyword that the configuration does not know is silently
    /// dropped.
    pub fn keyword(self, keyword: &[u8]) -> (r: SectionBuilder)
        ensures
            r.stars == self.stars,
            r.headline == self.headline,
            r.body == self.body,
            r.created == self.created,
            r.config == self.config,
            ({
                let up = upper_spec(keyword@);
                if kw_in(cfg_finished(self.config), up) || kw_in(cfg_unfinished(self.config), up) {
                    r.keyword matches Some(v) && v@ == up
                } else {
                    r.keyword == self.keyword
                }
            }),
    {
        let up = upper_bytes(keyword);
        if contains_kw(&self.config.keywords_finished, up.as_slice()) || contains_kw(
            &self.config.keywords_unfinished,
            up.as_slice(),
        ) {
            SectionBuilder { keyword: Some(up), ..self }
        } else {
            self
        }
    }

    /// Set the headline text.
    pub fn headline(self, headline: &[u8]) -> (r: SectionBuilder)
        ensures
            r.stars == self.stars,
            r.headline@ == headline@,
            r.keyword == self.keyword,
            r.body == self.body,
            r.created == self.created,
            r.config == self.config,
    {
        SectionBuilder { headline: vstd::slice::slice_to_vec(headline), ..self }
    }

    /// Set the body text, appended verbatim after the property drawer.
    pub fn body(self, body: &[u8]) -> (r: SectionBuilder)
        ensures
            r.stars == self.stars,
            r.headline == self.headline,
            r.keyword == self.keyword,
            (r.body matches Some(v) && v@ == body@),
            r.created == self.created,
            r.config == self.config,
    {
        SectionBuilder { body: Some(vstd::slice::slice_to_vec(body)), ..self }
    }

    /// Set the creation timestamp recorded in the property drawer.
    pub fn created(self, created: &[u8]) -> (r: SectionBuilder)
        ensures
            r.stars == self.stars,
            r.headline == self.headline,
            r.keyword == self.keyword,
            r.body == self.body,
            r.created@ == created@,
            r.config == self.config,
    {
        SectionBuilder { created: vstd::slice::slice_to_vec(created), ..self }
    }
}

} // verus!
