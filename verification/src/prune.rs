//! Pruning: remove every maximal subtree rooted at a finished headline,
//! preserving every other byte of the document.

use vstd::prelude::*;

use crate::builder::OutputBuilder;
use crate::config::{cfg_finished, Config};
use crate::org::{
    lemma_sec_wf_linked, lemma_sec_wf_widen, lemma_secs_wf_pointwise, lemma_secs_wf_weaken_lo,
    sec_finished, sec_wf, secs_wf_from, Keyword, Org, OrgError, OrgFile, Section,
};

verus! {

/// The pruned text of one section: nothing when the section's own
/// keyword is finished, otherwise its own text with every child pruned
/// in place.
pub open spec fn prune_sec(input: Seq<u8>, s: Section, fin: Seq<Seq<u8>>) -> Seq<u8>
    decreases s, 0int,
{
    if sec_finished(fin, input, s) {
        Seq::empty()
    } else {
        prune_secs_from(input, s.children@, 0, s.start as int, s.end as int, fin)
    }
}

/// The pruned text of the siblings `secs[i..]`: the verbatim gap from
/// `from` to each section's start, its pruned text, and finally the
/// verbatim tail up to `upto`.
pub open spec fn prune_secs_from(
    input: Seq<u8>,
    secs: Seq<Section>,
    i: int,
    from: int,
    upto: int,
    fin: Seq<Seq<u8>>,
) -> Seq<u8>
    decreases secs, secs.len() - i + 1,
{
    if i < 0 || i >= secs.len() {
        input.subrange(from, upto)
    } else {
        input.subrange(from, secs[i].start as int) + prune_sec(input, secs[i], fin)
            + prune_secs_from(input, secs, i + 1, secs[i].end as int, upto, fin)
    }
}

/// The pruned text of a whole document.
pub open spec fn prune_doc(input: Seq<u8>, secs: Seq<Section>, fin: Seq<Seq<u8>>) -> Seq<u8> {
    prune_secs_from(input, secs, 0, 0, input.len() as int, fin)
}

/// Extending the leading verbatim gap of a pruned sibling list to an
/// earlier start is the same as prepending that gap.
pub proof fn lemma_prune_gap(
    input: Seq<u8>,
    secs: Seq<Section>,
    i: int,
    from1: int,
    from2: int,
    upto: int,
    fin: Seq<Seq<u8>>,
)
    requires
        0 <= from1 <= from2,
        0 <= i < secs.len() ==> from2 <= secs[i].start && secs[i].start <= input.len(),
        !(0 <= i < secs.len()) ==> from2 <= upto <= input.len(),
    ensures
        input.subrange(from1, from2) + prune_secs_from(input, secs, i, from2, upto, fin)
            == prune_secs_from(input, secs, i, from1, upto, fin),
{
    if 0 <= i < secs.len() {
        let a = input.subrange(from1, from2);
        let b = input.subrange(from2, secs[i].start as int);
        let ab = input.subrange(from1, secs[i].start as int);
        let p = prune_sec(input, secs[i], fin);
        let r = prune_secs_from(input, secs, i + 1, secs[i].end as int, upto, fin);
        assert(a + b =~= ab);
        assert(a + (b + p + r) =~= (a + b) + p + r);
    } else {
        assert(input.subrange(from1, from2) + input.subrange(from2, upto) =~= input.subrange(
            from1,
            upto,
        ));
    }
}

/// Walk one section: a finished section's span is dropped whole, any
/// other section's children are visited in order. On return the output
/// plus the pending range up to the section's end equals everything
/// committed before the call plus the section's pruned text.
pub fn prune_done_from_section(section: &Section, output: &mut OutputBuilder)
    requires
        old(output).wf(),
        sec_wf(*section, old(output).start_byte as int, old(output).input@.len() as int),
    ensures
        final(output).wf(),
        final(output).config == old(output).config,
        final(output).input == old(output).input,
        old(output).start_byte <= final(output).start_byte <= section.end,
        final(output).output@ + old(output).input@.subrange(
            final(output).start_byte as int,
            section.end as int,
        ) == old(output).output@ + old(output).input@.subrange(
            old(output).start_byte as int,
            section.start as int,
        ) + prune_sec(old(output).input@, *section, cfg_finished(old(output).config)),
    decreases *section,
{
    let ghost out0 = *output;
    let ghost input = out0.input@;
    let ghost fin = cfg_finished(out0.config);
    let is_finished = match section.keyword(&output.config, output.input.as_slice()) {
        Keyword::Finished(_) => true,
        _ => false,
    };
    proof {
        assert(is_finished == sec_finished(fin, input, *section));
    }
    if is_finished {
        output.append_to(section.start_byte());
        output.skip_to(section.end_byte());
        proof {
            assert(input.subrange(section.end as int, section.end as int) =~= Seq::<u8>::empty());
            assert(output.output@ + input.subrange(section.end as int, section.end as int)
                =~= output.output@);
        }
    } else {
        let n = section.children.len();
        let mut i: usize = 0;
        proof {
            lemma_secs_wf_weaken_lo(
                section.children@,
                0,
                section.hl_end as int,
                out0.start_byte as int,
                section.end as int,
            );
            if section.children@.len() > 0 {
                assert(sec_wf(
                    section.children@[0],
                    section.hl_end as int,
                    section.end as int,
                ));
            }
            lemma_prune_gap(
                input,
                section.children@,
                0,
                out0.start_byte as int,
                section.start as int,
                section.end as int,
                fin,
            );
            let gap = input.subrange(out0.start_byte as int, section.start as int);
            let pf = prune_secs_from(
                input,
                section.children@,
                0,
                section.start as int,
                section.end as int,
                fin,
            );
            assert(out0.output@ + (gap + pf) =~= (out0.output@ + gap) + pf);
        }
        while i < n
            invariant
                0 <= i <= n,
                n == section.children@.len(),
                output.wf(),
                output.config == out0.config,
                output.input == out0.input,
                input == out0.input@,
                fin == cfg_finished(out0.config),
                sec_wf(*section, out0.start_byte as int, input.len() as int),
                out0.wf(),
                out0.start_byte <= output.start_byte <= section.end,
                secs_wf_from(section.children@, i as int, output.start_byte as int, section.end as int),
                out0.output@ + input.subrange(out0.start_byte as int, section.start as int)
                    + prune_sec(input, *section, fin) == output.output@ + prune_secs_from(
                    input,
                    section.children@,
                    i as int,
                    output.start_byte as int,
                    section.end as int,
                    fin,
                ),
            decreases n - i,
        {
            let ghost before = *output;
            let child = &section.children[i];
            proof {
                lemma_sec_wf_widen(
                    section.children@[i as int],
                    before.start_byte as int,
                    section.end as int,
                    before.start_byte as int,
                    input.len() as int,
                );
            }
            prune_done_from_section(child, output);
            proof {
                let ci = section.children@[i as int];
                // the remaining siblings are well formed from the new cursor
                lemma_secs_wf_weaken_lo(
                    section.children@,
                    i + 1,
                    ci.end as int,
                    output.start_byte as int,
                    section.end as int,
                );
                // re-associate the accumulated output equation
                let a = before.output@;
                let g = input.subrange(before.start_byte as int, ci.start as int);
                let p = prune_sec(input, ci, fin);
                let r = prune_secs_from(
                    input,
                    section.children@,
                    i + 1,
                    ci.end as int,
                    section.end as int,
                    fin,
                );
                let pend = input.subrange(output.start_byte as int, ci.end as int);
                assert(output.output@ + pend == a + g + p);
                assert(secs_wf_from(
                    section.children@,
                    i + 1,
                    ci.end as int,
                    section.end as int,
                ));
                if i + 1 < n {
                    assert(sec_wf(section.children@[i + 1], ci.end as int, section.end as int));
                    assert(ci.end <= section.children@[i + 1].start);
                    assert(section.children@[i + 1].start <= input.len());
                } else {
                    assert(secs_wf_from(
                        section.children@,
                        i as int,
                        before.start_byte as int,
                        section.end as int,
                    ));
                    assert(sec_wf(ci, before.start_byte as int, section.end as int));
                    assert(ci.end <= section.end <= input.len());
                }

                lemma_prune_gap(
                    input,
                    section.children@,
                    i + 1,
                    output.start_byte as int,
                    ci.end as int,
                    section.end as int,
                    fin,
                );
                assert(output.output@ + prune_secs_from(
                    input,
                    section.children@,
                    i + 1,
                    output.start_byte as int,
                    section.end as int,
                    fin,
                ) =~= (output.output@ + pend) + r);
                assert(a + g + p + r =~= (a + g + p) + r);
                assert(before.output@ + prune_secs_from(
                    input,
                    section.children@,
                    i as int,
                    before.start_byte as int,
                    section.end as int,
                    fin,
                ) =~= (a + g + p) + r);
            }
            i = i + 1;
        }
    }
}

impl OrgFile {
    /// The whole document pruned: every maximal subtree rooted at a
    /// finished headline removed, every other byte kept verbatim.
    pub fn prune_done(&self) -> (r: Vec<u8>)
        requires
            self.wf(),
        ensures
            r@ == prune_doc(self.input@, self.sections@, cfg_finished(self.config)),
    {
        let ghost input = self.input@;
        let ghost fin = cfg_finished(self.config);
        let mut output = self.output_builder();
        let n = self.sections.len();
        let mut i: usize = 0;
        proof {
            assert(Seq::<u8>::empty() + prune_secs_from(
                input,
                self.sections@,
                0,
                0,
                input.len() as int,
                fin,
            ) =~= prune_secs_from(input, self.sections@, 0, 0, input.len() as int, fin));
        }
        while i < n
            invariant
                0 <= i <= n,
                n == self.sections@.len(),
                output.wf(),
                output.input@ == input,
                cfg_finished(output.config) == fin,
                input == self.input@,
                fin == cfg_finished(self.config),
                self.wf(),
                output.start_byte <= input.len(),
                secs_wf_from(self.sections@, i as int, output.start_byte as int, input.len() as int),
                prune_doc(input, self.sections@, fin) == output.output@ + prune_secs_from(
                    input,
                    self.sections@,
                    i as int,
                    output.start_byte as int,
                    input.len() as int,
                    fin,
                ),
            decreases n - i,
        {
            let ghost before = output;
            proof {
                assert(sec_wf(
                    self.sections@[i as int],
                    before.start_byte as int,
                    input.len() as int,
                ));
            }
            prune_done_from_section(&self.sections[i], &mut output);
            proof {
                let ci = self.sections@[i as int];
                assert(secs_wf_from(
                    self.sections@,
                    i + 1,
                    ci.end as int,
                    input.len() as int,
                ));
                lemma_secs_wf_weaken_lo(
                    self.sections@,
                    i + 1,
                    ci.end as int,
                    output.start_byte as int,
                    input.len() as int,
                );
                let a = before.output@;
                let g = input.subrange(before.start_byte as int, ci.start as int);
                let p = prune_sec(input, ci, fin);
                let r = prune_secs_from(
                    input,
                    self.sections@,
                    i + 1,
                    ci.end as int,
                    input.len() as int,
                    fin,
                );
                let pend = input.subrange(output.start_byte as int, ci.end as int);
                assert(output.output@ + pend == a + g + p);
                if i + 1 < n {
                    assert(sec_wf(self.sections@[i + 1], ci.end as int, input.len() as int));
                    assert(ci.end <= self.sections@[i + 1].start);
                    assert(self.sections@[i + 1].start <= input.len());
                }
                lemma_prune_gap(
                    input,
                    self.sections@,
                    i + 1,
                    output.start_byte as int,
                    ci.end as int,
                    input.len() as int,
                    fin,
                );
                assert(output.output@ + prune_secs_from(
                    input,
                    self.sections@,
                    i + 1,
                    output.start_byte as int,
                    input.len() as int,
                    fin,
                ) =~= (output.output@ + pend) + r);
                assert(a + g + p + r =~= (a + g + p) + r);
                assert(before.output@ + prune_secs_from(
                    input,
                    self.sections@,
                    i as int,
                    before.start_byte as int,
                    input.len() as int,
                    fin,
                ) =~= (a + g + p) + r);
            }
            i = i + 1;
        }
        output.append_to_end_of_input()
    }
}

/// Prune a raw text: parse it and drop every finished subtree. The
/// parser decides only whether the text tokenizes; for every document it
/// accepts, the result is exactly the pruned text of the well-formed
/// section tree that was built from it.
pub fn prune_done_from_input(config: &Config, input: &[u8]) -> (r: Result<Vec<u8>, OrgError>)
    ensures
        r matches Err(e) ==> e == OrgError::ParseFailure,
        r matches Ok(out) ==> exists|secs: Seq<Section>|
            secs_wf_from(secs, 0, 0, input@.len() as int) && out@ == prune_doc(
                input@,
                secs,
                cfg_finished(*config),
            ),
{
    let org = Org::from_config(crate::config::copy_config(config));
    match org.load(input) {
        Err(e) => Err(e),
        Ok(f) => {
            let out = f.prune_done();
            proof {
                let secs = f.sections@;
                assert(secs_wf_from(secs, 0, 0, input@.len() as int) && out@ == prune_doc(
                    input@,
                    secs,
                    cfg_finished(*config),
                ));
            }
            Ok(out)
        },
    }
}

/// Alternate entry point for pruning kept for callers that walk the
/// whole tree; identical to [`prune_done_from_input`].
pub fn walk_tree(config: &Config, input: &[u8]) -> (r: Result<Vec<u8>, OrgError>)
    ensures
        r matches Err(e) ==> e == OrgError::ParseFailure,
        r matches Ok(out) ==> exists|secs: Seq<Section>|
            secs_wf_from(secs, 0, 0, input@.len() as int) && out@ == prune_doc(
                input@,
                secs,
                cfg_finished(*config),
            ),
{
    prune_done_from_input(config, input)
}

/// Alternate entry point for pruning kept for callers that modify a
/// content string; identical to [`prune_done_from_input`].
pub fn modify_content(config: &Config, content: &[u8]) -> (r: Result<Vec<u8>, OrgError>)
    ensures
        r matches Err(e) ==> e == OrgError::ParseFailure,
        r matches Ok(out) ==> exists|secs: Seq<Section>|
            secs_wf_from(secs, 0, 0, content@.len() as int) && out@ == prune_doc(
                content@,
                secs,
                cfg_finished(*config),
            ),
{
    prune_done_from_input(config, content)
}

/// No section in `secs[i..]`, at any depth, is classified finished.
pub open spec fn none_finished_from(
    input: Seq<u8>,
    secs: Seq<Section>,
    i: int,
    fin: Seq<Seq<u8>>,
) -> bool
    decreases secs, secs.len() - i + 1,
{
    if i < 0 || i >= secs.len() {
        true
    } else {
        &&& none_finished_sec(input, secs[i], fin)
        &&& none_finished_from(input, secs, i + 1, fin)
    }
}

/// Neither the section itself nor any descendant is classified finished.
pub open spec fn none_finished_sec(input: Seq<u8>, s: Section, fin: Seq<Seq<u8>>) -> bool
    decreases s, 0int,
{
    &&& !sec_finished(fin, input, s)
    &&& none_finished_from(input, s.children@, 0, fin)
}

/// Pruning is the identity on a sibling list without finished sections:
/// the pruned text of `secs[i..]` over `[from, upto]` is exactly the
/// verbatim range.
pub proof fn lemma_prune_id_from(
    input: Seq<u8>,
    secs: Seq<Section>,
    i: int,
    from: int,
    upto: int,
    fin: Seq<Seq<u8>>,
)
    requires
        secs_wf_from(secs, i, from, upto),
        none_finished_from(input, secs, i, fin),
        0 <= from,
        upto <= input.len(),
        from <= upto,
    ensures
        prune_secs_from(input, secs, i, from, upto, fin) == input.subrange(from, upto),
    decreases secs, secs.len() - i + 1,
{
    if 0 <= i < secs.len() {
        let s = secs[i];
        assert(sec_wf(s, from, upto));
        lemma_prune_id_sec(input, s, from, upto, fin);
        lemma_prune_id_from(input, secs, i + 1, s.end as int, upto, fin);
        assert(input.subrange(from, s.start as int) + input.subrange(s.start as int, s.end as int)
            + input.subrange(s.end as int, upto) =~= input.subrange(from, upto));
    }
}

/// Pruning is the identity on one section without finished descendants:
/// its pruned text is its own span verbatim.
pub proof fn lemma_prune_id_sec(input: Seq<u8>, s: Section, lo: int, hi: int, fin: Seq<Seq<u8>>)
    requires
        sec_wf(s, lo, hi),
        hi <= input.len(),
        none_finished_sec(input, s, fin),
    ensures
        prune_sec(input, s, fin) == input.subrange(s.start as int, s.end as int),
    decreases s, 0int,
{
    lemma_secs_wf_weaken_lo(s.children@, 0, s.hl_end as int, s.start as int, s.end as int);
    lemma_prune_id_from(input, s.children@, 0, s.start as int, s.end as int, fin);
}

/// Idempotence of pruning: a document without finished sections prunes
/// to itself, byte for byte.
pub proof fn lemma_prune_without_finished_is_identity(
    input: Seq<u8>,
    secs: Seq<Section>,
    fin: Seq<Seq<u8>>,
)
    requires
        secs_wf_from(secs, 0, 0, input.len() as int),
        none_finished_from(input, secs, 0, fin),
    ensures
        prune_doc(input, secs, fin) == input,
{
    lemma_prune_id_from(input, secs, 0, 0, input.len() as int, fin);
    assert(input.subrange(0, input.len() as int) =~= input);
}

/// Completeness of pruning, dropped half: a section classified finished
/// contributes nothing to the output, its descendants included.
pub proof fn lemma_finished_section_dropped(input: Seq<u8>, s: Section, fin: Seq<Seq<u8>>)
    requires
        sec_finished(fin, input, s),
    ensures
        prune_sec(input, s, fin) == Seq::<u8>::empty(),
{
}

/// Completeness of pruning, retained half: a retained section's own
/// text before its first child -- headline line, drawers and body -- is
/// preserved verbatim at the front of its pruned text.
pub proof fn lemma_retained_section_prefix(
    input: Seq<u8>,
    s: Section,
    lo: int,
    hi: int,
    fin: Seq<Seq<u8>>,
)
    requires
        sec_wf(s, lo, hi),
        hi <= input.len(),
        !sec_finished(fin, input, s),
    ensures
        ({
            let first = if s.children@.len() > 0 {
                s.children@[0].start as int
            } else {
                s.end as int
            };
            &&& prune_sec(input, s, fin).take(first - s.start) == input.subrange(
                s.start as int,
                first,
            )
            &&& prune_sec(input, s, fin).len() >= first - s.start
        }),
{
    lemma_secs_wf_weaken_lo(s.children@, 0, s.hl_end as int, s.start as int, s.end as int);
    if s.children@.len() > 0 {
        let c0 = s.children@[0];
        assert(sec_wf(c0, s.start as int, s.end as int));
        let a = input.subrange(s.start as int, c0.start as int);
        let p = prune_sec(input, c0, fin);
        let r = prune_secs_from(input, s.children@, 1, c0.end as int, s.end as int, fin);
        assert(prune_sec(input, s, fin) == a + p + r);
        assert((a + p + r).take(a.len() as int) =~= a);
    } else {
        assert(prune_sec(input, s, fin) == input.subrange(s.start as int, s.end as int));
        assert(input.subrange(s.start as int, s.end as int).take(s.end - s.start) =~= input.subrange(
            s.start as int,
            s.end as int,
        ));
    }
}

/// Non-interference: the preamble before the first section is preserved
/// verbatim at the front of the pruned document, and a document with no
/// sections prunes to itself.
pub proof fn lemma_preamble_preserved(input: Seq<u8>, secs: Seq<Section>, fin: Seq<Seq<u8>>)
    requires
        secs_wf_from(secs, 0, 0, input.len() as int),
    ensures
        secs.len() > 0 ==> prune_doc(input, secs, fin).take(secs[0].start as int)
            == input.take(secs[0].start as int),
        secs.len() == 0 ==> prune_doc(input, secs, fin) == input,
{
    if secs.len() > 0 {
        let s0 = secs[0];
        assert(sec_wf(s0, 0, input.len() as int));
        let a = input.subrange(0, s0.start as int);
        let p = prune_sec(input, s0, fin);
        let r = prune_secs_from(input, secs, 1, s0.end as int, input.len() as int, fin);
        assert(prune_doc(input, secs, fin) == a + p + r);
        assert((a + p + r).take(a.len() as int) =~= a);
        assert(input.take(s0.start as int) =~= a);
    } else {
        assert(input.subrange(0, input.len() as int) =~= input);
    }
}

/// The end of the section before `secs[i]`, or the document's start.
pub open spec fn prev_end(secs: Seq<Section>, i: int) -> int {
    if i <= 0 {
        0
    } else {
        secs[i - 1].end as int
    }
}

/// The pruned output contributed by the top-level sections before
/// `secs[i]`: for each, the verbatim gap leading to it and its pruned
/// text. It ends exactly at `prev_end(secs, i)`.
pub open spec fn prune_prefix(input: Seq<u8>, secs: Seq<Section>, i: int, fin: Seq<Seq<u8>>) -> Seq<
    u8,
>
    decreases i,
{
    if i <= 0 || i > secs.len() {
        Seq::empty()
    } else {
        prune_prefix(input, secs, i - 1, fin) + input.subrange(
            prev_end(secs, i - 1),
            secs[i - 1].start as int,
        ) + prune_sec(input, secs[i - 1], fin)
    }
}

/// The pruned document splits at any top-level section: what the
/// sections before it contribute, then the rest from the preceding end.
pub proof fn lemma_prune_doc_split(input: Seq<u8>, secs: Seq<Section>, i: int, fin: Seq<Seq<u8>>)
    requires
        secs_wf_from(secs, 0, 0, input.len() as int),
        0 <= i <= secs.len(),
    ensures
        prune_doc(input, secs, fin) == prune_prefix(input, secs, i, fin) + prune_secs_from(
            input,
            secs,
            i,
            prev_end(secs, i),
            input.len() as int,
            fin,
        ),
    decreases i,
{
    if i == 0 {
        assert(Seq::<u8>::empty() + prune_secs_from(input, secs, 0, 0, input.len() as int, fin)
            =~= prune_secs_from(input, secs, 0, 0, input.len() as int, fin));
    } else {
        lemma_prune_doc_split(input, secs, i - 1, fin);
        let s = secs[i - 1];
        let a = prune_prefix(input, secs, i - 1, fin);
        let g = input.subrange(prev_end(secs, i - 1), s.start as int);
        let p = prune_sec(input, s, fin);
        let r = prune_secs_from(input, secs, i, s.end as int, input.len() as int, fin);
        assert(prune_secs_from(input, secs, i - 1, prev_end(secs, i - 1), input.len() as int, fin)
            == g + p + r);
        assert(a + (g + p + r) =~= ((a + g) + p) + r);
        assert(prune_prefix(input, secs, i, fin) == (a + g) + p);
    }
}

/// Completeness of pruning, global form of the dropped half: at a
/// top-level section classified finished, the output passes from the
/// text before the section's span directly to the text after it; no
/// byte of the span contributes.
pub proof fn lemma_finished_top_section_absent(
    input: Seq<u8>,
    secs: Seq<Section>,
    i: int,
    fin: Seq<Seq<u8>>,
)
    requires
        secs_wf_from(secs, 0, 0, input.len() as int),
        0 <= i < secs.len(),
        sec_finished(fin, input, secs[i]),
    ensures
        prune_doc(input, secs, fin) == prune_prefix(input, secs, i, fin) + input.subrange(
            prev_end(secs, i),
            secs[i].start as int,
        ) + prune_secs_from(input, secs, i + 1, secs[i].end as int, input.len() as int, fin),
{
    lemma_prune_doc_split(input, secs, i, fin);
    let a = prune_prefix(input, secs, i, fin);
    let g = input.subrange(prev_end(secs, i), secs[i].start as int);
    let r = prune_secs_from(input, secs, i + 1, secs[i].end as int, input.len() as int, fin);
    assert(prune_sec(input, secs[i], fin) =~= Seq::<u8>::empty());
    assert(g + Seq::<u8>::empty() + r =~= g + r);
    assert(a + (g + Seq::<u8>::empty() + r) =~= (a + g) + r);
}

/// Completeness of pruning, global form of the retained half: a
/// top-level section not classified finished keeps its own headline
/// line verbatim in the output, at the offset right after the output of
/// everything before the section's own text.
pub proof fn lemma_retained_top_headline_present(
    input: Seq<u8>,
    secs: Seq<Section>,
    i: int,
    fin: Seq<Seq<u8>>,
)
    requires
        secs_wf_from(secs, 0, 0, input.len() as int),
        0 <= i < secs.len(),
        !sec_finished(fin, input, secs[i]),
    ensures
        ({
            let s = secs[i];
            let off = prune_prefix(input, secs, i, fin).len() + (s.start - prev_end(secs, i));
            prune_doc(input, secs, fin).subrange(off as int, off + (s.hl_end - s.start))
                == input.subrange(s.start as int, s.hl_end as int)
        }),
{
    let s = secs[i];
    lemma_secs_wf_pointwise(secs, 0, 0, input.len() as int);
    assert(sec_wf(s, 0, input.len() as int));
    lemma_sec_wf_linked(secs, 0, i, 0, input.len() as int);
    assert(prev_end(secs, i) <= s.start);
    lemma_prune_doc_split(input, secs, i, fin);
    lemma_retained_section_prefix(input, s, 0, input.len() as int, fin);
    let first = if s.children@.len() > 0 {
        s.children@[0].start as int
    } else {
        s.end as int
    };
    if s.children@.len() > 0 {
        assert(secs_wf_from(s.children@, 0, s.hl_end as int, s.end as int));
        assert(sec_wf(s.children@[0], s.hl_end as int, s.end as int));
        assert(s.hl_end <= s.children@[0].start);
        assert(s.children@[0].start <= s.end <= input.len());
    }
    let a = prune_prefix(input, secs, i, fin);
    let g = input.subrange(prev_end(secs, i), s.start as int);
    let p = prune_sec(input, s, fin);
    let r = prune_secs_from(input, secs, i + 1, s.end as int, input.len() as int, fin);
    assert(prune_secs_from(input, secs, i, prev_end(secs, i), input.len() as int, fin)
        == g + p + r);
    let k = s.hl_end - s.start;
    assert(p.take(first - s.start).take(k) =~= p.take(k));
    assert(input.subrange(s.start as int, first).take(k) =~= input.subrange(
        s.start as int,
        s.hl_end as int,
    ));
    assert(g.len() == s.start - prev_end(secs, i));
    assert(p.len() >= k);
    let off = a.len() + (s.start - prev_end(secs, i));
    assert(prune_doc(input, secs, fin) == a + (g + p + r));
    assert((a + (g + p + r)).subrange(off as int, off + k) =~= p.take(k));
}

/// Position `p` lies inside the span of a section classified finished,
/// at any depth, within the forest `secs[i..]`.
pub open spec fn in_finished_from(
    input: Seq<u8>,
    secs: Seq<Section>,
    i: int,
    p: int,
    fin: Seq<Seq<u8>>,
) -> bool
    decreases secs, secs.len() - i + 1,
{
    if i < 0 || i >= secs.len() {
        false
    } else {
        ||| (sec_finished(fin, input, secs[i]) && secs[i].start <= p < secs[i].end)
        ||| in_finished_sec(input, secs[i], p, fin)
        ||| in_finished_from(input, secs, i + 1, p, fin)
    }
}

/// Position `p` lies inside a finished descendant of `s`.
pub open spec fn in_finished_sec(input: Seq<u8>, s: Section, p: int, fin: Seq<Seq<u8>>) -> bool
    decreases s, 0int,
{
    in_finished_from(input, s.children@, 0, p, fin)
}

/// The bytes of `input[from..upto]` that survive pruning under the
/// section forest `secs`: exactly those positions not inside the span
/// of any section classified finished, in original order.
pub open spec fn kept_bytes(
    input: Seq<u8>,
    secs: Seq<Section>,
    from: int,
    upto: int,
    fin: Seq<Seq<u8>>,
) -> Seq<u8>
    decreases upto - from,
{
    if from >= upto {
        Seq::empty()
    } else if in_finished_from(input, secs, 0, from, fin) {
        kept_bytes(input, secs, from + 1, upto, fin)
    } else {
        seq![input[from]] + kept_bytes(input, secs, from + 1, upto, fin)
    }
}

/// Kept bytes concatenate over adjacent ranges.
proof fn lemma_kept_split(
    input: Seq<u8>,
    secs: Seq<Section>,
    a: int,
    b: int,
    c: int,
    fin: Seq<Seq<u8>>,
)
    requires
        a <= b <= c,
    ensures
        kept_bytes(input, secs, a, b, fin) + kept_bytes(input, secs, b, c, fin) == kept_bytes(
            input,
            secs,
            a,
            c,
            fin,
        ),
    decreases b - a,
{
    if a >= b {
        assert(Seq::<u8>::empty() + kept_bytes(input, secs, b, c, fin) =~= kept_bytes(
            input,
            secs,
            b,
            c,
            fin,
        ));
    } else {
        lemma_kept_split(input, secs, a + 1, b, c, fin);
        if !in_finished_from(input, secs, 0, a, fin) {
            assert(seq![input[a]] + (kept_bytes(input, secs, a + 1, b, fin) + kept_bytes(
                input,
                secs,
                b,
                c,
                fin,
            )) =~= (seq![input[a]] + kept_bytes(input, secs, a + 1, b, fin)) + kept_bytes(
                input,
                secs,
                b,
                c,
                fin,
            ));
        }
    }
}

/// A range with no position inside a finished span is kept verbatim.
proof fn lemma_kept_all(input: Seq<u8>, secs: Seq<Section>, a: int, b: int, fin: Seq<Seq<u8>>)
    requires
        0 <= a <= b <= input.len(),
        forall|p: int| a <= p < b ==> !in_finished_from(input, secs, 0, p, fin),
    ensures
        kept_bytes(input, secs, a, b, fin) == input.subrange(a, b),
    decreases b - a,
{
    if a < b {
        lemma_kept_all(input, secs, a + 1, b, fin);
        assert(seq![input[a]] + input.subrange(a + 1, b) =~= input.subrange(a, b));
    } else {
        assert(input.subrange(a, b) =~= Seq::<u8>::empty());
    }
}

/// A range lying wholly inside finished spans keeps nothing.
proof fn lemma_kept_none(input: Seq<u8>, secs: Seq<Section>, a: int, b: int, fin: Seq<Seq<u8>>)
    requires
        forall|p: int| a <= p < b ==> in_finished_from(input, secs, 0, p, fin),
    ensures
        kept_bytes(input, secs, a, b, fin) == Seq::<u8>::empty(),
    decreases b - a,
{
    if a < b {
        lemma_kept_none(input, secs, a + 1, b, fin);
    }
}

/// No position outside `[lo, hi)` is inside a finished span of a forest
/// whose spans all lie within `[lo, hi)`.
proof fn lemma_not_covered(
    input: Seq<u8>,
    secs: Seq<Section>,
    i: int,
    lo: int,
    hi: int,
    p: int,
    fin: Seq<Seq<u8>>,
)
    requires
        secs_wf_from(secs, i, lo, hi),
        p < lo || p >= hi,
    ensures
        !in_finished_from(input, secs, i, p, fin),
    decreases secs, secs.len() - i + 1,
{
    if 0 <= i < secs.len() {
        assert(sec_wf(secs[i], lo, hi));
        lemma_not_covered_sec(input, secs[i], lo, hi, p, fin);
        lemma_not_covered(input, secs, i + 1, secs[i].end as int, hi, p, fin);
    }
}

/// Companion of [`lemma_not_covered`] for one section's descendants.
proof fn lemma_not_covered_sec(
    input: Seq<u8>,
    s: Section,
    lo: int,
    hi: int,
    p: int,
    fin: Seq<Seq<u8>>,
)
    requires
        sec_wf(s, lo, hi),
        p < s.hl_end || p >= s.end,
    ensures
        !in_finished_sec(input, s, p, fin),
    decreases s, 0int,
{
    lemma_not_covered(input, s.children@, 0, s.hl_end as int, s.end as int, p, fin);
}

/// Pruning a sibling forest keeps exactly the bytes outside finished
/// spans, provided membership in a finished span reads the same through
/// the whole document's forest `top` and through the local forest.
proof fn lemma_prune_filters(
    input: Seq<u8>,
    top: Seq<Section>,
    secs: Seq<Section>,
    j: int,
    from: int,
    upto: int,
    fin: Seq<Seq<u8>>,
)
    requires
        secs_wf_from(secs, j, from, upto),
        0 <= from <= upto <= input.len(),
        forall|p: int| from <= p < upto ==> (in_finished_from(input, top, 0, p, fin)
            <==> in_finished_from(input, secs, j, p, fin)),
    ensures
        prune_secs_from(input, secs, j, from, upto, fin) == kept_bytes(input, top, from, upto, fin),
    decreases secs, secs.len() - j + 1,
{
    if !(0 <= j < secs.len()) {
        assert forall|p: int| from <= p < upto implies !in_finished_from(
            input,
            top,
            0,
            p,
            fin,
        ) by {
            assert(!in_finished_from(input, secs, j, p, fin));
        }
        lemma_kept_all(input, top, from, upto, fin);
    } else {
        let s = secs[j];
        assert(sec_wf(s, from, upto));
        // the gap before the section lies in no finished span
        assert forall|p: int| from <= p < s.start implies !in_finished_from(
            input,
            top,
            0,
            p,
            fin,
        ) by {
            lemma_not_covered_sec(input, s, from, upto, p, fin);
            lemma_not_covered(input, secs, j + 1, s.end as int, upto, p, fin);
            assert(!in_finished_from(input, secs, j, p, fin));
        }
        lemma_kept_all(input, top, from, s.start as int, fin);
        // the section's own span
        if sec_finished(fin, input, s) {
            assert forall|p: int| s.start <= p < s.end implies in_finished_from(
                input,
                top,
                0,
                p,
                fin,
            ) by {
                assert(in_finished_from(input, secs, j, p, fin));
            }
            lemma_kept_none(input, top, s.start as int, s.end as int, fin);
        } else {
            assert forall|p: int| s.start <= p < s.end implies (in_finished_from(
                input,
                top,
                0,
                p,
                fin,
            ) <==> in_finished_from(input, s.children@, 0, p, fin)) by {
                lemma_not_covered(input, secs, j + 1, s.end as int, upto, p, fin);
                assert(in_finished_from(input, secs, j, p, fin) <==> in_finished_sec(
                    input,
                    s,
                    p,
                    fin,
                ));
            }
            lemma_secs_wf_weaken_lo(s.children@, 0, s.hl_end as int, s.start as int, s.end as int);
            lemma_prune_filters(input, top, s.children@, 0, s.start as int, s.end as int, fin);
        }
        // the rest of the forest
        assert forall|p: int| s.end <= p < upto implies (in_finished_from(input, top, 0, p, fin)
            <==> in_finished_from(input, secs, j + 1, p, fin)) by {
            lemma_not_covered_sec(input, s, from, upto, p, fin);
        }
        lemma_prune_filters(input, top, secs, j + 1, s.end as int, upto, fin);
        // glue the three ranges
        lemma_kept_split(input, top, s.start as int, s.end as int, upto, fin);
        lemma_kept_split(input, top, from, s.start as int, upto, fin);
        let g = kept_bytes(input, top, from, s.start as int, fin);
        let m = kept_bytes(input, top, s.start as int, s.end as int, fin);
        let r = kept_bytes(input, top, s.end as int, upto, fin);
        assert(input.subrange(from, s.start as int) == g);
        assert(prune_sec(input, s, fin) == m);
        assert(prune_secs_from(input, secs, j + 1, s.end as int, upto, fin) == r);
        assert(kept_bytes(input, top, from, upto, fin) == g + (m + r));
        assert(g + (m + r) =~= (g + m) + r);
        assert(prune_secs_from(input, secs, j, from, upto, fin) == (g + m) + r);
    }
}

/// Completeness and non-interference in one statement: the pruned
/// document is exactly the input filtered, in original order, to the
/// bytes outside the span of every section classified finished at any
/// depth. In particular the preamble, and the headline line, drawers
/// and body of every section with no finished ancestor, are preserved
/// verbatim, while no byte of a finished section's subtree survives.
pub proof fn lemma_prune_keeps_exactly_unfinished_bytes(
    input: Seq<u8>,
    secs: Seq<Section>,
    fin: Seq<Seq<u8>>,
)
    requires
        secs_wf_from(secs, 0, 0, input.len() as int),
    ensures
        prune_doc(input, secs, fin) == kept_bytes(input, secs, 0, input.len() as int, fin),
{
    lemma_prune_filters(input, secs, secs, 0, 0, input.len() as int, fin);
}

} // verus!
