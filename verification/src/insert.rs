//! Inserting a newly rendered section after, or nested under, a section
//! located by exact headline-text match.

use vstd::prelude::*;

use crate::builder::{render_spec, OutputBuilder};
use crate::config::{cfg_finished, cfg_unfinished, copy_config, Config};
use crate::org::{
    find_in_from, lemma_find_wf, lemma_secs_wf_pointwise, sec_wf, secs_wf_from, Org, OrgError,
    OrgFile, Position, Section,
};

verus! {

/// The byte where the new section's text goes: after the target's whole
/// span, or right after the target's own headline line.
pub open spec fn insert_boundary(s: Section, position: Position) -> int {
    match position {
        Position::After => s.end as int,
        Position::Under => s.hl_end as int,
    }
}

/// The new section's depth: the target's own for a following sibling,
/// one deeper for a first child.
pub open spec fn insert_depth(s: Section, position: Position) -> int {
    match position {
        Position::After => s.stars as int,
        Position::Under => s.stars + 1,
    }
}

/// Commit the input through the insertion point of `section`, then
/// append the rendered new section there as synthesized text.
pub fn add_headline_to_section(
    section: &Section,
    output: &mut OutputBuilder,
    headline: &[u8],
    position: Position,
    created: &[u8],
) -> (r: Result<(), OrgError>)
    requires
        old(output).wf(),
        sec_wf(*section, old(output).start_byte as int, old(output).input@.len() as int),
        old(output).input@.len() < usize::MAX,
    ensures
        r is Ok,
        final(output).wf(),
        final(output).config == old(output).config,
        final(output).input == old(output).input,
        final(output).start_byte == insert_boundary(*section, position),
        final(output).output@ == old(output).output@ + old(output).input@.subrange(
            old(output).start_byte as int,
            insert_boundary(*section, position),
        ) + render_spec(
            insert_depth(*section, position) as nat,
            None,
            headline@,
            None,
            created@,
        ),
{
    let boundary = match position {
        Position::After => section.end_byte(),
        Position::Under => section.headline().1,
    };
    output.append_to(boundary);
    let depth = match position {
        Position::After => section.stars(),
        Position::Under => section.stars() + 1,
    };
    let sb = output.new_section().stars(depth).headline(headline).created(created);
    output.insert_section(sb);
    Ok(())
}

impl OrgFile {
    /// Insert a rendered section relative to the first section matching
    /// `search`: immediately after its whole span for `After`, or as its
    /// first child right after its headline line for `Under`. Fails with
    /// `SectionNotFound` exactly when no section matches.
    pub fn insert_headline(
        &self,
        headline: &[u8],
        position: Position,
        search: &[u8],
        created: &[u8],
    ) -> (r: Result<Vec<u8>, OrgError>)
        requires
            self.wf(),
        ensures
            match find_in_from(
                self.input@,
                self.sections@,
                0,
                search@,
                cfg_finished(self.config),
                cfg_unfinished(self.config),
            ) {
                None => r matches Err(e) && e == OrgError::SectionNotFound,
                Some(t) => r matches Ok(out) && out@ == self.input@.subrange(
                    0,
                    insert_boundary(t, position),
                ) + render_spec(
                    insert_depth(t, position) as nat,
                    None,
                    headline@,
                    None,
                    created@,
                ) + self.input@.subrange(insert_boundary(t, position), self.input@.len() as int),
            },
    {
        let ghost fin = cfg_finished(self.config);
        let ghost unf = cfg_unfinished(self.config);
        let mut output = self.output_builder();
        match self.find_section(search) {
            None => Err(OrgError::SectionNotFound),
            Some(target) => {
                proof {
                    lemma_secs_wf_pointwise(self.sections@, 0, 0, self.input@.len() as int);
                    lemma_find_wf(
                        self.input@,
                        self.sections@,
                        0,
                        search@,
                        fin,
                        unf,
                        self.input@.len() as int,
                    );
                    assert(sec_wf(*target, 0, self.input@.len() as int));
                }
                match add_headline_to_section(target, &mut output, headline, position, created) {
                    Err(e) => Err(e),
                    Ok(()) => {
                        let out = output.append_to_end_of_input();
                        proof {
                            let b = insert_boundary(*target, position);
                            let rendered = render_spec(
                                insert_depth(*target, position) as nat,
                                None,
                                headline@,
                                None,
                                created@,
                            );
                            assert(out@ =~= self.input@.subrange(0, b) + rendered
                                + self.input@.subrange(b, self.input@.len() as int));
                        }
                        Ok(out)
                    },
                }
            },
        }
    }
}

/// A successful insertion into a raw text: for some well-formed section
/// tree of the input, the search finds a target and `out` is the exact
/// splice of the section rendered with `created` at the target's
/// insertion point.
pub open spec fn insert_ok(
    fin: Seq<Seq<u8>>,
    unf: Seq<Seq<u8>>,
    input: Seq<u8>,
    headline: Seq<u8>,
    position: Position,
    search: Seq<u8>,
    created: Seq<u8>,
    out: Seq<u8>,
) -> bool {
    exists|secs: Seq<Section>|
        {
            &&& secs_wf_from(secs, 0, 0, input.len() as int)
            &&& match find_in_from(input, secs, 0, search, fin, unf) {
                Some(t) => out == input.subrange(0, insert_boundary(t, position)) + render_spec(
                    insert_depth(t, position) as nat,
                    None,
                    headline,
                    None,
                    created,
                ) + input.subrange(insert_boundary(t, position), input.len() as int),
                None => false,
            }
        }
}

/// Insert a new headline into a raw text: parse it, locate the target
/// and splice the rendered section in. The parser decides only whether
/// the text tokenizes; for every document it accepts, the result is the
/// exact splice around the located target.
pub fn add_headline_to_input(
    config: &Config,
    input: &[u8],
    headline: &[u8],
    position: Position,
    search: &[u8],
    created: &[u8],
) -> (r: Result<Vec<u8>, OrgError>)
    ensures
        r matches Err(e) ==> (e == OrgError::ParseFailure || e == OrgError::SectionNotFound),
        r matches Ok(out) ==> insert_ok(
            cfg_finished(*config),
            cfg_unfinished(*config),
            input@,
            headline@,
            position,
            search@,
            created@,
            out@,
        ),
{
    let org = Org::from_config(copy_config(config));
    match org.load(input) {
        Err(e) => Err(e),
        Ok(f) => match f.insert_headline(headline, position, search, created) {
            Err(e) => Err(e),
            Ok(out) => {
                proof {
                    let secs = f.sections@;
                    assert({
                        &&& secs_wf_from(secs, 0, 0, input@.len() as int)
                        &&& match find_in_from(
                            input@,
                            secs,
                            0,
                            search@,
                            cfg_finished(*config),
                            cfg_unfinished(*config),
                        ) {
                            Some(t) => out@ == input@.subrange(0, insert_boundary(t, position))
                                + render_spec(
                                insert_depth(t, position) as nat,
                                None,
                                headline@,
                                None,
                                created@,
                            ) + input@.subrange(insert_boundary(t, position), input@.len() as int),
                            None => false,
                        }
                    });
                }
                Ok(out)
            },
        },
    }
}

/// Relies on chrono::Utc::now and chrono's formatter for the pattern
/// `%Y-%m-%d %a %H:%M`: the creation timestamp taken from the wall
/// clock. Nothing is promised of the bytes; callers pass them through.
#[verifier::external_body]
fn now_created_stamp() -> Vec<u8> {
    let now: chrono::DateTime<chrono::Utc> = chrono::Utc::now();
    now.format("%Y-%m-%d %a %H:%M").to_string().into_bytes()
}

/// Insert a new headline with the wall clock as the creation timestamp.
/// Succeeds exactly when [`add_headline_to_input`] does; whatever the
/// clock returned, a success is the exact splice of the rendered
/// section, with the clock's bytes in the property drawer.
pub fn add_headline(
    config: &Config,
    input: &[u8],
    headline: &[u8],
    position: Position,
    search: &[u8],
) -> (r: Result<Vec<u8>, OrgError>)
    ensures
        r matches Err(e) ==> (e == OrgError::ParseFailure || e == OrgError::SectionNotFound),
        r matches Ok(out) ==> exists|created: Seq<u8>|
            insert_ok(
                cfg_finished(*config),
                cfg_unfinished(*config),
                input@,
                headline@,
                position,
                search@,
                created,
                out@,
            ),
{
    let created = now_created_stamp();
    match add_headline_to_input(config, input, headline, position, search, created.as_slice()) {
        Err(e) => Err(e),
        Ok(out) => {
            proof {
                assert(insert_ok(
                    cfg_finished(*config),
                    cfg_unfinished(*config),
                    input@,
                    headline@,
                    position,
                    search@,
                    created@,
                    out@,
                ));
            }
            Ok(out)
        },
    }
}

} // verus!
