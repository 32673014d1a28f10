//! Trusted boundary to the tree-sitter org grammar.
//!
//! The parser and its tree are opaque to verification; every structural
//! fact the library relies on is re-checked in verified code while the
//! section tree is built.

use vstd::prelude::*;

use crate::config::Config;
use crate::org::{
    lemma_secs_wf_push, lemma_tail_end_push, sec_wf, secs_wf_from, tail_end, OrgError, OrgFile,
    Section,
};

verus! {

#[verifier::external_type_specification]
#[verifier::external_body]
pub struct ExParser(tree_sitter::Parser);

#[verifier::external_type_specification]
#[verifier::external_body]
pub struct ExTree(tree_sitter::Tree);

#[verifier::external_type_specification]
#[verifier::external_body]
pub struct ExNode<'a>(tree_sitter::Node<'a>);

/// Relies on tree_sitter::Parser::new and Parser::set_language, loading
/// the grammar from tree_sitter_org::language.
#[verifier::external_body]
fn get_parser() -> Option<tree_sitter::Parser> {
    let mut parser = tree_sitter::Parser::new();
    match parser.set_language(tree_sitter_org::language()) {
        Ok(()) => Some(parser),
        Err(_) => None,
    }
}

/// Relies on tree_sitter::Parser::parse over the raw input bytes.
#[verifier::external_body]
fn parse_tree(parser: &mut tree_sitter::Parser, input: &[u8]) -> Option<tree_sitter::Tree> {
    parser.parse(input, None)
}

/// Relies on tree_sitter::Tree::root_node.
#[verifier::external_body]
fn root_node<'t>(tree: &'t tree_sitter::Tree) -> tree_sitter::Node<'t> {
    tree.root_node()
}

/// Relies on tree_sitter::Node::start_byte.
#[verifier::external_body]
fn node_start_byte(node: &tree_sitter::Node) -> usize {
    node.start_byte()
}

/// Relies on tree_sitter::Node::end_byte.
#[verifier::external_body]
fn node_end_byte(node: &tree_sitter::Node) -> usize {
    node.end_byte()
}

/// Relies on tree_sitter::Node::child_by_field_name.
#[verifier::external_body]
fn child_by_field<'t>(node: &tree_sitter::Node<'t>, field: &str) -> Option<tree_sitter::Node<'t>> {
    node.child_by_field_name(field)
}

/// Relies on tree_sitter::Node::children_by_field_name, collected in
/// document order.
#[verifier::external_body]
fn children_by_field<'t>(node: &tree_sitter::Node<'t>, field: &str) -> Vec<tree_sitter::Node<'t>> {
    let mut cursor = node.walk();
    node.children_by_field_name(field, &mut cursor).collect()
}

/// Build one well-formed [`Section`] from a parse node whose span must
/// lie inside `[lo, hi]`. Every structural claim about the opaque parse
/// tree is checked here; a tree that violates the grammar's shape is
/// reported as a parse failure. `fuel` bounds the recursion depth.
fn build_section(node: &tree_sitter::Node, lo: usize, hi: usize, fuel: usize) -> (r: Result<
    Section,
    OrgError,
>)
    ensures
        r matches Ok(s) ==> sec_wf(s, lo as int, hi as int) && r->Ok_0 == s,
        r matches Err(e) ==> e == OrgError::ParseFailure,
    decreases fuel,
{
    if fuel == 0 {
        return Err(OrgError::ParseFailure);
    }
    let start = node_start_byte(node);
    let end = node_end_byte(node);
    if !(lo <= start && start <= end && end <= hi) {
        return Err(OrgError::ParseFailure);
    }
    let hl = match child_by_field(node, "headline") {
        None => return Err(OrgError::ParseFailure),
        Some(h) => h,
    };
    let hl_start = node_start_byte(&hl);
    let hl_end = node_end_byte(&hl);
    if !(hl_start == start && hl_end <= end) {
        return Err(OrgError::ParseFailure);
    }
    let st = match child_by_field(&hl, "stars") {
        None => return Err(OrgError::ParseFailure),
        Some(s) => s,
    };
    let st_start = node_start_byte(&st);
    let st_end = node_end_byte(&st);
    if !(start <= st_start && st_start < st_end && st_end <= hl_end) {
        return Err(OrgError::ParseFailure);
    }
    let stars = st_end - st_start;
    let (has_item, item_start, item_end) = match child_by_field(&hl, "item") {
        None => (false, 0, 0),
        Some(it) => {
            let a = node_start_byte(&it);
            let b = node_end_byte(&it);
            if !(start <= a && a <= b && b <= hl_end) {
                return Err(OrgError::ParseFailure);
            }
            (true, a, b)
        },
    };
    let (has_body, body_start, body_end) = match child_by_field(node, "body") {
        None => (false, 0, 0),
        Some(bd) => {
            let a = node_start_byte(&bd);
            let b = node_end_byte(&bd);
            if !(hl_end <= a && a <= b && b <= end) {
                return Err(OrgError::ParseFailure);
            }
            (true, a, b)
        },
    };
    let subs = children_by_field(node, "subsection");
    let n = subs.len();
    let mut children: Vec<Section> = Vec::new();
    let mut cur: usize = hl_end;
    let mut i: usize = 0;
    while i < n
        invariant
            0 <= i <= n,
            n == subs@.len(),
            fuel >= 1,
            hl_end <= cur <= end,
            end <= hi,
            secs_wf_from(children@, 0, hl_end as int, end as int),
            cur == tail_end(children@, 0, hl_end as int),
        decreases n - i,
    {
        let child = match build_section(&subs[i], cur, end, fuel - 1) {
            Err(e) => return Err(e),
            Ok(c) => c,
        };
        proof {
            lemma_secs_wf_push(children@, child, 0, hl_end as int, end as int);
            lemma_tail_end_push(children@, child, 0, hl_end as int);
        }
        cur = child.end;
        children.push(child);
        i = i + 1;
    }
    if has_body && children.len() > 0 {
        if children[0].start < body_end {
            return Err(OrgError::ParseFailure);
        }
    }
    let sec = Section {
        start,
        end,
        hl_end,
        item_start,
        item_end,
        has_item,
        body_start,
        body_end,
        has_body,
        stars,
        children,
    };
    Ok(sec)
}

/// Parse `input` into a document model over `config`. Fails with
/// `ParseFailure` when the syntax source cannot tokenize the input or
/// hands back a tree whose spans do not form a well-formed outline.
pub fn build_doc(config: Config, input: Vec<u8>) -> (r: Result<OrgFile, OrgError>)
    ensures
        r matches Ok(f) ==> f.wf() && f.input@ == input@ && f.config == config,
        r matches Err(e) ==> e == OrgError::ParseFailure,
{
    // Offsets into the text must stay strictly below the machine limit
    // so that a depth one greater than any section's always fits.
    if input.len() == usize::MAX {
        return Err(OrgError::ParseFailure);
    }
    let mut parser = match get_parser() {
        None => return Err(OrgError::ParseFailure),
        Some(p) => p,
    };
    let tree = match parse_tree(&mut parser, input.as_slice()) {
        None => return Err(OrgError::ParseFailure),
        Some(t) => t,
    };
    let root = root_node(&tree);
    let subs = children_by_field(&root, "subsection");
    let len = input.len();
    let n = subs.len();
    let mut sections: Vec<Section> = Vec::new();
    let mut cur: usize = 0;
    let mut i: usize = 0;
    while i < n
        invariant
            0 <= i <= n,
            n == subs@.len(),
            0 <= cur <= len,
            len == input@.len(),
            secs_wf_from(sections@, 0, 0, len as int),
            cur == tail_end(sections@, 0, 0),
        decreases n - i,
    {
        let sec = match build_section(&subs[i], cur, len, len) {
            Err(e) => return Err(e),
            Ok(s) => s,
        };
        proof {
            lemma_secs_wf_push(sections@, sec, 0, 0, len as int);
            lemma_tail_end_push(sections@, sec, 0, 0);
        }
        cur = sec.end;
        sections.push(sec);
        i = i + 1;
    }
    Ok(OrgFile { config, input, sections })
}

} // verus!
