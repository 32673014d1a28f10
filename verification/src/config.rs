//! Workflow keyword configuration.

use vstd::prelude::*;

verus! {

/// Ordered keyword lists marking unfinished and finished workflow states.
/// Matching is first-match-wins in list order, finished before unfinished.
pub struct Config {
    pub keywords_unfinished: Vec<Vec<u8>>,
    pub keywords_finished: Vec<Vec<u8>>,
}

/// The unfinished keywords as byte sequences, in list order.
pub open spec fn cfg_unfinished(c: Config) -> Seq<Seq<u8>> {
    c.keywords_unfinished.deep_view()
}

/// The finished keywords as byte sequences, in list order.
pub open spec fn cfg_finished(c: Config) -> Seq<Seq<u8>> {
    c.keywords_finished.deep_view()
}

/// Default unfinished vocabulary: TODO, DOING, BLOCKED.
pub open spec fn default_unfinished() -> Seq<Seq<u8>> {
    seq![
        seq![84u8, 79u8, 68u8, 79u8],
        seq![68u8, 79u8, 73u8, 78u8, 71u8],
        seq![66u8, 76u8, 79u8, 67u8, 75u8, 69u8, 68u8],
    ]
}

/// Default finished vocabulary: DONE, ABANDONED.
pub open spec fn default_finished() -> Seq<Seq<u8>> {
    seq![
        seq![68u8, 79u8, 78u8, 69u8],
        seq![65u8, 66u8, 65u8, 78u8, 68u8, 79u8, 78u8, 69u8, 68u8],
    ]
}

impl Default for Config {
    /// The default workflow vocabulary.
    fn default() -> (r: Config)
        ensures
            cfg_unfinished(r) == default_unfinished(),
            cfg_finished(r) == default_finished(),
    {
        // TODO
        let mut todo: Vec<u8> = Vec::new();
        todo.push(84);
        todo.push(79);
        todo.push(68);
        todo.push(79);
        // DOING
        let mut doing: Vec<u8> = Vec::new();
        doing.push(68);
        doing.push(79);
        doing.push(73);
        doing.push(78);
        doing.push(71);
        // BLOCKED
        let mut blocked: Vec<u8> = Vec::new();
        blocked.push(66);
        blocked.push(76);
        blocked.push(79);
        blocked.push(67);
        blocked.push(75);
        blocked.push(69);
        blocked.push(68);
        // DONE
        let mut done: Vec<u8> = Vec::new();
        done.push(68);
        done.push(79);
        done.push(78);
        done.push(69);
        // ABANDONED
        let mut abandoned: Vec<u8> = Vec::new();
        abandoned.push(65);
        abandoned.push(66);
        abandoned.push(65);
        abandoned.push(78);
        abandoned.push(68);
        abandoned.push(79);
        abandoned.push(78);
        abandoned.push(69);
        abandoned.push(68);
        let mut unfinished: Vec<Vec<u8>> = Vec::new();
        unfinished.push(todo);
        unfinished.push(doing);
        unfinished.push(blocked);
        let mut finished: Vec<Vec<u8>> = Vec::new();
        finished.push(done);
        finished.push(abandoned);
        let r = Config { keywords_unfinished: unfinished, keywords_finished: finished };
        proof {
            assert(cfg_unfinished(r) =~~= default_unfinished());
            assert(cfg_finished(r) =~~= default_finished());
        }
        r
    }
}

/// An exact copy of a keyword list.
pub fn copy_keywords(v: &Vec<Vec<u8>>) -> (r: Vec<Vec<u8>>)
    ensures
        r.deep_view() == v.deep_view(),
{
    let mut out: Vec<Vec<u8>> = Vec::new();
    let n = v.len();
    let mut i: usize = 0;
    while i < n
        invariant
            0 <= i <= n,
            n == v@.len(),
            out@.len() == i,
            forall|k: int| 0 <= k < i ==> out.deep_view()[k] == v.deep_view()[k],
        decreases n - i,
    {
        let w = vstd::slice::slice_to_vec(v[i].as_slice());
        out.push(w);
        i = i + 1;
    }
    proof {
        assert(out.deep_view() =~~= v.deep_view());
    }
    out
}

/// An exact copy of a configuration.
pub fn copy_config(c: &Config) -> (r: Config)
    ensures
        cfg_unfinished(r) == cfg_unfinished(*c),
        cfg_finished(r) == cfg_finished(*c),
{
    Config {
        keywords_unfinished: copy_keywords(&c.keywords_unfinished),
        keywords_finished: copy_keywords(&c.keywords_finished),
    }
}

/// Normalize a keyword as entered on a command line: surrounding
/// whitespace removed, then upper-cased (ASCII case folding; the
/// workflow vocabulary is matched byte-for-byte).
pub fn parse_keyword(s: &[u8]) -> (r: Vec<u8>)
    ensures
        r@ == crate::utils::upper_spec(crate::utils::trim_spec(s@)),
{
    let trimmed = crate::utils::trim_bytes(s);
    crate::utils::upper_bytes(trimmed.as_slice())
}

} // verus!
