//! Pretty-printing of an s-expression dump of a parse tree: each
//! parenthesis opens or closes an indented line, spaces collapse, and
//! quoted atoms pass through verbatim.

use vstd::prelude::*;

verus! {

/// `n` space characters.
pub open spec fn spaces(n: nat) -> Seq<u8> {
    Seq::new(n, |i: int| 32u8)
}

/// The formatted text of `s[i..]`, given the current indentation, the
/// in-quoted-atom flag, and the output accumulated so far. An opening
/// parenthesis outside quotes starts an indented line and indents by
/// two; a closing one dedents by two and starts an indented line; a
/// quote toggles the flag; runs of spaces outside quotes collapse after
/// a space or a line break; every other byte passes through.
pub open spec fn sexp_fmt(s: Seq<u8>, i: int, indent: nat, in_str: bool, acc: Seq<u8>) -> Seq<u8>
    decreases s.len() - i,
{
    if i < 0 || i >= s.len() {
        acc
    } else {
        let c = s[i];
        if c == 40 && !in_str {
            let acc2 = if acc.len() == 0 {
                acc + seq![40u8]
            } else {
                acc + seq![10u8] + spaces(indent) + seq![40u8]
            };
            sexp_fmt(s, i + 1, indent + 2, in_str, acc2)
        } else if c == 41 && !in_str {
            let ind2 = if indent >= 2 {
                (indent - 2) as nat
            } else {
                0
            };
            sexp_fmt(s, i + 1, ind2, in_str, acc + seq![10u8] + spaces(ind2) + seq![41u8])
        } else if c == 34 {
            sexp_fmt(s, i + 1, indent, !in_str, acc + seq![34u8])
        } else if c == 32 && !in_str {
            if acc.len() > 0 && (acc.last() == 32 || acc.last() == 10) {
                sexp_fmt(s, i + 1, indent, in_str, acc)
            } else {
                sexp_fmt(s, i + 1, indent, in_str, acc + seq![32u8])
            }
        } else {
            sexp_fmt(s, i + 1, indent, in_str, acc + seq![c])
        }
    }
}

/// Append `n` spaces to `out`.
fn push_spaces(out: &mut Vec<u8>, n: usize)
    ensures
        final(out)@ == old(out)@ + spaces(n as nat),
{
    let mut k: usize = 0;
    while k < n
        invariant
            0 <= k <= n,
            out@ == old(out)@ + spaces(k as nat),
        decreases n - k,
    {
        out.push(32);
        proof {
            assert(out@ =~= old(out)@ + spaces((k + 1) as nat));
        }
        k = k + 1;
    }
}

/// Format an s-expression dump for display, one node per indented line.
pub fn format_sexp(s: &[u8]) -> (r: Vec<u8>)
    requires
        s@.len() <= usize::MAX / 2,
    ensures
        r@ == sexp_fmt(s@, 0, 0, false, Seq::<u8>::empty()),
{
    let n = s.len();
    let mut out: Vec<u8> = Vec::new();
    let mut indent: usize = 0;
    let mut in_str = false;
    let mut i: usize = 0;
    while i < n
        invariant
            0 <= i <= n,
            n == s@.len() <= usize::MAX / 2,
            indent <= 2 * i,
            sexp_fmt(s@, 0, 0, false, Seq::<u8>::empty()) == sexp_fmt(
                s@,
                i as int,
                indent as nat,
                in_str,
                out@,
            ),
        decreases n - i,
    {
        let ghost acc = out@;
        let c = s[i];
        if c == 40 && !in_str {
            if out.len() != 0 {
                out.push(10);
                push_spaces(&mut out, indent);
            }
            out.push(40);
            proof {
                if acc.len() == 0 {
                    assert(out@ =~= acc + seq![40u8]);
                } else {
                    assert(out@ =~= acc + seq![10u8] + spaces(indent as nat) + seq![40u8]);
                }
            }
            indent = indent + 2;
        } else if c == 41 && !in_str {
            if indent >= 2 {
                indent = indent - 2;
            } else {
                indent = 0;
            }
            out.push(10);
            push_spaces(&mut out, indent);
            out.push(41);
            proof {
                assert(out@ =~= acc + seq![10u8] + spaces(indent as nat) + seq![41u8]);
            }
        } else if c == 34 {
            in_str = !in_str;
            out.push(34);
            proof {
                assert(out@ =~= acc + seq![34u8]);
            }
        } else if c == 32 && !in_str {
            let skip = if out.len() > 0 {
                let last = out[out.len() - 1];
                last == 32 || last == 10
            } else {
                false
            };
            if !skip {
                out.push(32);
                proof {
                    assert(out@ =~= acc + seq![32u8]);
                }
            }
        } else {
            out.push(c);
            proof {
                assert(out@ =~= acc + seq![c]);
            }
        }
        i = i + 1;
    }
    out
}

} // verus!
