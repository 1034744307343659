//! Splitting text into lines, with the standard library's line-iterator
//! convention: pieces end at `\n`, one `\r` directly before the `\n` is
//! dropped, and the final unterminated piece is kept only when non-empty.

use vstd::prelude::*;
use vstd::string::StrSliceExecFns;
use vstd::string::StringExecFns;

use crate::chars::string_push;

verus! {

/// Raw split on `\n`: `pieces` and `cur` accumulate the split of the text
/// already consumed; `rest` is what remains.
pub open spec fn split_newlines_go(
    pieces: Seq<Seq<char>>,
    cur: Seq<char>,
    rest: Seq<char>,
) -> Seq<Seq<char>>
    decreases rest.len(),
{
    if rest.len() == 0 {
        pieces.push(cur)
    } else if rest[0] == '\n' {
        split_newlines_go(pieces.push(cur), Seq::empty(), rest.drop_first())
    } else {
        split_newlines_go(pieces, cur.push(rest[0]), rest.drop_first())
    }
}

/// The pieces of `text` between `\n` separators; one more piece than there
/// are newlines, so never empty.
pub open spec fn spec_split_newlines(text: Seq<char>) -> Seq<Seq<char>> {
    split_newlines_go(Seq::empty(), Seq::empty(), text)
}

/// One `\r` at the end of a newline-terminated piece is dropped.
pub open spec fn strip_cr(l: Seq<char>) -> Seq<char> {
    if l.len() > 0 && l[l.len() - 1] == '\r' {
        l.drop_last()
    } else {
        l
    }
}

/// `strip_cr` applied to every piece.
pub open spec fn strip_all_cr(pieces: Seq<Seq<char>>) -> Seq<Seq<char>>
    decreases pieces.len(),
{
    if pieces.len() == 0 {
        Seq::empty()
    } else {
        strip_all_cr(pieces.drop_last()).push(strip_cr(pieces.last()))
    }
}

/// The lines of `text`: every newline-terminated piece with its optional
/// trailing `\r` stripped, then the final unterminated piece when non-empty.
pub open spec fn spec_lines(text: Seq<char>) -> Seq<Seq<char>> {
    let pieces = spec_split_newlines(text);
    let terminated = strip_all_cr(pieces.drop_last());
    if pieces.last().len() == 0 {
        terminated
    } else {
        terminated.push(pieces.last())
    }
}

proof fn lemma_split_newlines_go_len(pieces: Seq<Seq<char>>, cur: Seq<char>, rest: Seq<char>)
    ensures
        split_newlines_go(pieces, cur, rest).len() > pieces.len(),
    decreases rest.len(),
{
    if rest.len() == 0 {
    } else if rest[0] == '\n' {
        lemma_split_newlines_go_len(pieces.push(cur), Seq::empty(), rest.drop_first());
    } else {
        lemma_split_newlines_go_len(pieces, cur.push(rest[0]), rest.drop_first());
    }
}

pub proof fn lemma_split_newlines_nonempty(text: Seq<char>)
    ensures
        spec_split_newlines(text).len() >= 1,
{
    lemma_split_newlines_go_len(Seq::empty(), Seq::empty(), text);
}

/// Splits `text` at every `\n`, returning the pieces in order, without the
/// newlines themselves.
fn split_newlines(text: &str) -> (pieces: Vec<String>)
    ensures
        pieces.deep_view() == spec_split_newlines(text@),
        pieces@.len() >= 1,
{
    let n = text.unicode_len();
    let mut pieces: Vec<String> = Vec::new();
    let mut cur = String::new();
    let mut i: usize = 0;
    proof {
        assert(pieces.deep_view() =~= Seq::<Seq<char>>::empty());
        assert(text@.subrange(0, n as int) =~= text@);
    }
    while i < n
        invariant
            i <= n,
            n == text@.len(),
            split_newlines_go(pieces.deep_view(), cur@, text@.subrange(i as int, n as int))
                == spec_split_newlines(text@),
        decreases n - i,
    {
        let ghost pre_pieces = pieces.deep_view();
        let ghost pre_cur = cur@;
        let ghost rest = text@.subrange(i as int, n as int);
        proof {
            assert(rest[0] == text@[i as int]);
            assert(rest.drop_first() =~= text@.subrange(i as int + 1, n as int));
        }
        let c = text.get_char(i);
        if c == '\n' {
            pieces.push(cur);
            cur = String::new();
            proof {
                assert(pieces.deep_view() =~= pre_pieces.push(pre_cur));
            }
        } else {
            string_push(&mut cur, c);
        }
        i += 1;
    }
    let ghost pre_pieces = pieces.deep_view();
    let ghost pre_cur = cur@;
    proof {
        assert(text@.subrange(n as int, n as int) =~= Seq::<char>::empty());
        lemma_split_newlines_nonempty(text@);
    }
    pieces.push(cur);
    proof {
        assert(pieces.deep_view() =~= pre_pieces.push(pre_cur));
    }
    pieces
}

/// Returns `l` without its trailing `\r`, when it has one.
fn strip_cr_string(l: &String) -> (r: String)
    ensures
        r@ == strip_cr(l@),
{
    let n = l.as_str().unicode_len();
    if n > 0 && l.as_str().get_char(n - 1) == '\r' {
        let r = String::from_str(l.as_str().substring_char(0, n - 1));
        proof {
            assert(r@ =~= l@.drop_last());
        }
        r
    } else {
        l.clone()
    }
}

/// Splits `text` into its lines.
pub fn split_lines(text: &str) -> (lines: Vec<String>)
    ensures
        lines.deep_view() == spec_lines(text@),
{
    let pieces = split_newlines(text);
    let ghost pdv = pieces.deep_view();
    let m = pieces.len() - 1;
    let mut lines: Vec<String> = Vec::new();
    let mut i: usize = 0;
    while i < m
        invariant
            i <= m,
            m == pieces@.len() - 1,
            pieces.deep_view() == pdv,
            lines.deep_view() == strip_all_cr(pdv.subrange(0, i as int)),
        decreases m - i,
    {
        let ghost pre_lines = lines.deep_view();
        let stripped = strip_cr_string(&pieces[i]);
        lines.push(stripped);
        proof {
            let sub = pdv.subrange(0, i as int + 1);
            assert(sub.drop_last() =~= pdv.subrange(0, i as int));
            assert(sub.last() == pdv[i as int]);
            assert(lines.deep_view() =~= pre_lines.push(strip_cr(pdv[i as int])));
        }
        i += 1;
    }
    proof {
        assert(pdv.subrange(0, m as int) =~= pdv.drop_last());
    }
    let last = &pieces[m];
    if !last.as_str().is_empty() {
        let ghost pre_lines = lines.deep_view();
        lines.push(last.clone());
        proof {
            assert(pdv.last() == pdv[m as int]);
            assert(lines.deep_view() =~= pre_lines.push(pdv[m as int]));
        }
    }
    lines
}

} // verus!
