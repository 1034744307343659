//! Splitting a multi-document file's text into its documents.
//!
//! A file holds zero or more documents, separated by lines that begin with
//! three dashes. The splitter gathers lines until a separator line arrives
//! with something already gathered; the gathered lines then form one
//! document. A separator line that arrives with nothing gathered is kept in
//! the buffer rather than yielding an empty document; the decoder later
//! treats it as a leading document-start marker.

use vstd::prelude::*;
use vstd::string::StrSliceExecFns;
use vstd::string::StringExecFns;

use crate::lines::spec_lines;
use crate::lines::split_lines;

verus! {

/// A line that separates two documents: it begins with three dashes.
pub open spec fn is_separator_line(l: Seq<char>) -> bool {
    l.len() >= 3 && l[0] == '-' && l[1] == '-' && l[2] == '-'
}

/// The lines of one document, joined back with newlines.
pub open spec fn spec_join_lines(ls: Seq<Seq<char>>) -> Seq<char>
    decreases ls.len(),
{
    if ls.len() == 0 {
        Seq::empty()
    } else if ls.len() == 1 {
        ls[0]
    } else {
        spec_join_lines(ls.drop_last()) + seq!['\n'] + ls.last()
    }
}

/// The documents found in `rest`, after `docs` are already complete and the
/// lines in `buf` are gathered toward the next one.
pub open spec fn split_documents_go(
    docs: Seq<Seq<char>>,
    buf: Seq<Seq<char>>,
    rest: Seq<Seq<char>>,
) -> Seq<Seq<char>>
    decreases rest.len(),
{
    if rest.len() == 0 {
        if buf.len() == 0 {
            docs
        } else {
            docs.push(spec_join_lines(buf))
        }
    } else if is_separator_line(rest[0]) && buf.len() > 0 {
        split_documents_go(docs.push(spec_join_lines(buf)), Seq::empty(), rest.drop_first())
    } else {
        split_documents_go(docs, buf.push(rest[0]), rest.drop_first())
    }
}

/// The documents stored in `text`: runs of lines ended by separator lines,
/// each run joined back with newlines; an empty run yields no document.
pub open spec fn spec_split_documents(text: Seq<char>) -> Seq<Seq<char>> {
    split_documents_go(Seq::empty(), Seq::empty(), spec_lines(text))
}

/// Decides whether the next line ends the document being gathered: it is a
/// separator line and something is already gathered.
pub fn doc_boundary(line: &str, buf_empty: bool) -> (r: bool)
    ensures
        r == (is_separator_line(line@) && !buf_empty),
{
    if buf_empty {
        return false;
    }
    let n = line.unicode_len();
    n >= 3 && line.get_char(0) == '-' && line.get_char(1) == '-' && line.get_char(2) == '-'
}

/// Joins gathered lines back into one document's text.
pub fn join_lines(lines: &Vec<String>) -> (r: String)
    ensures
        r@ == spec_join_lines(lines.deep_view()),
{
    let ghost ldv = lines.deep_view();
    let mut r = String::new();
    let mut i: usize = 0;
    proof {
        assert(ldv.subrange(0, 0) =~= Seq::<Seq<char>>::empty());
    }
    while i < lines.len()
        invariant
            i <= lines@.len(),
            lines.deep_view() == ldv,
            r@ == spec_join_lines(ldv.subrange(0, i as int)),
        decreases lines@.len() - i,
    {
        let ghost pre = r@;
        if i > 0 {
            r.append("\n");
        }
        r.append(lines[i].as_str());
        proof {
            reveal_strlit("\n");
            let sub = ldv.subrange(0, i as int + 1);
            assert(sub.drop_last() =~= ldv.subrange(0, i as int));
            assert(sub.last() == ldv[i as int]);
            assert(ldv[i as int] == lines@[i as int]@);
            if i > 0 {
                assert("\n"@ =~= seq!['\n']);
                assert(r@ == pre + seq!['\n'] + ldv[i as int]);
            } else {
                assert(r@ =~= ldv[0]);
            }
        }
        i += 1;
    }
    proof {
        assert(ldv.subrange(0, ldv.len() as int) =~= ldv);
    }
    r
}

/// Splits the text of a whole file into the documents stored in it.
pub fn split_documents(text: &str) -> (docs: Vec<String>)
    ensures
        docs.deep_view() == spec_split_documents(text@),
{
    let lines = split_lines(text);
    let ghost ldv = lines.deep_view();
    let mut docs: Vec<String> = Vec::new();
    let mut buf: Vec<String> = Vec::new();
    let mut i: usize = 0;
    proof {
        assert(docs.deep_view() =~= Seq::<Seq<char>>::empty());
        assert(buf.deep_view() =~= Seq::<Seq<char>>::empty());
        assert(ldv.subrange(0, ldv.len() as int) =~= ldv);
    }
    while i < lines.len()
        invariant
            i <= lines@.len(),
            lines.deep_view() == ldv,
            split_documents_go(
                docs.deep_view(),
                buf.deep_view(),
                ldv.subrange(i as int, ldv.len() as int),
            ) == spec_split_documents(text@),
        decreases lines@.len() - i,
    {
        let ghost pre_docs = docs.deep_view();
        let ghost pre_buf = buf.deep_view();
        let ghost rest = ldv.subrange(i as int, ldv.len() as int);
        proof {
            assert(rest[0] == ldv[i as int]);
            assert(ldv[i as int] == lines@[i as int]@);
            assert(rest.drop_first() =~= ldv.subrange(i as int + 1, ldv.len() as int));
        }
        let line = &lines[i];
        if doc_boundary(line.as_str(), buf.len() == 0) {
            let d = join_lines(&buf);
            docs.push(d);
            buf = Vec::new();
            proof {
                assert(docs.deep_view() =~= pre_docs.push(spec_join_lines(pre_buf)));
                assert(buf.deep_view() =~= Seq::<Seq<char>>::empty());
            }
        } else {
            buf.push(line.clone());
            proof {
                assert(buf.deep_view() =~= pre_buf.push(ldv[i as int]));
            }
        }
        i += 1;
    }
    proof {
        assert(ldv.subrange(ldv.len() as int, ldv.len() as int) =~= Seq::<Seq<char>>::empty());
    }
    if buf.len() > 0 {
        let ghost pre_docs = docs.deep_view();
        let d = join_lines(&buf);
        docs.push(d);
        proof {
            assert(docs.deep_view() =~= pre_docs.push(spec_join_lines(buf.deep_view())));
        }
    }
    docs
}

} // verus!
