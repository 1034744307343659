//! The key recognizer: deciding from one physical line of structured text
//! whether it opens a mapping key and, if so, which text names the key and at
//! which column it begins.
//!
//! The decision is a single conceptual scan: control characters are ignored;
//! leading whitespace, block-sequence markers (`-`) and explicit-key markers
//! (`?`) are skipped until the key starts; a comment marker (`#`) seen before
//! the key is bounded by a colon disqualifies the line; a colon ends the key,
//! and a later colon moves that end. Quoted keys and escapes are not
//! understood; a key containing `:` or `#` may be mis-bounded, a documented
//! limitation.

use vstd::prelude::*;
use vstd::string::StrSliceExecFns;
use vstd::string::StringExecFns;

use crate::chars::char_is_control;
use crate::chars::char_is_whitespace;
use crate::chars::is_control_char;
use crate::chars::is_whitespace_char;

verus! {

/// Characters skipped while looking for the start of a key name: leading
/// markers and whitespace.
pub open spec fn is_skip_char(c: char) -> bool {
    c == '-' || c == '?' || is_whitespace_char(c)
}

/// A character that can begin a key name: neither a control code nor a
/// skipped leading marker.
pub open spec fn is_content_char(c: char) -> bool {
    !is_control_char(c) && !is_skip_char(c)
}

/// The position of the first `:` at or after position `i`.
pub open spec fn find_colon_from(s: Seq<char>, i: int) -> Option<int>
    decreases s.len() - i when 0 <= i <= s.len()
{
    if i >= s.len() {
        None
    } else if s[i] == ':' {
        Some(i)
    } else {
        find_colon_from(s, i + 1)
    }
}

/// The position of the first `#` at or after position `i`.
pub open spec fn find_hash_from(s: Seq<char>, i: int) -> Option<int>
    decreases s.len() - i when 0 <= i <= s.len()
{
    if i >= s.len() {
        None
    } else if s[i] == '#' {
        Some(i)
    } else {
        find_hash_from(s, i + 1)
    }
}

/// The position of the first content character at or after position `i`.
pub open spec fn find_content_from(s: Seq<char>, i: int) -> Option<int>
    decreases s.len() - i when 0 <= i <= s.len()
{
    if i >= s.len() {
        None
    } else if is_content_char(s[i]) {
        Some(i)
    } else {
        find_content_from(s, i + 1)
    }
}

/// The position of the last `:` strictly before position `i`.
pub open spec fn find_last_colon_before(s: Seq<char>, i: int) -> Option<int>
    decreases i when 0 <= i <= s.len()
{
    if i <= 0 {
        None
    } else if s[i - 1] == ':' {
        Some(i - 1)
    } else {
        find_last_colon_before(s, i - 1)
    }
}

pub proof fn lemma_find_colon_from(s: Seq<char>, i: int)
    requires
        0 <= i <= s.len(),
    ensures
        match find_colon_from(s, i) {
            Some(j) => i <= j < s.len() && s[j] == ':' && (forall|k: int|
                i <= k < j ==> s[k] != ':'),
            None => forall|k: int| i <= k < s.len() ==> s[k] != ':',
        },
    decreases s.len() - i,
{
    if i < s.len() && s[i] != ':' {
        lemma_find_colon_from(s, i + 1);
    }
}

pub proof fn lemma_find_hash_from(s: Seq<char>, i: int)
    requires
        0 <= i <= s.len(),
    ensures
        match find_hash_from(s, i) {
            Some(j) => i <= j < s.len() && s[j] == '#' && (forall|k: int|
                i <= k < j ==> s[k] != '#'),
            None => forall|k: int| i <= k < s.len() ==> s[k] != '#',
        },
    decreases s.len() - i,
{
    if i < s.len() && s[i] != '#' {
        lemma_find_hash_from(s, i + 1);
    }
}

pub proof fn lemma_find_content_from(s: Seq<char>, i: int)
    requires
        0 <= i <= s.len(),
    ensures
        match find_content_from(s, i) {
            Some(j) => i <= j < s.len() && is_content_char(s[j]) && (forall|k: int|
                i <= k < j ==> !is_content_char(s[k])),
            None => forall|k: int| i <= k < s.len() ==> !is_content_char(s[k]),
        },
    decreases s.len() - i,
{
    if i < s.len() && !is_content_char(s[i]) {
        lemma_find_content_from(s, i + 1);
    }
}

pub proof fn lemma_find_last_colon_before(s: Seq<char>, i: int)
    requires
        0 <= i <= s.len(),
    ensures
        match find_last_colon_before(s, i) {
            Some(j) => 0 <= j < i && s[j] == ':' && (forall|k: int|
                j < k < i ==> s[k] != ':'),
            None => forall|k: int| 0 <= k < i ==> s[k] != ':',
        },
    decreases i,
{
    if i > 0 && s[i - 1] != ':' {
        lemma_find_last_colon_before(s, i - 1);
    }
}

/// The key that one line opens, if any: the key's text and the column where
/// it begins.
///
/// A line opens a key when it holds a colon, no `#` stands before the first
/// colon, and some content character stands before the first colon. The key
/// then runs from the first content character up to (not including) the last
/// colon of the line, and the column is the position of that first content
/// character.
pub open spec fn spec_recognize(s: Seq<char>) -> Option<(Seq<char>, int)> {
    match find_colon_from(s, 0) {
        None => None,
        Some(fc) => {
            let hash_first = match find_hash_from(s, 0) {
                Some(fh) => fh < fc,
                None => false,
            };
            if hash_first {
                None
            } else {
                match find_content_from(s, 0) {
                    None => None,
                    Some(st) => {
                        if st == fc {
                            None
                        } else {
                            match find_last_colon_before(s, s.len() as int) {
                                None => None,
                                Some(lc) => Some((s.subrange(st, lc), st)),
                            }
                        }
                    },
                }
            }
        },
    }
}

/// Law: a line without a colon never opens a key.
pub proof fn lemma_no_colon_no_key(s: Seq<char>)
    requires
        forall|k: int| 0 <= k < s.len() ==> s[k] != ':',
    ensures
        spec_recognize(s) is None,
{
    lemma_find_colon_from(s, 0);
}

/// Law: a line whose first non-control character is the comment marker never
/// opens a key.
pub proof fn lemma_comment_line_no_key(s: Seq<char>, h: int)
    requires
        0 <= h < s.len(),
        s[h] == '#',
        forall|k: int| 0 <= k < h ==> is_control_char(s[k]),
    ensures
        spec_recognize(s) is None,
{
    lemma_find_colon_from(s, 0);
    lemma_find_hash_from(s, 0);
    assert(!is_control_char(':'));
    assert(!is_control_char('#'));
}

/// Law: a line made of skippable indentation, a key name that holds no colon
/// and no comment marker and begins with a content character, a colon, and a
/// colon-free suffix, is recognized as exactly that key name, at a column
/// equal to the indentation's width.
pub proof fn lemma_key_line_recognized(ind: Seq<char>, name: Seq<char>, suffix: Seq<char>)
    requires
        forall|k: int| 0 <= k < ind.len() ==> is_control_char(ind[k]) || is_skip_char(ind[k]),
        name.len() > 0,
        is_content_char(name[0]),
        forall|k: int| 0 <= k < name.len() ==> name[k] != ':' && name[k] != '#',
        forall|k: int| 0 <= k < suffix.len() ==> suffix[k] != ':',
    ensures
        spec_recognize(ind + name + seq![':'] + suffix) == Some((name, ind.len() as int)),
{
    let s = ind + name + seq![':'] + suffix;
    let w = ind.len() as int;
    let ci = w + name.len();
    assert(s.len() == ind.len() + name.len() + 1 + suffix.len());
    assert(forall|k: int| 0 <= k < ind.len() ==> s[k] == ind[k]);
    assert(forall|k: int| 0 <= k < name.len() ==> s[w + k] == name[k]);
    assert(s[ci] == ':');
    assert(forall|k: int| 0 <= k < suffix.len() ==> s[ci + 1 + k] == suffix[k]);
    assert(!is_control_char(':') && !is_skip_char(':'));
    assert(!is_control_char('#') && !is_skip_char('#'));
    assert(forall|k: int| 0 <= k < ci ==> s[k] != ':') by {
        assert(forall|k: int| w <= k < ci ==> s[k] == name[k - w]);
    }
    assert(forall|k: int| 0 <= k < ci ==> s[k] != '#') by {
        assert(forall|k: int| w <= k < ci ==> s[k] == name[k - w]);
    }
    assert(forall|k: int| ci < k < s.len() ==> s[k] != ':') by {
        assert(forall|k: int| ci < k < s.len() ==> s[k] == suffix[k - ci - 1]);
    }
    assert(forall|k: int| 0 <= k < w ==> !is_content_char(s[k]));
    assert(is_content_char(s[w]));
    lemma_find_colon_from(s, 0);
    assert(find_colon_from(s, 0) == Some(ci));
    lemma_find_hash_from(s, 0);
    lemma_find_content_from(s, 0);
    assert(find_content_from(s, 0) == Some(w));
    lemma_find_last_colon_before(s, s.len() as int);
    assert(find_last_colon_before(s, s.len() as int) == Some(ci));
    assert(s.subrange(w, ci) =~= name);
}

/// A recognized key: its text, with no surrounding structural syntax, and
/// the column (character offset) where it begins on its line. The column is
/// used as the indentation width of injected comments.
#[derive(Debug)]
pub struct KeyData {
    /// The text of the key.
    pub str: String,
    /// The column where the key begins.
    pub start: usize,
}

impl PartialEq for KeyData {
    fn eq(&self, other: &KeyData) -> (r: bool) {
        self.str == other.str && self.start == other.start
    }
}

impl Eq for KeyData {

}

impl vstd::std_specs::cmp::PartialEqSpecImpl for KeyData {
    open spec fn obeys_eq_spec() -> bool {
        true
    }

    open spec fn eq_spec(&self, other: &KeyData) -> bool {
        self.str@ == other.str@ && self.start == other.start
    }
}

fn find_first_colon(line: &str, n: usize) -> (r: Option<usize>)
    requires
        n == line@.len(),
    ensures
        match r {
            Some(j) => find_colon_from(line@, 0) == Some(j as int),
            None => find_colon_from(line@, 0) is None,
        },
{
    let mut i: usize = 0;
    while i < n
        invariant
            i <= n,
            n == line@.len(),
            find_colon_from(line@, 0) == find_colon_from(line@, i as int),
        decreases n - i,
    {
        if line.get_char(i) == ':' {
            return Some(i);
        }
        i += 1;
    }
    None
}

fn find_first_hash(line: &str, n: usize) -> (r: Option<usize>)
    requires
        n == line@.len(),
    ensures
        match r {
            Some(j) => find_hash_from(line@, 0) == Some(j as int),
            None => find_hash_from(line@, 0) is None,
        },
{
    let mut i: usize = 0;
    while i < n
        invariant
            i <= n,
            n == line@.len(),
            find_hash_from(line@, 0) == find_hash_from(line@, i as int),
        decreases n - i,
    {
        if line.get_char(i) == '#' {
            return Some(i);
        }
        i += 1;
    }
    None
}

fn find_content_start(line: &str, n: usize) -> (r: Option<usize>)
    requires
        n == line@.len(),
    ensures
        match r {
            Some(j) => find_content_from(line@, 0) == Some(j as int),
            None => find_content_from(line@, 0) is None,
        },
{
    let mut i: usize = 0;
    while i < n
        invariant
            i <= n,
            n == line@.len(),
            find_content_from(line@, 0) == find_content_from(line@, i as int),
        decreases n - i,
    {
        let c = line.get_char(i);
        if !char_is_control(c) && c != '-' && c != '?' && !char_is_whitespace(c) {
            return Some(i);
        }
        i += 1;
    }
    None
}

fn find_last_colon(line: &str, n: usize) -> (r: Option<usize>)
    requires
        n == line@.len(),
    ensures
        match r {
            Some(j) => find_last_colon_before(line@, n as int) == Some(j as int),
            None => find_last_colon_before(line@, n as int) is None,
        },
{
    let mut i: usize = n;
    while i > 0
        invariant
            i <= n,
            n == line@.len(),
            find_last_colon_before(line@, n as int) == find_last_colon_before(line@, i as int),
        decreases i,
    {
        if line.get_char(i - 1) == ':' {
            return Some(i - 1);
        }
        i -= 1;
    }
    None
}

/// Recognizes the mapping key that `line` opens, if any: the key's text and
/// the column where it begins.
pub fn get_key_name(line: &str) -> (r: Option<KeyData>)
    ensures
        match r {
            Some(k) => spec_recognize(line@) == Some((k.str@, k.start as int)),
            None => spec_recognize(line@) is None,
        },
{
    let n = line.unicode_len();
    let fc = match find_first_colon(line, n) {
        Some(fc) => fc,
        None => {
            return None;
        },
    };
    match find_first_hash(line, n) {
        Some(fh) => {
            if fh < fc {
                return None;
            }
        },
        None => {},
    }
    let st = match find_content_start(line, n) {
        Some(st) => st,
        None => {
            return None;
        },
    };
    if st == fc {
        return None;
    }
    let lc = match find_last_colon(line, n) {
        Some(lc) => lc,
        None => {
            return None;
        },
    };
    proof {
        lemma_find_colon_from(line@, 0);
        lemma_find_content_from(line@, 0);
        lemma_find_last_colon_before(line@, n as int);
        assert(is_content_char(':'));
        assert(st < fc);
        assert(fc <= lc);
    }
    let text = String::from_str(line.substring_char(st, lc));
    Some(KeyData { str: text, start: st })
}

} // verus!
