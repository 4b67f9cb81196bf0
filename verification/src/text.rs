use vstd::prelude::*;
use vstd::string::StrSliceExecFns;

verus! {

/// `pat` stands in `text` at position `at`.
pub open spec fn occurs_at(text: Seq<char>, pat: Seq<char>, at: int) -> bool {
    0 <= at && at + pat.len() <= text.len() && text.subrange(at, at + pat.len()) == pat
}

/// `at` is the leftmost position at or after `from` where `pat` stands in `text`.
pub open spec fn is_first_match(text: Seq<char>, pat: Seq<char>, from: int, at: int) -> bool {
    &&& from <= at
    &&& occurs_at(text, pat, at)
    &&& forall|k: int| from <= k < at ==> !occurs_at(text, pat, k)
}

/// The leftmost position at or after `from` where `pat` stands in `text`.
pub open spec fn first_match(text: Seq<char>, pat: Seq<char>, from: int) -> Option<int> {
    if exists|at: int| is_first_match(text, pat, from, at) {
        Some(choose|at: int| is_first_match(text, pat, from, at))
    } else {
        None
    }
}

/// Where the search goes on after a match at `at`: behind the match, and one
/// character further on where the pattern is empty, so that the search moves.
pub open spec fn resume_after(at: int, pat_len: nat) -> int {
    if pat_len == 0 {
        at + 1
    } else {
        at + pat_len
    }
}

/// The text between the first two occurrences of `delimiter` in `content`
/// that do not overlap; `None` where there are no two.
pub open spec fn block_between(content: Seq<char>, delimiter: Seq<char>) -> Option<Seq<char>> {
    match first_match(content, delimiter, 0) {
        None => None,
        Some(open) => match first_match(content, delimiter, resume_after(open, delimiter.len())) {
            None => None,
            Some(close) => Some(content.subrange(open + delimiter.len(), close)),
        },
    }
}

/// A leftmost match is the only one.
pub proof fn lemma_first_match_unique(text: Seq<char>, pat: Seq<char>, from: int, a: int, b: int)
    requires
        is_first_match(text, pat, from, a),
        is_first_match(text, pat, from, b),
    ensures
        a == b,
{
}

/// `first_match` is `Some(at)` exactly where `at` is the leftmost match.
pub proof fn lemma_first_match_is(text: Seq<char>, pat: Seq<char>, from: int, at: int)
    ensures
        first_match(text, pat, from) == Some(at) <==> is_first_match(text, pat, from, at),
{
    if is_first_match(text, pat, from, at) {
        let found = choose|k: int| is_first_match(text, pat, from, k);
        lemma_first_match_unique(text, pat, from, found, at);
    }
}

/// `first_match` is `None` exactly where `pat` stands nowhere at or after `from`.
pub proof fn lemma_first_match_none(text: Seq<char>, pat: Seq<char>, from: int)
    ensures
        first_match(text, pat, from) is None <==> forall|k: int|
            from <= k ==> !occurs_at(text, pat, k),
{
    if exists|k: int| from <= k && occurs_at(text, pat, k) {
        let k = choose|k: int| from <= k && occurs_at(text, pat, k);
        lemma_some_match_has_first(text, pat, from, k);
    }
}

/// Where `pat` stands at `k`, there is a leftmost match at or before `k`.
proof fn lemma_some_match_has_first(text: Seq<char>, pat: Seq<char>, from: int, k: int)
    requires
        from <= k,
        occurs_at(text, pat, k),
    ensures
        exists|at: int| is_first_match(text, pat, from, at) && at <= k,
    decreases k - from,
{
    if exists|j: int| from <= j < k && occurs_at(text, pat, j) {
        let j = choose|j: int| from <= j < k && occurs_at(text, pat, j);
        lemma_some_match_has_first(text, pat, from, j);
    } else {
        assert(is_first_match(text, pat, from, k));
    }
}

/// `delimiter` stands in `content` at least twice, the second time behind the
/// first.
pub open spec fn occurs_twice(content: Seq<char>, delimiter: Seq<char>) -> bool {
    exists|first: int, second: int|
        occurs_at(content, delimiter, first) && occurs_at(content, delimiter, second)
            && resume_after(first, delimiter.len()) <= second
}

/// A document has a metadata block exactly where the delimiter occurs in it
/// twice: with fewer than two occurrences there is none.
pub proof fn lemma_block_needs_two_delimiters(content: Seq<char>, delimiter: Seq<char>)
    ensures
        block_between(content, delimiter) is Some <==> occurs_twice(content, delimiter),
{
    if block_between(content, delimiter) is Some {
        let open = first_match(content, delimiter, 0)->0;
        let resume = resume_after(open, delimiter.len());
        let close = first_match(content, delimiter, resume)->0;
        lemma_first_match_is(content, delimiter, 0, open);
        lemma_first_match_is(content, delimiter, resume, close);
        assert(occurs_at(content, delimiter, open) && occurs_at(content, delimiter, close)
            && resume_after(open, delimiter.len()) <= close);
    }
    if occurs_twice(content, delimiter) {
        let (first, second) = choose|first: int, second: int|
            occurs_at(content, delimiter, first) && occurs_at(content, delimiter, second)
                && resume_after(first, delimiter.len()) <= second;
        lemma_first_match_none(content, delimiter, 0);
        let open = first_match(content, delimiter, 0)->0;
        lemma_first_match_is(content, delimiter, 0, open);
        lemma_first_match_none(content, delimiter, resume_after(open, delimiter.len()));
    }
}

/// The characters of a string, one by one.
pub fn chars_of(text: &str) -> (chars: Vec<char>)
    ensures
        chars@ == text@,
{
    let mut chars: Vec<char> = Vec::new();
    for c in it: text.chars()
        invariant
            chars@ == it.seq().take(it.index()),
            it.seq() == text@,
    {
        chars.push(c);
    }
    chars
}

/// Whether `pat` stands in `text` at `at`.
pub fn matches_at(text: &Vec<char>, pat: &Vec<char>, at: usize) -> (found: bool)
    ensures
        found == occurs_at(text@, pat@, at as int),
{
    if at > text.len() || pat.len() > text.len() - at {
        return false;
    }
    let mut i: usize = 0;
    while i < pat.len()
        invariant
            i <= pat.len(),
            at + pat.len() <= text.len(),
            text@.subrange(at as int, at + i) == pat@.take(i as int),
        decreases pat.len() - i,
    {
        if text[at + i] != pat[i] {
            assert(text@.subrange(at as int, at + pat.len())[i as int] == text@[at + i]);
            return false;
        }
        assert(text@.subrange(at as int, at + i + 1) == text@.subrange(at as int, at + i).push(
            text@[at + i],
        ));
        assert(pat@.take(i + 1) == pat@.take(i as int).push(pat@[i as int]));
        i += 1;
    }
    assert(pat@.take(pat.len() as int) == pat@);
    true
}

/// The leftmost position at or after `from` where `pat` stands in `text`.
pub fn find_from(text: &Vec<char>, pat: &Vec<char>, from: usize) -> (found: Option<usize>)
    ensures
        found matches Some(at) ==> first_match(text@, pat@, from as int) == Some(at as int),
        found is None ==> first_match(text@, pat@, from as int) is None,
{
    let mut at: usize = from;
    while at < text.len()
        invariant
            from <= at,
            forall|k: int| from <= k < at ==> !occurs_at(text@, pat@, k),
        decreases text.len() - at,
    {
        if matches_at(text, pat, at) {
            proof {
                lemma_first_match_is(text@, pat@, from as int, at as int);
            }
            return Some(at);
        }
        at += 1;
    }
    if at == text.len() && matches_at(text, pat, at) {
        proof {
            lemma_first_match_is(text@, pat@, from as int, at as int);
        }
        return Some(at);
    }
    proof {
        lemma_first_match_none(text@, pat@, from as int);
    }
    None
}

/// The metadata block of a document: the text between the first two
/// occurrences of the delimiter. What stands before the first occurrence and
/// behind the second plays no part.
pub fn metadata_block<'a>(content: &'a str, delimiter: &str) -> (block: Option<&'a str>)
    ensures
        block matches Some(text) ==> block_between(content@, delimiter@) == Some(text@),
        block is None ==> block_between(content@, delimiter@) is None,
{
    let text = chars_of(content);
    let pat = chars_of(delimiter);
    let open = match find_from(&text, &pat, 0) {
        Some(open) => open,
        None => {
            return None;
        },
    };
    proof {
        lemma_first_match_is(text@, pat@, 0, open as int);
    }
    assert(open + pat.len() <= text.len());
    let start: usize = open + pat.len();
    let resume: usize = if pat.len() == 0 {
        if open == text.len() {
            proof {
                lemma_first_match_none(text@, pat@, open + 1);
            }
            return None;
        }
        open + 1
    } else {
        start
    };
    match find_from(&text, &pat, resume) {
        Some(close) => {
            proof {
                lemma_first_match_is(text@, pat@, resume as int, close as int);
            }
            Some(content.substring_char(start, close))
        },
        None => None,
    }
}

} // verus!
