//! Matching a text against a pattern, as SQL's `LIKE` does without an
//! escape character: `%` stands for any run of characters, also none, `_`
//! for any one character, and every other character for itself.

use vstd::prelude::*;
use vstd::std_specs::iter::IteratorSpec;
use vstd::string::{StrSliceExecFns, StringExecFns};

verus! {

/// Whether the characters of `text` from `i` on match the characters of
/// `pattern` from `j` on.
pub open spec fn like_from(text: Seq<char>, pattern: Seq<char>, i: int, j: int) -> bool
    decreases pattern.len() - j, text.len() - i,
{
    if j >= pattern.len() {
        i >= text.len()
    } else if pattern[j] == '%' {
        like_from(text, pattern, i, j + 1) || (i < text.len() && like_from(text, pattern, i + 1, j))
    } else {
        i < text.len() && (pattern[j] == '_' || pattern[j] == text[i]) && like_from(text, pattern, i + 1, j + 1)
    }
}

/// Whether the whole of `text` matches `pattern`.
pub open spec fn like(text: Seq<char>, pattern: Seq<char>) -> bool {
    like_from(text, pattern, 0, 0)
}

/// The characters of a text, one by one.
pub fn chars_of(text: &str) -> (chars: Vec<char>)
    ensures
        chars@ == text@,
{
    broadcast use vstd::string::group_string_axioms;

    let mut chars: Vec<char> = Vec::new();
    let mut rest = text.chars();
    loop
        invariant
            chars@ + rest.remaining() == text@,
            rest.decrease() is Some,
        decreases rest.decrease()->0,
    {
        let ghost before = rest.remaining();
        match rest.next() {
            Some(c) => {
                chars.push(c);
                assert(chars@ + rest.remaining() =~= text@) by {
                    assert(before =~= seq![c] + before.drop_first());
                }
            },
            None => {
                assert(chars@ =~= text@);
                return chars;
            },
        }
    }
}

/// Whether `text` matches `pattern`, both given by their characters.
///
/// Works through the pattern from its end: for each place in the pattern
/// it keeps, for each place in the text, whether the rest of the text
/// matches the rest of the pattern.
pub fn like_chars(text: &Vec<char>, pattern: &Vec<char>) -> (matches: bool)
    ensures
        matches == like(text@, pattern@),
{
    let n = text.len();
    let m = pattern.len();
    let mut row: Vec<bool> = Vec::new();
    let mut k: usize = 0;
    while k < n
        invariant
            k <= n,
            n == text@.len(),
            m == pattern@.len(),
            row@.len() == k,
            forall|i: int| 0 <= i < k ==> row@[i] == like_from(text@, pattern@, i, m as int),
        decreases n - k,
    {
        row.push(false);
        k += 1;
    }
    let mut end = true;
    let mut j: usize = m;
    while j > 0
        invariant
            j <= m,
            n == text@.len(),
            m == pattern@.len(),
            row@.len() == n,
            forall|i: int| 0 <= i < n ==> row@[i] == like_from(text@, pattern@, i, j as int),
            end == like_from(text@, pattern@, n as int, j as int),
        decreases j,
    {
        j -= 1;
        let c = pattern[j];
        let mut next_old = end;
        let mut next_new = c == '%' && end;
        end = next_new;
        let mut i: usize = n;
        while i > 0
            invariant
                i <= n,
                j < m,
                n == text@.len(),
                m == pattern@.len(),
                row@.len() == n,
                c == pattern@[j as int],
                forall|k: int| i <= k < n ==> row@[k] == like_from(text@, pattern@, k, j as int),
                forall|k: int| 0 <= k < i ==> row@[k] == like_from(text@, pattern@, k, j + 1),
                next_old == like_from(text@, pattern@, i as int, j + 1),
                next_new == like_from(text@, pattern@, i as int, j as int),
            decreases i,
        {
            i -= 1;
            let old_here = row[i];
            let new_here = if c == '%' {
                old_here || next_new
            } else {
                (c == '_' || c == text[i]) && next_old
            };
            row.set(i, new_here);
            next_old = old_here;
            next_new = new_here;
        }
    }
    if n == 0 {
        end
    } else {
        row[0]
    }
}

/// Whether `text` matches `pattern`.
pub fn matches_pattern(text: &str, pattern: &str) -> (matches: bool)
    ensures
        matches == like(text@, pattern@),
{
    let text_chars = chars_of(text);
    let pattern_chars = chars_of(pattern);
    like_chars(&text_chars, &pattern_chars)
}

/// A pattern with each backslash written twice.
pub open spec fn doubled_backslashes(pattern: Seq<char>) -> Seq<char>
    decreases pattern.len(),
{
    if pattern.len() == 0 {
        pattern
    } else if pattern.last() == '\\' {
        doubled_backslashes(pattern.drop_last()) + seq!['\\', '\\']
    } else {
        doubled_backslashes(pattern.drop_last()).push(pattern.last())
    }
}

/// Writes a pattern for a database that reads a backslash in a pattern as
/// an escape: each backslash twice, so that it stands for itself there as
/// it does here.
pub fn escape_backslashes(pattern: &str) -> (escaped: String)
    ensures
        escaped@ == doubled_backslashes(pattern@),
{
    let chars = chars_of(pattern);
    let mut escaped = String::new();
    let mut i: usize = 0;
    proof {
        assert(pattern@.take(0) =~= Seq::<char>::empty());
    }
    while i < chars.len()
        invariant
            i <= chars@.len(),
            chars@ == pattern@,
            escaped@ == doubled_backslashes(pattern@.take(i as int)),
        decreases chars.len() - i,
    {
        proof {
            let upto = pattern@.take(i + 1);
            assert(upto.drop_last() =~= pattern@.take(i as int));
            assert(upto.last() == pattern@[i as int]);
        }
        let ghost before = escaped@;
        if chars[i] == '\\' {
            proof {
                reveal_strlit("\\\\");
            }
            escaped.append("\\\\");
            assert(escaped@ =~= before + seq!['\\', '\\']);
        } else {
            escaped.append(pattern.substring_char(i, i + 1));
            assert(escaped@ =~= before.push(pattern@[i as int]));
        }
        i += 1;
    }
    assert(pattern@.take(chars@.len() as int) =~= pattern@);
    escaped
}

/// A pattern without `%` and `_` matches itself and nothing else.
pub proof fn lemma_plain_pattern_is_equality(text: Seq<char>, pattern: Seq<char>)
    requires
        forall|j: int| 0 <= j < pattern.len() ==> pattern[j] != '%' && pattern[j] != '_',
    ensures
        like(text, pattern) <==> text == pattern,
{
    lemma_plain_suffix(text, pattern, 0, 0);
    assert(text.skip(0) =~= text && pattern.skip(0) =~= pattern);
}

proof fn lemma_plain_suffix(text: Seq<char>, pattern: Seq<char>, i: int, j: int)
    requires
        0 <= i <= text.len(),
        0 <= j <= pattern.len(),
        forall|k: int| 0 <= k < pattern.len() ==> pattern[k] != '%' && pattern[k] != '_',
    ensures
        like_from(text, pattern, i, j) <==> text.skip(i) == pattern.skip(j),
    decreases pattern.len() - j,
{
    let t = text.skip(i);
    let p = pattern.skip(j);
    if j == pattern.len() {
        assert(p.len() == 0);
        if i == text.len() {
            assert(t =~= p);
        } else {
            assert(t.len() > 0);
        }
    } else if i == text.len() {
        assert(t.len() == 0 && p.len() > 0);
    } else {
        lemma_plain_suffix(text, pattern, i + 1, j + 1);
        assert(t[0] == text[i] && p[0] == pattern[j]);
        assert(text.skip(i + 1) =~= t.drop_first());
        assert(pattern.skip(j + 1) =~= p.drop_first());
        if t.drop_first() == p.drop_first() && t[0] == p[0] {
            assert(t.len() == t.drop_first().len() + 1 && p.len() == p.drop_first().len() + 1);
            assert forall|k: int| 0 <= k < t.len() implies t[k] == p[k] by {
                if k > 0 {
                    assert(t[k] == t.drop_first()[k - 1] && p[k] == p.drop_first()[k - 1]);
                }
            }
            assert(t =~= p);
        }
    }
}

/// The pattern `%` matches every text.
pub proof fn lemma_percent_matches_all(text: Seq<char>)
    ensures
        like(text, seq!['%']),
{
    lemma_percent_suffix(text, 0);
}

proof fn lemma_percent_suffix(text: Seq<char>, i: int)
    requires
        0 <= i <= text.len(),
    ensures
        like_from(text, seq!['%'], i, 0),
    decreases text.len() - i,
{
    let pattern = seq!['%'];
    if i < text.len() {
        lemma_percent_suffix(text, i + 1);
    } else {
        assert(like_from(text, pattern, i, 1));
    }
}

} // verus!
