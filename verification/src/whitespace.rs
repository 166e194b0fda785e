//! Whitespace at the ends of a piece of text.

use vstd::prelude::*;

verus! {

/// What `char::is_whitespace` answers for `c`.
pub uninterp spec fn is_whitespace(c: char) -> bool;

/// Calls `char::is_whitespace`. Nothing is claimed about which characters
/// count as whitespace, only that the answer depends on the character
/// alone, which the name [`is_whitespace`] stands for.
#[verifier::external_body]
pub(crate) fn char_is_whitespace(c: char) -> (r: bool)
    ensures
        r == is_whitespace(c),
{
    c.is_whitespace()
}

/// The number of whitespace characters that `s` starts with.
pub open spec fn leading_whitespace(s: Seq<char>) -> nat
    decreases s.len(),
{
    if s.len() > 0 && is_whitespace(s[0]) {
        1 + leading_whitespace(s.drop_first())
    } else {
        0
    }
}

/// The number of whitespace characters that `s` ends with.
pub open spec fn trailing_whitespace(s: Seq<char>) -> nat
    decreases s.len(),
{
    if s.len() > 0 && is_whitespace(s.last()) {
        1 + trailing_whitespace(s.drop_last())
    } else {
        0
    }
}

/// `s` without the whitespace it starts with and the whitespace it ends with.
pub open spec fn trimmed(s: Seq<char>) -> Seq<char> {
    let rest = s.skip(leading_whitespace(s) as int);
    rest.take(rest.len() - trailing_whitespace(rest))
}

/// A run of `n` whitespace characters at the start of `s`, followed by the end
/// of `s` or by a character that is no whitespace, is all the leading
/// whitespace of `s`.
pub proof fn lemma_leading_whitespace_is(s: Seq<char>, n: nat)
    requires
        n <= s.len(),
        forall|i: int| 0 <= i < n ==> is_whitespace(#[trigger] s[i]),
        n < s.len() ==> !is_whitespace(s[n as int]),
    ensures
        leading_whitespace(s) == n,
    decreases n,
{
    if n > 0 {
        let t = s.drop_first();
        assert forall|i: int| 0 <= i < n - 1 implies is_whitespace(#[trigger] t[i]) by {
            assert(t[i] == s[i + 1]);
        }
        if n < s.len() {
            assert(t[n - 1] == s[n as int]);
        }
        lemma_leading_whitespace_is(t, (n - 1) as nat);
    }
}

/// The same for the end of `s`.
pub proof fn lemma_trailing_whitespace_is(s: Seq<char>, n: nat)
    requires
        n <= s.len(),
        forall|i: int| s.len() - n <= i < s.len() ==> is_whitespace(#[trigger] s[i]),
        n < s.len() ==> !is_whitespace(s[s.len() - n - 1]),
    ensures
        trailing_whitespace(s) == n,
    decreases n,
{
    if n > 0 {
        let t = s.drop_last();
        assert forall|i: int| t.len() - (n - 1) <= i < t.len() implies is_whitespace(
            #[trigger] t[i],
        ) by {
            assert(t[i] == s[i]);
        }
        if n < s.len() {
            assert(t[t.len() - (n - 1) - 1] == s[s.len() - n - 1]);
        }
        lemma_trailing_whitespace_is(t, (n - 1) as nat);
    }
}

/// The leading whitespace of a line never exceeds the line.
pub proof fn lemma_leading_whitespace_bound(s: Seq<char>)
    ensures
        leading_whitespace(s) <= s.len(),
    decreases s.len(),
{
    if s.len() > 0 && is_whitespace(s[0]) {
        lemma_leading_whitespace_bound(s.drop_first());
    }
}

/// Whitespace put in front of a line adds its length to the line's leading
/// whitespace.
pub proof fn lemma_leading_whitespace_prefix(w: Seq<char>, s: Seq<char>)
    requires
        forall|i: int| 0 <= i < w.len() ==> is_whitespace(#[trigger] w[i]),
    ensures
        leading_whitespace(w + s) == w.len() + leading_whitespace(s),
    decreases w.len(),
{
    if w.len() == 0 {
        assert(w + s =~= s);
    } else {
        let t = w.drop_first();
        assert((w + s).drop_first() =~= t + s);
        assert((w + s)[0] == w[0]);
        assert forall|i: int| 0 <= i < t.len() implies is_whitespace(#[trigger] t[i]) by {
            assert(t[i] == w[i + 1]);
        }
        lemma_leading_whitespace_prefix(t, s);
    }
}

/// The number of whitespace characters that `line` starts with.
pub fn indent_width(line: &str) -> (n: usize)
    ensures
        n == leading_whitespace(line@),
{
    let len = line.unicode_len();
    let mut i: usize = 0;
    while i < len
        invariant
            i <= len,
            len == line@.len(),
            forall|j: int| 0 <= j < i ==> is_whitespace(#[trigger] line@[j]),
        ensures
            i <= len,
            forall|j: int| 0 <= j < i ==> is_whitespace(#[trigger] line@[j]),
            i < len ==> !is_whitespace(line@[i as int]),
        decreases len - i,
    {
        if !char_is_whitespace(line.get_char(i)) {
            break;
        }
        i += 1;
    }
    proof {
        lemma_leading_whitespace_is(line@, i as nat);
    }
    i
}

/// The number of whitespace characters that `line` ends with.
pub fn trailing_width(line: &str) -> (n: usize)
    ensures
        n == trailing_whitespace(line@),
{
    let len = line.unicode_len();
    let mut i: usize = 0;
    while i < len
        invariant
            i <= len,
            len == line@.len(),
            forall|j: int| len - i <= j < len ==> is_whitespace(#[trigger] line@[j]),
        ensures
            i <= len,
            forall|j: int| len - i <= j < len ==> is_whitespace(#[trigger] line@[j]),
            i < len ==> !is_whitespace(line@[len - i - 1]),
        decreases len - i,
    {
        if !char_is_whitespace(line.get_char(len - i - 1)) {
            break;
        }
        i += 1;
    }
    proof {
        lemma_trailing_whitespace_is(line@, i as nat);
    }
    i
}

/// `text` without the whitespace around it.
pub fn trim(text: &str) -> (r: String)
    ensures
        r@ == trimmed(text@),
{
    let len = text.unicode_len();
    let lead = indent_width(text);
    proof {
        lemma_leading_whitespace_bound(text@);
    }
    let rest = text.substring_char(lead, len);
    assert(rest@ == text@.skip(lead as int));
    let tail = trailing_width(rest);
    proof {
        lemma_trailing_whitespace_bound(rest@);
    }
    let kept = rest.substring_char(0, len - lead - tail);
    String::from_str(kept)
}

/// The trailing whitespace of a line never exceeds the line.
pub proof fn lemma_trailing_whitespace_bound(s: Seq<char>)
    ensures
        trailing_whitespace(s) <= s.len(),
    decreases s.len(),
{
    if s.len() > 0 && is_whitespace(s.last()) {
        lemma_trailing_whitespace_bound(s.drop_last());
    }
}

} // verus!
