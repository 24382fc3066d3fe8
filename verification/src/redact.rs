//! Keeping the access token of an Editor out of what is handed on.
use vstd::prelude::*;
use vstd::string::*;

use crate::text::{contains, replace};

verus! {

/// What stands in the place of the token.
pub open spec fn mark() -> Seq<char> {
    "[redacted]"@
}

/// A text with the token taken out of it.
pub open spec fn scrubbed(text: Seq<char>, token: Option<Seq<char>>) -> Seq<char> {
    match token {
        Some(t) => if t.len() > 0 && crate::text::contains_seq(text, t) {
            crate::text::replace_of(text, t, mark())
        } else {
            text
        },
        None => text,
    }
}

/// A text with the token taken out of it.
pub fn scrub(text: &str, token: Option<&str>) -> (r: String)
    ensures
        r@ == scrubbed(text@, crate::text::opt_str_view(token)),
{
    match token {
        Some(t) => if !t.is_empty() && contains(text, t) {
            replace(text, t, "[redacted]")
        } else {
            text.to_owned()
        },
        None => text.to_owned(),
    }
}

/// The parts of `s` from `from` on between the occurrences of the token, read from left to right
/// without overlap.
pub open spec fn parts_from(s: Seq<char>, t: Seq<char>, from: int) -> Seq<Seq<char>>
    decreases s.len() - from,
{
    match crate::text::find_seq(s, t, from) {
        Some(i) => if 0 <= from <= i && i + t.len() <= s.len() && t.len() > 0 {
            seq![s.subrange(from, i)] + parts_from(s, t, (i + t.len()) as int)
        } else {
            seq![s.skip(from)]
        },
        None => seq![s.skip(from)],
    }
}

proof fn lemma_joined(part: Seq<char>, rest: Seq<Seq<char>>, sep: Seq<char>)
    requires
        rest.len() > 0,
    ensures
        crate::text::join_of(seq![part] + rest, sep) == part + sep + crate::text::join_of(
            rest,
            sep,
        ),
    decreases rest.len(),
{
    let all = seq![part] + rest;
    assert(all.last() == rest.last());
    if rest.len() == 1 {
        assert(all.drop_last() =~= seq![part]);
        assert(rest.drop_last() =~= seq![]);
        assert(crate::text::join_of(seq![part], sep) =~= part);
        assert(crate::text::join_of(rest, sep) =~= rest[0]);
    } else {
        assert(all.drop_last() =~= seq![part] + rest.drop_last());
        lemma_joined(part, rest.drop_last(), sep);
    }
    assert(crate::text::join_of(all, sep) =~= part + sep + crate::text::join_of(rest, sep));
}

proof fn lemma_parts(s: Seq<char>, t: Seq<char>, by: Seq<char>, from: int)
    requires
        0 <= from <= s.len(),
        t.len() > 0,
    ensures
        parts_from(s, t, from).len() > 0,
        crate::text::join_of(parts_from(s, t, from), t) == s.skip(from),
        crate::text::join_of(parts_from(s, t, from), by) == crate::text::replace_from(
            s,
            t,
            by,
            from,
        ),
        forall|k: int|
            0 <= k < parts_from(s, t, from).len() ==> !crate::text::contains_seq(
                #[trigger] parts_from(s, t, from)[k],
                t,
            ),
    decreases s.len() - from,
{
    let n = t.len() as int;
    crate::text::lemma_find_seq(s, t, from);
    let parts = parts_from(s, t, from);
    let end = match crate::text::find_seq(s, t, from) {
        Some(i) => i,
        None => s.len() as int,
    };
    let part = s.subrange(from, end);
    assert forall|j: int| !crate::text::occurs_at(part, t, j) by {
        if crate::text::occurs_at(part, t, j) {
            assert(s.subrange(from + j, from + j + n) =~= part.subrange(j, j + n));
            assert(crate::text::occurs_at(s, t, from + j));
        }
    }
    match crate::text::find_seq(s, t, from) {
        Some(i) => {
            let rest = parts_from(s, t, i + n);
            lemma_parts(s, t, by, i + n);
            lemma_joined(part, rest, t);
            lemma_joined(part, rest, by);
            assert(s.skip(from) =~= part + t + s.skip(i + n));
            assert forall|k: int| 0 <= k < parts.len() implies !crate::text::contains_seq(
                #[trigger] parts[k],
                t,
            ) by {
                if k > 0 {
                    assert(parts[k] == rest[k - 1]);
                }
            }
        },
        None => {
            assert(part =~= s.skip(from));
            assert(parts =~= seq![part]);
            assert(crate::text::join_of(parts, t) =~= part);
            assert(crate::text::join_of(parts, by) =~= part);
        },
    }
}

/// Every token in a text is replaced by the mark, whatever the text and the token are: the text is
/// some parts that are without the token, with the token between each two, and becomes the same
/// parts with the mark between each two.
pub proof fn every_token_is_marked(text: Seq<char>, token: Seq<char>)
    requires
        token.len() > 0,
    ensures
        exists|parts: Seq<Seq<char>>|
            {
                &&& text == #[trigger] crate::text::join_of(parts, token)
                &&& scrubbed(text, Some(token)) == crate::text::join_of(parts, mark())
                &&& forall|k: int|
                    0 <= k < parts.len() ==> !crate::text::contains_seq(#[trigger] parts[k], token)
            },
{
    let parts = parts_from(text, token, 0);
    lemma_parts(text, token, mark(), 0);
    crate::text::lemma_contains_find(text, token);
    assert(text.skip(0) =~= text);
    assert(text == crate::text::join_of(parts, token));
}

/// Laid over each other so that the token starts `d` characters behind the start of the mark, the
/// two disagree in some place.
pub open spec fn disagree(t: Seq<char>, m: Seq<char>, d: int) -> bool {
    exists|k: int| 0 <= k < t.len() && 0 <= d + k < m.len() && #[trigger] t[k] != m[d + k]
}

/// No part of the mark can be taken for a part of the token: wherever the two overlap, they
/// disagree.
pub open spec fn distinct_from_mark(t: Seq<char>) -> bool {
    forall|d: int| -t.len() < d < mark().len() ==> #[trigger] disagree(t, mark(), d)
}

proof fn lemma_replaced_is_clean(s: Seq<char>, t: Seq<char>, from: int, p: int)
    requires
        0 <= from <= s.len(),
        t.len() > 0,
        distinct_from_mark(t),
    ensures
        !crate::text::occurs_at(crate::text::replace_from(s, t, mark(), from), t, p),
    decreases s.len() - from,
{
    let m = mark();
    let n = t.len() as int;
    let out = crate::text::replace_from(s, t, m, from);
    crate::text::lemma_find_seq(s, t, from);
    if crate::text::occurs_at(out, t, p) {
        match crate::text::find_seq(s, t, from) {
            None => {
                assert(out == s.skip(from));
                assert(s.subrange(from + p, from + p + n) =~= out.subrange(p, p + n));
                assert(crate::text::occurs_at(s, t, from + p));
            },
            Some(i) => {
                let gap = s.subrange(from, i);
                let rest = crate::text::replace_from(s, t, m, i + n);
                assert(out == gap + m + rest);
                if p + n <= gap.len() {
                    assert(s.subrange(from + p, from + p + n) =~= out.subrange(p, p + n));
                    assert(crate::text::occurs_at(s, t, from + p));
                } else if p < gap.len() + m.len() {
                    let d = p - gap.len();
                    assert(disagree(t, m, d));
                    let k = choose|k: int|
                        0 <= k < t.len() && 0 <= d + k < m.len() && #[trigger] t[k] != m[d + k];
                    assert(out.subrange(p, p + n)[k] == out[p + k]);
                    assert(out[p + k] == m[d + k]);
                } else {
                    let q = p - gap.len() - m.len();
                    assert(rest.subrange(q, q + n) =~= out.subrange(p, p + n));
                    lemma_replaced_is_clean(s, t, i + n, q);
                }
            },
        }
    }
}

/// A token that cannot be confused with the mark does not occur in any text that it was taken out
/// of.
pub proof fn scrubbed_text_holds_no_token(text: Seq<char>, token: Seq<char>)
    requires
        token.len() > 0,
        distinct_from_mark(token),
    ensures
        !crate::text::contains_seq(scrubbed(text, Some(token)), token),
{
    let out = scrubbed(text, Some(token));
    if crate::text::contains_seq(text, token) {
        assert forall|p: int| !crate::text::occurs_at(out, token, p) by {
            lemma_replaced_is_clean(text, token, 0, p);
        }
    }
}

/// A token without square brackets cannot be confused with the mark, unless it stands within the
/// word between its brackets.
pub proof fn ordinary_tokens_are_distinct(token: Seq<char>)
    requires
        token.len() > 0,
        !token.contains('['),
        !token.contains(']'),
        !crate::text::contains_seq("redacted"@, token),
    ensures
        distinct_from_mark(token),
{
    let m = mark();
    let word = "redacted"@;
    reveal_strlit("[redacted]");
    reveal_strlit("redacted");
    assert forall|d: int| -token.len() < d < m.len() implies #[trigger] disagree(token, m, d) by {
        if d <= 0 {
            assert(token.contains(token[-d]));
            assert(token[-d] != m[d + (-d)]);
        } else if d + token.len() >= m.len() {
            let k = m.len() - 1 - d;
            assert(token.contains(token[k]));
            assert(token[k] != m[d + k]);
        } else {
            if !disagree(token, m, d) {
                assert forall|k: int| 0 <= k < token.len() implies token[k] == word[d - 1 + k] by {
                    assert(token[k] == m[d + k]);
                    assert(m[d + k] == word[d - 1 + k]);
                }
                assert(word.subrange(d - 1, d - 1 + token.len()) =~= token);
                assert(crate::text::occurs_at(word, token, d - 1));
            }
        }
    }
}

/// A text without the token stays as it is.
pub proof fn clean_text_is_unchanged(text: Seq<char>, token: Seq<char>)
    requires
        !crate::text::contains_seq(text, token),
    ensures
        scrubbed(text, Some(token)) == text,
{
}

/// The mark that stands for a token says that it was taken out, and a text without a token to take
/// out stays as it is.
pub proof fn tokens_are_marked_as_redacted(text: Seq<char>)
    ensures
        mark() == "[redacted]"@,
        scrubbed(text, None) == text,
        scrubbed(text, Some(Seq::<char>::empty())) == text,
{
}

} // verus!
