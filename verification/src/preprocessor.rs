use vstd::prelude::*;
use crate::text::{chars_of, string_from_chars};

verus! {

/// `s` with each occurrence of the two characters `a b` replaced by `c`,
/// scanning from the left; occurrences do not overlap.
pub open spec fn replace_pair(s: Seq<char>, a: char, b: char, c: char) -> Seq<char>
    decreases s.len(),
{
    if s.len() == 0 {
        s
    } else if s.len() >= 2 && s[0] == a && s[1] == b {
        seq![c] + replace_pair(s.skip(2), a, b, c)
    } else {
        seq![s[0]] + replace_pair(s.skip(1), a, b, c)
    }
}

/// The escapes that reading a line doubles, undone in turn: `\n`, `\t`,
/// `\r`, a doubled backslash, and an escaped quote.
pub open spec fn escapes_replaced(s: Seq<char>) -> Seq<char> {
    replace_pair(
        replace_pair(
            replace_pair(replace_pair(replace_pair(s, '\\', 'n', '\n'), '\\', 't', '\t'), '\\', 'r', '\r'),
            '\\',
            '\\',
            '\\',
        ),
        '\\',
        '"',
        '"',
    )
}

/// Replaces each occurrence of `a b` by `c`, from the left.
fn replace_chars(v: &Vec<char>, a: char, b: char, c: char) -> (r: Vec<char>)
    ensures
        r@ == replace_pair(v@, a, b, c),
{
    let mut r: Vec<char> = Vec::new();
    let mut i: usize = 0;
    assert(v@.skip(0) =~= v@);
    while i < v.len()
        invariant
            i <= v.len(),
            r@ + replace_pair(v@.skip(i as int), a, b, c) == replace_pair(v@, a, b, c),
        decreases v.len() - i,
    {
        let ghost rest = v@.skip(i as int);
        if i + 1 < v.len() && v[i] == a && v[i + 1] == b {
            assert(rest.skip(2) =~= v@.skip(i + 2));
            assert(r@ + (seq![c] + replace_pair(rest.skip(2), a, b, c)) =~= r@.push(c) + replace_pair(v@.skip(i + 2), a, b, c));
            r.push(c);
            i = i + 2;
        } else {
            assert(rest.skip(1) =~= v@.skip(i + 1));
            assert(r@ + (seq![v@[i as int]] + replace_pair(rest.skip(1), a, b, c)) =~= r@.push(v@[i as int]) + replace_pair(v@.skip(i + 1), a, b, c));
            r.push(v[i]);
            i = i + 1;
        }
    }
    assert(v@.skip(i as int).len() == 0);
    assert(r@ + Seq::<char>::empty() =~= r@);
    r
}

/// Undoes the escapes that reading a line doubles: `\\n` becomes a newline,
/// `\\t` a tab, `\\r` a carriage return, `\\\\` one backslash and `\\"` a quote.
pub fn replace_escapes(string: &str) -> (r: String)
    ensures
        r@ == escapes_replaced(string@),
{
    let v = chars_of(string);
    let v = replace_chars(&v, '\\', 'n', '\n');
    let v = replace_chars(&v, '\\', 't', '\t');
    let v = replace_chars(&v, '\\', 'r', '\r');
    let v = replace_chars(&v, '\\', '\\', '\\');
    let v = replace_chars(&v, '\\', '"', '"');
    string_from_chars(v.as_slice())
}

/// Prepares source text for the parser.
pub fn preprocess(string: &str) -> (r: String)
    ensures
        r@ == escapes_replaced(string@),
{
    replace_escapes(string)
}

/// Whether the two characters `a b` stand at some place in `s`.
pub open spec fn has_pair(s: Seq<char>, a: char, b: char) -> bool {
    exists|i: int| 0 <= i < s.len() - 1 && s[i] == a && #[trigger] s[i + 1] == b
}

proof fn lemma_replace_pair_len(s: Seq<char>, a: char, b: char, c: char)
    ensures
        replace_pair(s, a, b, c).len() <= s.len(),
        has_pair(s, a, b) ==> replace_pair(s, a, b, c).len() < s.len(),
        !has_pair(s, a, b) ==> replace_pair(s, a, b, c) == s,
    decreases s.len(),
{
    if s.len() > 0 {
        if s.len() >= 2 && s[0] == a && s[1] == b {
            lemma_replace_pair_len(s.skip(2), a, b, c);
            assert(s[0int + 1] == b);
        } else {
            let t = s.skip(1);
            lemma_replace_pair_len(t, a, b, c);
            if has_pair(s, a, b) {
                let i = choose|i: int| 0 <= i < s.len() - 1 && s[i] == a && #[trigger] s[i + 1] == b;
                assert(i >= 1);
                assert(t[i - 1] == a && t[(i - 1) + 1] == b);
            }
            if has_pair(t, a, b) {
                let i = choose|i: int| 0 <= i < t.len() - 1 && t[i] == a && #[trigger] t[i + 1] == b;
                assert(s[i + 1] == a && s[(i + 1) + 1] == b);
            }
            if !has_pair(s, a, b) {
                assert(seq![s[0]] + t =~= s);
            }
        }
    }
}

/// Undoing escapes never makes the text longer, and makes it shorter when
/// it holds a backslash followed by `n`, `t`, `r`, a backslash or a quote:
/// each escape becomes one character.
pub proof fn law_preprocess_never_lengthens(s: Seq<char>)
    ensures
        escapes_replaced(s).len() <= s.len(),
        (has_pair(s, '\\', 'n') || has_pair(s, '\\', 't') || has_pair(s, '\\', 'r') || has_pair(s, '\\', '\\')
            || has_pair(s, '\\', '"')) ==> escapes_replaced(s).len() < s.len(),
{
    let s1 = replace_pair(s, '\\', 'n', '\n');
    let s2 = replace_pair(s1, '\\', 't', '\t');
    let s3 = replace_pair(s2, '\\', 'r', '\r');
    let s4 = replace_pair(s3, '\\', '\\', '\\');
    lemma_replace_pair_len(s, '\\', 'n', '\n');
    lemma_replace_pair_len(s1, '\\', 't', '\t');
    lemma_replace_pair_len(s2, '\\', 'r', '\r');
    lemma_replace_pair_len(s3, '\\', '\\', '\\');
    lemma_replace_pair_len(s4, '\\', '"', '"');
}

} // verus!
