use vstd::prelude::*;
use vstd::string::StrSliceExecFns;

verus! {

/// The characters of Unicode's `White_Space` property, the separators that
/// whitespace normalization collapses.
pub open spec fn is_space_char(c: char) -> bool {
    ||| c == ' '
    ||| c == '\t'
    ||| c == '\n'
    ||| c == '\r'
    ||| c == '\u{b}'
    ||| c == '\u{c}'
    ||| c == '\u{85}'
    ||| c == '\u{a0}'
    ||| c == '\u{1680}'
    ||| ('\u{2000}' <= c && c <= '\u{200a}')
    ||| c == '\u{2028}'
    ||| c == '\u{2029}'
    ||| c == '\u{202f}'
    ||| c == '\u{205f}'
    ||| c == '\u{3000}'
}

/// The whitespace-normalized form of a string: its maximal runs of
/// non-whitespace characters, joined by single spaces, with no leading or
/// trailing whitespace.
pub open spec fn norm_ws(s: Seq<char>) -> Seq<char>
    decreases s.len(), 0int,
{
    if s.len() == 0 {
        Seq::empty()
    } else if is_space_char(s[0]) {
        norm_ws(s.drop_first())
    } else {
        seq![s[0]] + norm_ws_in_word(s.drop_first())
    }
}

/// Continuation of `norm_ws` while inside a word: the rest of the word is
/// kept, and a single space separates it from the next word, if any.
pub open spec fn norm_ws_in_word(s: Seq<char>) -> Seq<char>
    decreases s.len(), 1int,
{
    if s.len() == 0 {
        Seq::empty()
    } else if !is_space_char(s[0]) {
        seq![s[0]] + norm_ws_in_word(s.drop_first())
    } else if norm_ws(s).len() == 0 {
        Seq::empty()
    } else {
        seq![' '] + norm_ws(s)
    }
}

/// Whether `c` counts as whitespace for normalization.
pub fn is_space(c: char) -> (r: bool)
    ensures
        r == is_space_char(c),
{
    c == ' ' || c == '\t' || c == '\n' || c == '\r' || c == '\u{b}' || c == '\u{c}'
        || c == '\u{85}' || c == '\u{a0}' || c == '\u{1680}'
        || ('\u{2000}' <= c && c <= '\u{200a}') || c == '\u{2028}' || c == '\u{2029}'
        || c == '\u{202f}' || c == '\u{205f}' || c == '\u{3000}'
}

/// The characters of `s`, in order.
fn str_chars(s: &str) -> (v: Vec<char>)
    ensures
        v@ == s@,
{
    let n: usize = s.unicode_len();
    let mut v: Vec<char> = Vec::new();
    let mut i: usize = 0;
    while i < n
        invariant
            i <= n,
            n == s@.len(),
            v@ == s@.take(i as int),
        decreases n - i,
    {
        v.push(s.get_char(i));
        i = i + 1;
        assert(v@ =~= s@.take(i as int));
    }
    assert(v@ =~= s@);
    v
}

/// Relies on std's `FromIterator<char> for String` (`collect` over
/// `slice::iter`): the resulting string holds exactly the characters of `v`,
/// in order.
#[verifier::external_body]
fn chars_to_string(v: &Vec<char>) -> (r: String)
    ensures
        r@ == v@,
{
    v.iter().collect()
}

/// Normalizes the suffix of `v` that starts at `i`, outside a word.
fn norm_from(v: &Vec<char>, i: usize) -> (r: Vec<char>)
    requires
        i <= v.len(),
    ensures
        r@ == norm_ws(v@.skip(i as int)),
    decreases v.len() - i, 0int,
{
    proof {
        if i < v.len() {
            assert(v@.skip(i as int).drop_first() =~= v@.skip(i + 1 as int));
        }
    }
    if i == v.len() {
        let r: Vec<char> = Vec::new();
        assert(v@.skip(i as int) =~= Seq::<char>::empty());
        r
    } else if is_space(v[i]) {
        norm_from(v, i + 1)
    } else {
        let mut r: Vec<char> = Vec::new();
        r.push(v[i]);
        let mut rest = norm_word_from(v, i + 1);
        r.append(&mut rest);
        assert(r@ =~= seq![v@[i as int]] + norm_ws_in_word(v@.skip(i + 1 as int)));
        r
    }
}

/// Normalizes the suffix of `v` that starts at `i`, inside a word.
fn norm_word_from(v: &Vec<char>, i: usize) -> (r: Vec<char>)
    requires
        i <= v.len(),
    ensures
        r@ == norm_ws_in_word(v@.skip(i as int)),
    decreases v.len() - i, 1int,
{
    proof {
        if i < v.len() {
            assert(v@.skip(i as int).drop_first() =~= v@.skip(i + 1 as int));
        }
    }
    if i == v.len() {
        let r: Vec<char> = Vec::new();
        assert(v@.skip(i as int) =~= Seq::<char>::empty());
        r
    } else if !is_space(v[i]) {
        let mut r: Vec<char> = Vec::new();
        r.push(v[i]);
        let mut rest = norm_word_from(v, i + 1);
        r.append(&mut rest);
        assert(r@ =~= seq![v@[i as int]] + norm_ws_in_word(v@.skip(i + 1 as int)));
        r
    } else {
        let rest = norm_from(v, i);
        if rest.len() == 0 {
            let r: Vec<char> = Vec::new();
            r
        } else {
            let mut r: Vec<char> = Vec::new();
            r.push(' ');
            let mut tail = rest;
            r.append(&mut tail);
            assert(r@ =~= seq![' '] + norm_ws(v@.skip(i as int)));
            r
        }
    }
}

/// Collapses every run of whitespace in `s` to a single space and trims the
/// ends, as `norm_ws` states.
pub fn normalize_whitespace(s: &str) -> (r: String)
    ensures
        r@ == norm_ws(s@),
{
    let chars = str_chars(s);
    let normed = norm_from(&chars, 0);
    assert(chars@.skip(0) =~= s@);
    chars_to_string(&normed)
}

} // verus!
