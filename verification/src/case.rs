//! The case conversions and their specification.
//!
//! The model works on the view of a string, a `Seq<char>`. A conversion
//! starts from the lowercase image of the first character and then walks the
//! adjacent pairs of the input, appending for each pair a piece that depends
//! on the pair alone; `snake_piece` and `camel_piece` state the pieces.

use vstd::prelude::*;
use vstd::string::StrSliceExecFns;

use crate::ext::{char_pairs, is_lower_char, is_upper_char, lower_char, lower_chars, push_char,
    upper_char, upper_chars};

verus! {

/// The first character of the text, as a one-character text; empty for empty
/// input.
pub open spec fn head_of(s: Seq<char>) -> Seq<char> {
    if s.len() == 0 {
        Seq::empty()
    } else {
        seq![s[0]]
    }
}

/// What snake conversion appends for the adjacent input pair `(lhs, rhs)`:
/// the lowercase image of `rhs`, preceded by a single underscore exactly when
/// `lhs` is lowercase and `rhs` uppercase.
pub open spec fn snake_piece(lhs: char, rhs: char) -> Seq<char> {
    if is_lower_char(lhs) && is_upper_char(rhs) {
        seq!['_'] + lower_char(rhs)
    } else {
        lower_char(rhs)
    }
}

/// The snake_case image of the text: the lowercase image of the first
/// character, followed by `snake_piece` of each adjacent pair in order.
pub open spec fn snake_of(s: Seq<char>) -> Seq<char>
    decreases s.len(),
{
    if s.len() == 0 {
        Seq::empty()
    } else if s.len() == 1 {
        lower_char(s[0])
    } else {
        snake_of(s.drop_last()) + snake_piece(s[s.len() - 2], s[s.len() - 1])
    }
}

/// What camel conversion appends for the adjacent input pair `(lhs, rhs)`:
/// nothing when `rhs` is an underscore, the uppercase image of `rhs` when the
/// preceding `lhs` is an underscore, and `rhs` itself otherwise.
pub open spec fn camel_piece(lhs: char, rhs: char) -> Seq<char> {
    if rhs == '_' {
        Seq::empty()
    } else if lhs == '_' {
        upper_char(rhs)
    } else {
        seq![rhs]
    }
}

/// The camelCase image of the text: the lowercase image of the first
/// character, followed by `camel_piece` of each adjacent pair in order.
pub open spec fn camel_of(s: Seq<char>) -> Seq<char>
    decreases s.len(),
{
    if s.len() == 0 {
        Seq::empty()
    } else if s.len() == 1 {
        lower_char(s[0])
    } else {
        camel_of(s.drop_last()) + camel_piece(s[s.len() - 2], s[s.len() - 1])
    }
}

/// Boundary insertion: lengthening the input considered by one character
/// appends exactly one underscore when the previous original character is
/// lowercase and the new one uppercase, and no underscore at any other
/// boundary, followed by the new character's lowercase image.
pub proof fn lemma_snake_step(s: Seq<char>, i: int)
    requires
        1 <= i < s.len(),
    ensures
        snake_of(s.take(i + 1)) == snake_of(s.take(i)) + snake_piece(s[i - 1], s[i]),
{
    let t = s.take(i + 1);
    assert(t.drop_last() =~= s.take(i));
    assert(t[i - 1] == s[i - 1]);
    assert(t[i] == s[i]);
}

/// Underscore removal and capitalization: lengthening the input considered
/// by one character appends nothing for an underscore, the uppercase image of
/// the new character when it follows an underscore, and the new character
/// itself otherwise.
pub proof fn lemma_camel_step(s: Seq<char>, i: int)
    requires
        1 <= i < s.len(),
    ensures
        camel_of(s.take(i + 1)) == camel_of(s.take(i)) + camel_piece(s[i - 1], s[i]),
{
    let t = s.take(i + 1);
    assert(t.drop_last() =~= s.take(i));
    assert(t[i - 1] == s[i - 1]);
    assert(t[i] == s[i]);
}

/// Returns the text extended by the given characters.
fn extended(base: String, ext: &Vec<char>) -> (r: String)
    ensures
        r@ == base@ + ext@,
{
    let ghost orig = base@;
    let mut r = base;
    let mut i: usize = 0;
    while i < ext.len()
        invariant
            0 <= i <= ext@.len(),
            r@ == orig + ext@.take(i as int),
        decreases ext@.len() - i,
    {
        push_char(&mut r, ext[i]);
        proof {
            assert(ext@.take(i as int).push(ext@[i as int]) =~= ext@.take(i as int + 1));
            assert(r@ =~= orig + ext@.take(i as int + 1));
        }
        i = i + 1;
    }
    proof {
        assert(ext@.take(ext@.len() as int) =~= ext@);
    }
    r
}

/// Returns the first character of the text, or the empty string when the
/// text is empty.
pub fn head(s: &str) -> (r: String)
    ensures
        r@ == head_of(s@),
{
    let mut out = String::new();
    if !s.is_empty() {
        let c = s.get_char(0);
        push_char(&mut out, c);
        proof {
            assert(out@ =~= head_of(s@));
        }
    }
    out
}

/// Converts the text to snake_case: every character is lowercased, and a
/// single underscore is inserted before each character that is uppercase in
/// the input where the immediately preceding input character is lowercase.
/// Total: defined for every string, the empty string included, and never
/// fails.
pub fn to_snake(s: &str) -> (r: String)
    ensures
        r@ == snake_of(s@),
{
    let mut out = String::new();
    if s.is_empty() {
        return out;
    }
    let low = lower_chars(s.get_char(0));
    out = extended(out, &low);
    proof {
        assert(s@.take(1)[0] == s@[0]);
        assert(out@ =~= snake_of(s@.take(1)));
    }
    let pairs = char_pairs(s);
    let n: usize = pairs.len();
    let mut i: usize = 0;
    while i < n
        invariant
            n == pairs@.len(),
            pairs@.len() + 1 == s@.len(),
            forall|j: int| 0 <= j < pairs@.len() ==> pairs@[j] == (s@[j], s@[j + 1]),
            0 <= i <= n,
            out@ == snake_of(s@.take(i as int + 1)),
        decreases n - i,
    {
        let (lhs, rhs) = pairs[i];
        proof {
            assert(pairs@[i as int] == (s@[i as int], s@[i as int + 1]));
        }
        if lhs.is_lowercase() && rhs.is_uppercase() {
            push_char(&mut out, '_');
        }
        let low = lower_chars(rhs);
        out = extended(out, &low);
        proof {
            lemma_snake_step(s@, i as int + 1);
            assert(out@ =~= snake_of(s@.take(i as int + 2)));
        }
        i = i + 1;
    }
    proof {
        assert(s@.take(n as int + 1) =~= s@);
    }
    out
}

/// Converts the text to camelCase: the first character is lowercased; each
/// underscore is dropped; a character that follows an underscore is
/// uppercased; every other character is kept as given.
/// Total: defined for every string, the empty string included, and never
/// fails.
pub fn to_camel(s: &str) -> (r: String)
    ensures
        r@ == camel_of(s@),
{
    let mut out = String::new();
    if s.is_empty() {
        return out;
    }
    let low = lower_chars(s.get_char(0));
    out = extended(out, &low);
    proof {
        assert(s@.take(1)[0] == s@[0]);
        assert(out@ =~= camel_of(s@.take(1)));
    }
    let pairs = char_pairs(s);
    let n: usize = pairs.len();
    let mut i: usize = 0;
    while i < n
        invariant
            n == pairs@.len(),
            pairs@.len() + 1 == s@.len(),
            forall|j: int| 0 <= j < pairs@.len() ==> pairs@[j] == (s@[j], s@[j + 1]),
            0 <= i <= n,
            out@ == camel_of(s@.take(i as int + 1)),
        decreases n - i,
    {
        let (lhs, rhs) = pairs[i];
        proof {
            assert(pairs@[i as int] == (s@[i as int], s@[i as int + 1]));
        }
        if rhs == '_' {
            // an underscore is dropped
        } else if lhs == '_' {
            let up = upper_chars(rhs);
            out = extended(out, &up);
        } else {
            push_char(&mut out, rhs);
        }
        proof {
            lemma_camel_step(s@, i as int + 1);
            assert(out@ =~= camel_of(s@.take(i as int + 2)));
        }
        i = i + 1;
    }
    proof {
        assert(s@.take(n as int + 1) =~= s@);
    }
    out
}

} // verus!
