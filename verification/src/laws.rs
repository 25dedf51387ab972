//! Laws of the conversions: on text already in the target convention the
//! conversion is the identity.

use vstd::prelude::*;

use crate::case::{camel_of, camel_piece, snake_of, snake_piece};
use crate::ext::{is_upper_char, lower_char};

verus! {

/// A character that is its own lowercase image. This holds of lowercase
/// letters, digits, underscores, and every other character without a
/// lowercase mapping of its own.
pub open spec fn keeps_lowercase(c: char) -> bool {
    lower_char(c) == seq![c]
}

/// Text already in snake_case form: every character is its own lowercase
/// image and none is uppercase, as is the case for lowercase letters, digits
/// and underscores.
pub open spec fn canonical_snake(s: Seq<char>) -> bool {
    forall|i: int| 0 <= i < s.len() ==> keeps_lowercase(#[trigger] s[i]) && !is_upper_char(s[i])
}

/// Text already in camelCase form: the first character is its own lowercase
/// image and no character is an underscore.
pub open spec fn canonical_camel(s: Seq<char>) -> bool {
    &&& s.len() > 0 ==> keeps_lowercase(s[0])
    &&& forall|i: int| 0 <= i < s.len() ==> #[trigger] s[i] != '_'
}

/// Snake conversion is the identity on text already in snake_case form.
pub proof fn lemma_snake_identity(s: Seq<char>)
    requires
        canonical_snake(s),
    ensures
        snake_of(s) == s,
    decreases s.len(),
{
    if s.len() == 0 {
        assert(snake_of(s) =~= s);
    } else if s.len() == 1 {
        assert(keeps_lowercase(s[0]));
        assert(lower_char(s[0]) =~= s);
    } else {
        let t = s.drop_last();
        let l = s.len() as int;
        assert forall|i: int| 0 <= i < t.len() implies keeps_lowercase(#[trigger] t[i])
            && !is_upper_char(t[i]) by {
            assert(t[i] == s[i]);
        }
        lemma_snake_identity(t);
        assert(keeps_lowercase(s[l - 1]));
        assert(!is_upper_char(s[l - 1]));
        assert(snake_piece(s[l - 2], s[l - 1]) == lower_char(s[l - 1]));
        assert(snake_of(s) == t + seq![s[l - 1]]);
        assert(t + seq![s[l - 1]] =~= s);
    }
}

/// Camel conversion is the identity on text already in camelCase form.
pub proof fn lemma_camel_identity(s: Seq<char>)
    requires
        canonical_camel(s),
    ensures
        camel_of(s) == s,
    decreases s.len(),
{
    if s.len() == 0 {
        assert(camel_of(s) =~= s);
    } else if s.len() == 1 {
        assert(keeps_lowercase(s[0]));
        assert(lower_char(s[0]) =~= s);
    } else {
        let t = s.drop_last();
        let l = s.len() as int;
        assert(t.len() > 0 ==> t[0] == s[0]);
        assert forall|i: int| 0 <= i < t.len() implies #[trigger] t[i] != '_' by {
            assert(t[i] == s[i]);
        }
        lemma_camel_identity(t);
        assert(s[l - 1] != '_');
        assert(s[l - 2] != '_');
        assert(camel_piece(s[l - 2], s[l - 1]) == seq![s[l - 1]]);
        assert(camel_of(s) == t + seq![s[l - 1]]);
        assert(t + seq![s[l - 1]] =~= s);
    }
}

} // verus!
