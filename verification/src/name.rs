//! Service names and their conversion to the form used for environment
//! variable lookups.

use vstd::prelude::*;

use crate::text::{char_to_lower, lower_char, push_char};

verus! {

/// True of the ASCII uppercase letters.
pub open spec fn is_ascii_upper(c: char) -> bool {
    65 <= c as int && c as int <= 90
}

/// What one character of a name contributes to its snake-case form: an
/// underscore is inserted before an uppercase letter that does not start
/// the name and does not follow an underscore or a hyphen; a hyphen becomes
/// an underscore; every other character is lowercased. Case is judged on
/// the ASCII letters alone: a name holding non-ASCII capitals passes them
/// through unchanged.
pub open spec fn snake_piece(s: Seq<char>, i: int) -> Seq<char> {
    let sep: Seq<char> = if i > 0 && is_ascii_upper(s[i]) && s[i - 1] != '_' && s[i - 1] != '-' {
        seq!['_']
    } else {
        Seq::empty()
    };
    let out: char = if s[i] == '-' {
        '_'
    } else {
        lower_char(s[i])
    };
    sep + seq![out]
}

/// The snake-case form of the first `n` characters of a name.
pub open spec fn snake_prefix(s: Seq<char>, n: int) -> Seq<char>
    decreases n,
{
    if n <= 0 {
        Seq::empty()
    } else {
        snake_prefix(s, n - 1) + snake_piece(s, n - 1)
    }
}

/// The snake-case form of a name.
pub open spec fn snake_of(s: Seq<char>) -> Seq<char> {
    snake_prefix(s, s.len() as int)
}

/// A service's name as the configuration declares it.
pub struct ServiceName(String);

impl View for ServiceName {
    type V = Seq<char>;

    closed spec fn view(&self) -> Seq<char> {
        self.0@
    }
}

impl ServiceName {
    /// Wraps a name.
    pub fn new(name: &str) -> (r: Self)
        ensures
            r@ == name@,
    {
        ServiceName(String::from_str(name))
    }

    /// The snake-case form of the name, used as the suffix base for
    /// per-service environment variable overrides. ASCII-only: only the
    /// letters A through Z count as uppercase and are lowercased.
    pub fn to_snake_case(&self) -> (r: String)
        ensures
            r@ == snake_of(self@),
    {
        let s = self.0.as_str();
        let n = s.unicode_len();
        let mut result = String::new();
        let mut i: usize = 0;
        while i < n
            invariant
                i <= n,
                n == s@.len(),
                result@ == snake_prefix(s@, i as int),
            decreases n - i,
        {
            let c = s.get_char(i);
            let ghost before = result@;
            let mut wrote_sep = false;
            if i > 0 {
                let u = c as u32;
                if 65 <= u && u <= 90 {
                    let prev = s.get_char(i - 1);
                    if prev != '_' && prev != '-' {
                        push_char(&mut result, '_');
                        wrote_sep = true;
                    }
                }
            }
            let out = if c == '-' {
                '_'
            } else {
                char_to_lower(c)
            };
            push_char(&mut result, out);
            proof {
                if wrote_sep {
                    assert(result@ =~= before + seq!['_', out]);
                    assert(snake_piece(s@, i as int) =~= seq!['_', out]);
                } else {
                    assert(result@ =~= before + seq![out]);
                    assert(snake_piece(s@, i as int) =~= seq![out]);
                }
                assert(result@ =~= snake_prefix(s@, i + 1));
            }
            i = i + 1;
        }
        result
    }
}

impl Clone for ServiceName {
    fn clone(&self) -> (r: Self)
        ensures
            r@ == self@,
    {
        ServiceName(self.0.clone())
    }
}

} // verus!
