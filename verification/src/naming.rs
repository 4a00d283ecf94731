//! Naming-convention translation between the configuration file's
//! snake_case keys and the caller-facing camelCase keys. The mapping is
//! ASCII: case of letters outside `A`..=`Z` and `a`..=`z` is untouched.

use vstd::prelude::*;

use vstd::string::StrSliceExecFns;

use crate::text::{is_ascii_upper, lower_char, upper_char};

verus! {

/// snake_case to camelCase: an underscore is dropped and capitalizes the
/// next character; every other character is lowercased unless capitalized
/// this way. `cap` tells whether the next character is to be capitalized.
pub open spec fn camelize(s: Seq<char>, cap: bool) -> Seq<char>
    decreases s.len(),
{
    if s.len() == 0 {
        Seq::empty()
    } else if s[0] == '_' {
        camelize(s.skip(1), true)
    } else if cap {
        seq![upper_char(s[0])] + camelize(s.skip(1), false)
    } else {
        seq![lower_char(s[0])] + camelize(s.skip(1), false)
    }
}

/// camelCase to snake_case: an uppercase letter after the first character
/// gains a preceding underscore, and every character is lowercased. `first`
/// tells whether the next character is the string's first.
pub open spec fn snake_from(s: Seq<char>, first: bool) -> Seq<char>
    decreases s.len(),
{
    if s.len() == 0 {
        Seq::empty()
    } else if is_ascii_upper(s[0]) && !first {
        seq!['_', lower_char(s[0])] + snake_from(s.skip(1), false)
    } else {
        seq![lower_char(s[0])] + snake_from(s.skip(1), false)
    }
}

/// Translates a snake_case name to camelCase.
pub fn snake_to_camel(s: &str) -> (r: String)
    ensures
        r@ == camelize(s@, false),
{
    let n = s.unicode_len();
    let mut out = String::new();
    let mut cap = false;
    let mut i: usize = 0;
    proof {
        assert(s@.skip(0) =~= s@);
        assert(out@ + camelize(s@, false) =~= camelize(s@, false));
    }
    while i < n
        invariant
            n == s@.len(),
            i <= n,
            camelize(s@, false) == out@ + camelize(s@.skip(i as int), cap),
        decreases n - i,
    {
        let c = s.get_char(i);
        let ghost pre = s@.skip(i as int);
        proof {
            assert(pre[0] == s@[i as int]);
            assert(pre.skip(1) =~= s@.skip(i as int + 1));
        }
        if c == '_' {
            cap = true;
        } else if cap {
            crate::text::push_char(&mut out, crate::text::to_upper_char(c));
            cap = false;
        } else {
            crate::text::push_char(&mut out, crate::text::to_lower_char(c));
        }
        i = i + 1;
    }
    proof {
        assert(s@.skip(n as int) =~= Seq::<char>::empty());
        assert(out@ =~= camelize(s@, false));
    }
    out
}

/// Translates a camelCase name to snake_case.
pub fn camel_to_snake(s: &str) -> (r: String)
    ensures
        r@ == snake_from(s@, true),
{
    let n = s.unicode_len();
    let mut out = String::new();
    let mut first = true;
    let mut i: usize = 0;
    proof {
        assert(s@.skip(0) =~= s@);
        assert(out@ + snake_from(s@, true) =~= snake_from(s@, true));
    }
    while i < n
        invariant
            n == s@.len(),
            i <= n,
            snake_from(s@, true) == out@ + snake_from(s@.skip(i as int), first),
        decreases n - i,
    {
        let c = s.get_char(i);
        let ghost pre = s@.skip(i as int);
        proof {
            assert(pre[0] == s@[i as int]);
            assert(pre.skip(1) =~= s@.skip(i as int + 1));
        }
        if ('A' <= c && c <= 'Z') && !first {
            crate::text::push_char(&mut out, '_');
            crate::text::push_char(&mut out, crate::text::to_lower_char(c));
        } else {
            crate::text::push_char(&mut out, crate::text::to_lower_char(c));
        }
        first = false;
        i = i + 1;
    }
    proof {
        assert(s@.skip(n as int) =~= Seq::<char>::empty());
        assert(out@ =~= snake_from(s@, true));
    }
    out
}

} // verus!
