//! What a field is when a definition leaves it out.
//!
//! A definition's own value comes first, then the value of the definition it
//! extends, then a default.
use vstd::prelude::*;

verus! {

/// The first of `prefer`, `base` and `default` that is there.
pub open spec fn preferred<T>(prefer: Option<T>, base: Option<T>, default: T) -> T {
    match prefer {
        Some(p) => p,
        None => match base {
            Some(b) => b,
            None => default,
        },
    }
}

/// `prefer` if it is there, else what `base` holds, if there is a base and it holds something.
pub open spec fn preferred_optional<T>(prefer: Option<T>, base: Option<Option<T>>) -> Option<T> {
    match prefer {
        Some(p) => Some(p),
        None => match base {
            Some(b) => b,
            None => None,
        },
    }
}

/// The text of `prefer`, else of `base`, else the empty text.
pub fn default_to(prefer: Option<String>, base: Option<String>) -> (r: String)
    ensures
        r@ == preferred(prefer.deep_view(), base.deep_view(), Seq::empty()),
{
    match prefer {
        Some(p) => p,
        None => match base {
            Some(b) => b,
            None => String::new(),
        },
    }
}

/// The value of `prefer`, else of `base`, else `default`.
pub fn default_to_with_default<T>(prefer: Option<T>, base: Option<T>, default: T) -> (r: T)
    ensures
        r == preferred(prefer, base, default),
{
    match prefer {
        Some(p) => p,
        None => match base {
            Some(b) => b,
            None => default,
        },
    }
}

/// The value of `prefer`, else what `base` holds, else nothing.
pub fn default_optional<T>(prefer: Option<T>, base: Option<Option<T>>) -> (r: Option<T>)
    ensures
        r == preferred_optional(prefer, base),
{
    match prefer {
        Some(p) => Some(p),
        None => match base {
            Some(b) => b,
            None => None,
        },
    }
}

} // verus!
