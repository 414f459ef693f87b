use vstd::prelude::*;

use crate::text::{capitalize, capitalized};

verus! {

/// The greeting for `name`: `Hello, ` followed by the capitalized name.
pub fn hello(name: String) -> (r: String)
    ensures
        r@ == "Hello, "@ + capitalized(name@),
{
    let mut r = String::from_str("Hello, ");
    let cap = capitalize(name.as_str());
    r.append(cap.as_str());
    r
}

/// The wave greeting: `Hi, ` with the capitalized name and `!` where a name is
/// given, `Hello!` where none is.
pub fn wave(name: Option<String>) -> (r: String)
    ensures
        name matches Some(n) ==> r@ == "Hi, "@ + capitalized(n@) + "!"@,
        name is None ==> r@ == "Hello!"@,
{
    match name {
        Some(n) => {
            let mut r = String::from_str("Hi, ");
            let cap = capitalize(n.as_str());
            r.append(cap.as_str());
            r.append("!");
            r
        },
        None => String::from_str("Hello!"),
    }
}

} // verus!
