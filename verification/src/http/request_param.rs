//! Request parameters: the key and value pairs that a request carries in its
//! query string and in the parameter segments of its path.

use std::str::FromStr;
use vstd::prelude::*;

use crate::text::same_text;

verus! {

/// A parameter of a request.
#[derive(Debug, Clone)]
pub struct RequestParam {
    pub key: String,
    pub value: String,
}

impl View for RequestParam {
    type V = (Seq<char>, Seq<char>);

    /// The key and the value.
    open spec fn view(&self) -> (Seq<char>, Seq<char>) {
        (self.key@, self.value@)
    }
}

/// The value of a parameter could not be read as the type that was asked
/// for.
#[derive(Debug, Clone, Copy, PartialEq, Eq, Structural)]
pub struct ParamParsingError;

/// The keys and values of a list of parameters, in order.
pub open spec fn params_view(params: Seq<RequestParam>) -> Seq<(Seq<char>, Seq<char>)> {
    params.map_values(|p: RequestParam| p@)
}

/// The value of the first parameter with the key `name`, if there is one.
pub open spec fn lookup(params: Seq<(Seq<char>, Seq<char>)>, name: Seq<char>) -> Option<Seq<char>>
    decreases params.len(),
{
    if params.len() == 0 {
        None
    } else if params[0].0 == name {
        Some(params[0].1)
    } else {
        lookup(params.drop_first(), name)
    }
}

/// A lookup finds only a key that is there, and finds every key that is
/// there.
pub proof fn lemma_lookup(params: Seq<(Seq<char>, Seq<char>)>, name: Seq<char>)
    ensures
        lookup(params, name) is Some <==> exists|i: int|
            0 <= i < params.len() && (#[trigger] params[i]).0 == name,
    decreases params.len(),
{
    if params.len() == 0 {
    } else if params[0].0 == name {
    } else {
        let rest = params.drop_first();
        lemma_lookup(rest, name);
        if lookup(rest, name) is Some {
            let i = choose|i: int| 0 <= i < rest.len() && (#[trigger] rest[i]).0 == name;
            assert(params[i + 1] == rest[i]);
        }
        if exists|i: int| 0 <= i < params.len() && (#[trigger] params[i]).0 == name {
            let i = choose|i: int| 0 <= i < params.len() && (#[trigger] params[i]).0 == name;
            assert(rest[i - 1] == params[i]);
        }
    }
}

/// `str::parse`: reads `text` as a `T` by `T`'s own `FromStr`. Which texts
/// a type accepts, and as what, is that type's affair: nothing is claimed of
/// the result.
#[verifier::external_body]
fn parse_text<T: FromStr>(text: &str) -> Option<T> {
    text.parse::<T>().ok()
}

/// The first of `params` with the key `name`.
pub fn find_param<'a>(params: &'a Vec<RequestParam>, name: &str) -> (found: Option<
    &'a RequestParam,
>)
    ensures
        match found {
            Some(param) => param.key@ == name@ && lookup(params_view(params@), name@) == Some(
                param.value@,
            ),
            None => lookup(params_view(params@), name@) is None,
        },
        found is Some <==> exists|i: int|
            0 <= i < params@.len() && (#[trigger] params@[i]).key@ == name@,
{
    let ghost all = params_view(params@);
    proof {
        lemma_lookup(all, name@);
        if exists|i: int| 0 <= i < params@.len() && (#[trigger] params@[i]).key@ == name@ {
            let i = choose|i: int| 0 <= i < params@.len() && (#[trigger] params@[i]).key@ == name@;
            assert(all[i].0 == name@);
        }
        if exists|i: int| 0 <= i < all.len() && (#[trigger] all[i]).0 == name@ {
            let i = choose|i: int| 0 <= i < all.len() && (#[trigger] all[i]).0 == name@;
            assert(params@[i].key@ == name@);
        }
    }
    let mut i: usize = 0;
    proof {
        assert(all.skip(0) =~= all);
    }
    while i < params.len()
        invariant
            0 <= i <= params.len(),
            all == params_view(params@),
            lookup(all, name@) == lookup(all.skip(i as int), name@),
        decreases params.len() - i,
    {
        proof {
            assert(all.skip(i as int)[0] == params@[i as int]@);
            assert(all.skip(i as int).drop_first() =~= all.skip(i + 1));
        }
        if same_text(params[i].key.as_str(), name) {
            return Some(&params[i]);
        }
        i += 1;
    }
    None
}

impl RequestParam {
    /// The value read as a `T`, or an error where `T` does not accept it.
    pub fn parse<T: FromStr>(&self) -> Result<T, ParamParsingError> {
        Self::parsed(parse_text::<T>(self.value.as_str()))
    }

    /// What `parse` returns, given what reading the value gave: the value
    /// that was read, or the error where nothing was.
    pub fn parsed<T>(read: Option<T>) -> (r: Result<T, ParamParsingError>)
        ensures
            r == match read {
                Some(value) => Ok::<T, ParamParsingError>(value),
                None => Err(ParamParsingError),
            },
    {
        match read {
            Some(value) => Ok(value),
            None => Err(ParamParsingError),
        }
    }

    /// What a typed accessor returns for a parameter that was found, given
    /// what `parse` made of its value: the value, or nothing where the value
    /// was not accepted. A failed conversion is no error to the caller.
    pub fn accepted<T>(parsed: Result<T, ParamParsingError>) -> (value: Option<T>)
        ensures
            value == match parsed {
                Ok(v) => Some(v),
                Err(_) => None::<T>,
            },
    {
        match parsed {
            Ok(v) => Some(v),
            Err(_) => None,
        }
    }
}

impl ParamParsingError {
    /// What went wrong, in words.
    pub fn message(&self) -> (text: String)
        ensures
            text@ == "Parameter parsing failed!"@,
    {
        "Parameter parsing failed!".to_owned()
    }
}

} // verus!
