//! How what the executable functions return reads in contracts: a text as
//! its sequence of characters, a list as the sequence of its texts.

use crate::text::texts;
use vstd::prelude::*;

verus! {

/// A text that may be absent.
pub open spec fn option_text(o: Option<String>) -> Option<Seq<char>> {
    match o {
        Some(s) => Some(s@),
        None => None,
    }
}

/// A result whose error is a message.
pub open spec fn text_err<A>(r: Result<A, String>) -> Result<A, Seq<char>> {
    match r {
        Ok(a) => Ok(a),
        Err(e) => Err(e@),
    }
}

/// A result that is a text on success and a message on failure.
pub open spec fn text_or_err(r: Result<String, String>) -> Result<Seq<char>, Seq<char>> {
    match r {
        Ok(s) => Ok(s@),
        Err(e) => Err(e@),
    }
}

/// A result that is a fixed name on success and a message on failure.
pub open spec fn name_or_err(r: Result<&'static str, String>) -> Result<Seq<char>, Seq<char>> {
    match r {
        Ok(name) => Ok(name@),
        Err(e) => Err(e@),
    }
}

/// A list of texts that may be absent.
pub open spec fn list_if_any(r: Option<Vec<String>>) -> Option<Seq<Seq<char>>> {
    match r {
        Some(list) => Some(texts(list@)),
        None => None,
    }
}

/// A result that is a list of texts on success and a message on failure.
pub open spec fn list_or_err(r: Result<Vec<String>, String>) -> Result<Seq<Seq<char>>, Seq<char>> {
    match r {
        Ok(list) => Ok(texts(list@)),
        Err(e) => Err(e@),
    }
}

/// A verb's outcome where success carries a list of texts.
pub open spec fn list_or_failure(r: Result<Vec<String>, Option<String>>) -> Result<
    Seq<Seq<char>>,
    Option<Seq<char>>,
> {
    match r {
        Ok(list) => Ok(texts(list@)),
        Err(Some(e)) => Err(Some(e@)),
        Err(None) => Err(None),
    }
}

/// A verb's outcome: on failure the message, where there is one.
pub open spec fn failure<A>(r: Result<A, Option<String>>) -> Result<A, Option<Seq<char>>> {
    match r {
        Ok(a) => Ok(a),
        Err(Some(e)) => Err(Some(e@)),
        Err(None) => Err(None),
    }
}

/// A verb's outcome where success carries a text.
pub open spec fn summary(r: Result<String, Option<String>>) -> Result<
    Seq<char>,
    Option<Seq<char>>,
> {
    match r {
        Ok(text) => Ok(text@),
        Err(Some(e)) => Err(Some(e@)),
        Err(None) => Err(None),
    }
}

/// A result without what it carries on success.
pub open spec fn outcome<A, E>(r: Result<A, E>) -> Result<(), E> {
    match r {
        Ok(_) => Ok(()),
        Err(e) => Err(e),
    }
}

/// A position that may be absent.
pub open spec fn position(at: Option<usize>) -> Option<int> {
    match at {
        Some(k) => Some(k as int),
        None => None,
    }
}

} // verus!
