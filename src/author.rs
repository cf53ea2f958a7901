//! Authors and the rule that turns an author record into one.
use vstd::prelude::*;

use crate::error::Failure;
use crate::text::{first_index, trim};

verus! {

/// A person credited on a commit.
#[derive(Debug, PartialEq, Eq)]
pub struct Author {
    pub name: String,
    pub email: String,
}

/// The abstract view of an [`Author`].
pub struct Person {
    pub name: Seq<char>,
    pub email: Seq<char>,
}

impl View for Author {
    type V = Person;

    open spec fn view(&self) -> Person {
        Person { name: self.name@, email: self.email@ }
    }
}

/// The name field of a record: the trimmed text before the first `;`.
pub open spec fn record_name(raw: Seq<char>) -> Seq<char> {
    trim(raw.take(first_index(raw, ';')))
}

/// The email field of a record: the trimmed text after the first `;`.
pub open spec fn record_email_seed(raw: Seq<char>) -> Seq<char> {
    trim(raw.skip(first_index(raw, ';') + 1))
}

/// A seed holding `@` is an address already; otherwise it is a local part under `domain`.
pub open spec fn email_address(seed: Seq<char>, domain: Seq<char>) -> Seq<char> {
    if seed.contains('@') {
        seed
    } else {
        seed + seq!['@'] + domain
    }
}

/// The author that record `raw` describes, with `domain` for bare local parts.
pub open spec fn parse_author(domain: Seq<char>, raw: Seq<char>) -> Result<Person, Failure> {
    if raw.contains(';') && record_name(raw).len() > 0 && record_email_seed(raw).len() > 0 {
        Ok(
            Person {
                name: record_name(raw),
                email: email_address(record_email_seed(raw), domain),
            },
        )
    } else {
        Err(Failure::InvalidAuthor(raw))
    }
}

} // verus!
