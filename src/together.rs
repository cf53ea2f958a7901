//! The active roster, author lookup and commit attribution over a store.
use vstd::prelude::*;
use vstd::string::*;

use crate::author::{parse_author, Author, Person};
use crate::config::Config;
use crate::error::{result_view, Error, Failure};
use crate::text::{chars_of, find_char, join, lemma_first_unique, split, split_on, trim_bounds};

verus! {

broadcast use vstd::string::group_string_axioms;

/// The store key of the record for initial `init`.
pub open spec fn author_key(init: Seq<char>) -> Seq<char> {
    "authors."@ + init
}

/// The author that the record of `init` describes.
pub open spec fn resolve_initial(
    store: Map<Seq<char>, Seq<char>>,
    domain: Seq<char>,
    init: Seq<char>,
) -> Result<Person, Failure> {
    if !store.contains_key(author_key(init)) {
        Err(Failure::AuthorNotFound(init))
    } else {
        parse_author(domain, store[author_key(init)])
    }
}

/// The authors of `inits`, in order; the first initial that fails decides the error.
pub open spec fn resolve_all(
    store: Map<Seq<char>, Seq<char>>,
    domain: Seq<char>,
    inits: Seq<Seq<char>>,
) -> Result<Seq<Person>, Failure>
    decreases inits.len(),
{
    if inits.len() == 0 {
        Ok(Seq::empty())
    } else {
        match resolve_all(store, domain, inits.drop_last()) {
            Err(f) => Err(f),
            Ok(found) => match resolve_initial(store, domain, inits.last()) {
                Err(f) => Err(f),
                Ok(p) => Ok(found.push(p)),
            },
        }
    }
}

/// The authors of `inits` under the store's domain.
pub open spec fn authors_of(store: Map<Seq<char>, Seq<char>>, inits: Seq<Seq<char>>) -> Result<
    Seq<Person>,
    Failure,
> {
    if !store.contains_key("domain"@) {
        Err(Failure::KeyNotFound("domain"@))
    } else {
        resolve_all(store, store["domain"@], inits)
    }
}

/// The stored roster of active initials.
pub open spec fn active_of(store: Map<Seq<char>, Seq<char>>) -> Result<Seq<Seq<char>>, Failure> {
    if !store.contains_key("active"@) {
        Err(Failure::KeyNotFound("active"@))
    } else {
        Ok(split(store["active"@], '+'))
    }
}

/// The roster with its first initial moved to the end.
pub open spec fn rotate<A>(s: Seq<A>) -> Seq<A> {
    if s.len() == 0 {
        s
    } else {
        s.drop_first().push(s[0])
    }
}

/// How storing the roster `inits` may leave the store `before` as `after` with result `r`.
pub open spec fn set_active_outcome(
    before: Map<Seq<char>, Seq<char>>,
    inits: Seq<Seq<char>>,
    r: Result<(), Failure>,
    after: Map<Seq<char>, Seq<char>>,
) -> bool {
    match authors_of(before, inits) {
        Err(f) => r == Err::<(), Failure>(f) && after == before,
        Ok(_) => match r {
            Ok(_) => after == before.insert("active"@, join(inits, '+')),
            Err(f) => f is Store && after == before,
        },
    }
}

/// The environment variables that credit the first two of `authors`.
pub open spec fn attribution_env(authors: Seq<Person>) -> Seq<(Seq<char>, Seq<char>)> {
    (if authors.len() >= 1 {
        seq![("GIT_AUTHOR_NAME"@, authors[0].name), ("GIT_AUTHOR_EMAIL"@, authors[0].email)]
    } else {
        Seq::empty()
    }) + (if authors.len() >= 2 {
        seq![("GIT_COMMITTER_NAME"@, authors[1].name), ("GIT_COMMITTER_EMAIL"@, authors[1].email)]
    } else {
        Seq::empty()
    })
}

/// The extra command arguments for `authors`: a sign-off once a committer is credited.
pub open spec fn attribution_args(authors: Seq<Person>) -> Seq<Seq<char>> {
    if authors.len() >= 2 {
        seq!["--signoff"@]
    } else {
        Seq::empty()
    }
}

/// The attribution of the next commit under `store`.
pub open spec fn attribution_of(store: Map<Seq<char>, Seq<char>>) -> Result<
    (Seq<(Seq<char>, Seq<char>)>, Seq<Seq<char>>),
    Failure,
> {
    match active_of(store) {
        Err(f) => Err(f),
        Ok(roster) => match authors_of(store, roster) {
            Err(f) => Err(f),
            Ok(authors) => Ok((attribution_env(authors), attribution_args(authors))),
        },
    }
}

/// String slices as character sequences.
pub open spec fn strs_view(s: Seq<&str>) -> Seq<Seq<char>> {
    s.map_values(|x: &str| x@)
}

/// Strings as character sequences.
pub open spec fn strings_view(s: Seq<String>) -> Seq<Seq<char>> {
    s.map_values(|x: String| x@)
}

/// Authors as their abstract views.
pub open spec fn authors_view(s: Seq<Author>) -> Seq<Person> {
    s.map_values(|a: Author| a@)
}

/// What a commit is given to credit the active authors.
pub struct Attribution {
    /// Environment variables, as name and value.
    pub env: Vec<(String, String)>,
    /// Arguments appended to the command.
    pub args: Vec<String>,
}

impl View for Attribution {
    type V = (Seq<(Seq<char>, Seq<char>)>, Seq<Seq<char>>);

    open spec fn view(&self) -> Self::V {
        (self.env@.map_values(|p: (String, String)| (p.0@, p.1@)), strings_view(self.args@))
    }
}

/// The strings of `v`, borrowed.
fn borrow_all(v: &Vec<String>) -> (r: Vec<&str>)
    ensures
        strs_view(r@) == strings_view(v@),
{
    let mut r: Vec<&str> = Vec::new();
    let mut i: usize = 0;
    while i < v.len()
        invariant
            i <= v@.len(),
            strs_view(r@) == strings_view(v@.take(i as int)),
        decreases v.len() - i,
    {
        let ghost prev = r@;
        r.push(v[i].as_str());
        assert(v@.take(i + 1) =~= v@.take(i as int).push(v@[i as int]));
        assert(strs_view(r@) =~= strs_view(prev).push(v@[i as int]@));
        i = i + 1;
        assert(strs_view(r@) =~= strings_view(v@.take(i as int)));
    }
    assert(v@.take(i as int) =~= v@);
    r
}

/// The pieces joined with `+`.
fn join_plus(parts: &[&str]) -> (r: String)
    ensures
        r@ == join(strs_view(parts@), '+'),
{
    let mut r = String::new();
    let mut i: usize = 0;
    while i < parts.len()
        invariant
            i <= parts@.len(),
            r@ == join(strs_view(parts@.take(i as int)), '+'),
        decreases parts.len() - i,
    {
        proof {
            reveal_strlit("+");
        }
        assert(strs_view(parts@.take(i + 1)).drop_last() =~= strs_view(parts@.take(i as int)));
        assert(strs_view(parts@.take(i + 1)).last() == parts@[i as int]@);
        if i == 0 {
            r = String::from_str(parts[i]);
        } else {
            r = r.concat("+").concat(parts[i]);
        }
        i = i + 1;
        assert(r@ =~= join(strs_view(parts@.take(i as int)), '+'));
    }
    assert(parts@.take(i as int) =~= parts@);
    r
}

/// Once a prefix of the initials fails, all of them fail the same way.
proof fn lemma_resolve_all_failed(
    store: Map<Seq<char>, Seq<char>>,
    domain: Seq<char>,
    inits: Seq<Seq<char>>,
    k: int,
)
    requires
        0 <= k <= inits.len(),
        resolve_all(store, domain, inits.take(k)) is Err,
    ensures
        resolve_all(store, domain, inits) == resolve_all(store, domain, inits.take(k)),
    decreases inits.len(),
{
    if inits.len() == k {
        assert(inits.take(k) =~= inits);
    } else {
        assert(inits.drop_last().take(k) =~= inits.take(k));
        lemma_resolve_all_failed(store, domain, inits.drop_last(), k);
    }
}

/// The attribution tool over store `config`.
pub struct GitTogether<C> {
    pub config: C,
}

impl<C: Config> GitTogether<C> {
    /// The author that record `raw` describes, with `domain` for a bare local part.
    pub fn author(domain: &str, raw: &str) -> (r: Result<Author, Error>)
        ensures
            result_view(r, |a: Author| a@) == parse_author(domain@, raw@),
    {
        let cs = chars_of(raw);
        let sep = match find_char(&cs, ';') {
            Some(i) => i,
            None => return Err(Error::InvalidAuthor(String::from_str(raw))),
        };
        proof {
            lemma_first_unique(raw@, ';', sep as int);
            assert(raw@.contains(';')) by {
                assert(raw@[sep as int] == ';');
            }
        }
        assert(cs@.subrange(0, sep as int) =~= raw@.take(sep as int));
        let (a, b) = trim_bounds(&cs, 0, sep);
        if a == b {
            return Err(Error::InvalidAuthor(String::from_str(raw)));
        }
        let name = String::from_str(raw.substring_char(a, b));
        assert(cs@.subrange(sep + 1, cs@.len() as int) =~= raw@.skip(sep + 1));
        assert(sep < cs.len());
        let (c, d) = trim_bounds(&cs, sep + 1, cs.len());
        if c == d {
            return Err(Error::InvalidAuthor(String::from_str(raw)));
        }
        let seed = raw.substring_char(c, d);
        let seed_chars = chars_of(seed);
        let email = match find_char(&seed_chars, '@') {
            Some(i) => {
                assert(seed@[i as int] == '@');
                String::from_str(seed)
            },
            None => {
                proof {
                    reveal_strlit("@");
                }
                assert("@"@ =~= seq!['@']);
                String::from_str(seed).concat("@").concat(domain)
            },
        };
        Ok(Author { name, email })
    }

    /// The authors of `inits`, in order, under the stored domain.
    pub fn get_authors(&self, inits: &[&str]) -> (r: Result<Vec<Author>, Error>)
        ensures
            result_view(r, |v: Vec<Author>| authors_view(v@)) == authors_of(
                self.config.entries(),
                strs_view(inits@),
            ),
    {
        let ghost store = self.config.entries();
        let ghost names = strs_view(inits@);
        let domain = match self.config.get("domain") {
            Ok(d) => d,
            Err(e) => return Err(e),
        };
        let mut authors: Vec<Author> = Vec::new();
        let mut i: usize = 0;
        assert(names.take(0) =~= Seq::<Seq<char>>::empty());
        assert(authors_view(authors@) =~= Seq::<Person>::empty());
        while i < inits.len()
            invariant
                i <= inits@.len(),
                store == self.config.entries(),
                names == strs_view(inits@),
                store.contains_key("domain"@),
                domain@ == store["domain"@],
                resolve_all(store, domain@, names.take(i as int)) == Ok::<Seq<Person>, Failure>(
                    authors_view(authors@),
                ),
            decreases inits.len() - i,
        {
            let init = inits[i];
            assert(names.take(i + 1).drop_last() =~= names.take(i as int));
            assert(names.take(i + 1).last() == init@);
            let key = String::from_str("authors.").concat(init);
            let raw = match self.config.get(key.as_str()) {
                Ok(raw) => raw,
                Err(_) => {
                    proof {
                        lemma_resolve_all_failed(store, domain@, names, i + 1);
                    }
                    return Err(Error::AuthorNotFound(String::from_str(init)));
                },
            };
            if raw.as_str().is_empty() {
                proof {
                    assert(!raw@.contains(';'));
                    lemma_resolve_all_failed(store, domain@, names, i + 1);
                }
                return Err(Error::InvalidAuthor(raw));
            }
            match Self::author(domain.as_str(), raw.as_str()) {
                Ok(a) => {
                    let ghost prev = authors@;
                    authors.push(a);
                    assert(authors_view(authors@) =~= authors_view(prev).push(a@));
                },
                Err(e) => {
                    proof {
                        lemma_resolve_all_failed(store, domain@, names, i + 1);
                    }
                    return Err(e);
                },
            }
            i = i + 1;
        }
        assert(names.take(i as int) =~= names);
        Ok(authors)
    }

    /// The stored roster of active initials.
    pub fn get_active(&self) -> (r: Result<Vec<String>, Error>)
        ensures
            result_view(r, |v: Vec<String>| strings_view(v@)) == active_of(self.config.entries()),
    {
        match self.config.get("active") {
            Ok(active) => Ok(split_on(active.as_str(), '+')),
            Err(e) => Err(e),
        }
    }

    /// Stores `inits` as the roster, once each of them resolves to an author.
    pub fn set_active(&mut self, inits: &[&str]) -> (r: Result<(), Error>)
        ensures
            set_active_outcome(
                old(self).config.entries(),
                strs_view(inits@),
                result_view(r, |u: ()| u),
                final(self).config.entries(),
            ),
    {
        match self.get_authors(inits) {
            Ok(_) => {},
            Err(e) => return Err(e),
        }
        let joined = join_plus(inits);
        self.config.set("active", joined.as_str())
    }

    /// Moves the first active initial to the end of the roster, and stores the result.
    pub fn rotate_active(&mut self) -> (r: Result<(), Error>)
        ensures
            match active_of(old(self).config.entries()) {
                Err(f) => {
                    &&& result_view(r, |u: ()| u) == Err::<(), Failure>(f)
                    &&& final(self).config.entries() == old(self).config.entries()
                },
                Ok(roster) => set_active_outcome(
                    old(self).config.entries(),
                    rotate(roster),
                    result_view(r, |u: ()| u),
                    final(self).config.entries(),
                ),
            },
    {
        let mut active = match self.get_active() {
            Ok(a) => a,
            Err(e) => return Err(e),
        };
        let ghost roster = strings_view(active@);
        if active.len() > 0 {
            let first = active.remove(0);
            active.push(first);
            assert(strings_view(active@) =~= rotate(roster));
        } else {
            assert(strings_view(active@) =~= rotate(roster));
        }
        let inits = borrow_all(&active);
        self.set_active(inits.as_slice())
    }

    /// The environment variables and arguments that credit the active authors on a commit.
    pub fn attribution(&self) -> (r: Result<Attribution, Error>)
        ensures
            result_view(r, |a: Attribution| a@) == attribution_of(self.config.entries()),
    {
        let active = match self.get_active() {
            Ok(a) => a,
            Err(e) => return Err(e),
        };
        let inits = borrow_all(&active);
        let authors = match self.get_authors(inits.as_slice()) {
            Ok(v) => v,
            Err(e) => return Err(e),
        };
        let ghost people = authors_view(authors@);
        let mut env: Vec<(String, String)> = Vec::new();
        let mut args: Vec<String> = Vec::new();
        if authors.len() >= 1 {
            env.push((String::from_str("GIT_AUTHOR_NAME"), authors[0].name.clone()));
            env.push((String::from_str("GIT_AUTHOR_EMAIL"), authors[0].email.clone()));
        }
        if authors.len() >= 2 {
            env.push((String::from_str("GIT_COMMITTER_NAME"), authors[1].name.clone()));
            env.push((String::from_str("GIT_COMMITTER_EMAIL"), authors[1].email.clone()));
            args.push(String::from_str("--signoff"));
        }
        let r = Attribution { env, args };
        assert(r@.0 =~= attribution_env(people));
        assert(r@.1 =~= attribution_args(people));
        Ok(r)
    }
}

} // verus!
