//! General properties of author resolution, rotation and attribution.
use vstd::prelude::*;

use crate::author::{parse_author, record_email_seed, record_name, Person};
use crate::error::Failure;
use crate::text::{first_at, lemma_first_unique, lemma_split_join, lemma_split_nonempty, lemma_split_pieces, split, trim};
use crate::together::{
    active_of, attribution_args, attribution_env, authors_of, resolve_all, resolve_initial, rotate,
    set_active_outcome,
};

verus! {

/// `s` rotated `k` times.
pub open spec fn rotate_times<A>(s: Seq<A>, k: nat) -> Seq<A>
    decreases k,
{
    if k == 0 {
        s
    } else {
        rotate(rotate_times(s, (k - 1) as nat))
    }
}

/// The record `name;seed`, with no `;` in `name`, splits into these two fields.
proof fn lemma_record_fields(name: Seq<char>, seed: Seq<char>)
    requires
        !name.contains(';'),
    ensures
        (name + seq![';'] + seed).contains(';'),
        record_name(name + seq![';'] + seed) == trim(name),
        record_email_seed(name + seq![';'] + seed) == trim(seed),
{
    let raw = name + seq![';'] + seed;
    let n = name.len() as int;
    assert forall|j: int| 0 <= j < n implies raw[j] != ';' by {
        assert(raw[j] == name[j]);
    }
    assert(raw[n] == ';');
    assert(first_at(raw, ';', n));
    lemma_first_unique(raw, ';', n);
    assert(raw.take(n) =~= name);
    assert(raw.skip(n + 1) =~= seed);
}

/// A record `name;local` whose local part holds no `@` resolves to the trimmed name and
/// the trimmed local part followed by `@` and the domain.
pub proof fn law_local_part_takes_domain(domain: Seq<char>, name: Seq<char>, local: Seq<char>)
    requires
        !name.contains(';'),
        trim(name).len() > 0,
        trim(local).len() > 0,
        !trim(local).contains('@'),
    ensures
        parse_author(domain, name + seq![';'] + local) == Ok::<Person, Failure>(
            Person { name: trim(name), email: trim(local) + seq!['@'] + domain },
        ),
{
    lemma_record_fields(name, local);
}

/// A record `name;address` whose address holds `@` resolves to the trimmed name and the
/// trimmed address, whatever the domain.
pub proof fn law_full_address_kept(domain: Seq<char>, name: Seq<char>, address: Seq<char>)
    requires
        !name.contains(';'),
        trim(name).len() > 0,
        trim(address).contains('@'),
    ensures
        parse_author(domain, name + seq![';'] + address) == Ok::<Person, Failure>(
            Person { name: trim(name), email: trim(address) },
        ),
{
    lemma_record_fields(name, address);
}

/// A record is rejected when it has no `;`, when it is empty, and when the name or the
/// text after the first `;` is empty once trimmed.
pub proof fn law_rejected_records(domain: Seq<char>, raw: Seq<char>, name: Seq<char>, seed: Seq<char>)
    requires
        !name.contains(';'),
    ensures
        !raw.contains(';') ==> parse_author(domain, raw) == Err::<Person, Failure>(
            Failure::InvalidAuthor(raw),
        ),
        raw.len() == 0 ==> parse_author(domain, raw) == Err::<Person, Failure>(
            Failure::InvalidAuthor(raw),
        ),
        trim(name).len() == 0 ==> parse_author(domain, name + seq![';'] + seed) == Err::<
            Person,
            Failure,
        >(Failure::InvalidAuthor(name + seq![';'] + seed)),
        trim(seed).len() == 0 ==> parse_author(domain, name + seq![';'] + seed) == Err::<
            Person,
            Failure,
        >(Failure::InvalidAuthor(name + seq![';'] + seed)),
{
    lemma_record_fields(name, seed);
}

/// Rotating `[a, b, c]` gives `[b, c, a]`, and rotating the empty roster gives it back.
pub proof fn law_rotate_moves_first_to_end<A>(a: A, b: A, c: A)
    ensures
        rotate(seq![a, b, c]) == seq![b, c, a],
        rotate(Seq::<A>::empty()) == Seq::<A>::empty(),
{
    assert(rotate(seq![a, b, c]) =~= seq![b, c, a]);
}

proof fn lemma_rotate_times(s: Seq<Seq<char>>, k: nat)
    requires
        k <= s.len(),
    ensures
        rotate_times(s, k) == s.skip(k as int) + s.take(k as int),
    decreases k,
{
    if k == 0 {
        assert(s.skip(0) + s.take(0) =~= s);
    } else {
        lemma_rotate_times(s, (k - 1) as nat);
        let t = s.skip(k - 1) + s.take(k - 1);
        assert(t[0] == s[k - 1]);
        assert(t.drop_first().push(t[0]) =~= s.skip(k as int) + s.take(k as int));
    }
}

/// Rotating a roster as many times as it has initials gives it back.
pub proof fn law_rotate_full_cycle(roster: Seq<Seq<char>>)
    ensures
        rotate_times(roster, roster.len()) == roster,
{
    lemma_rotate_times(roster, roster.len());
    assert(roster.skip(roster.len() as int) + roster.take(roster.len() as int) =~= roster);
}

/// A roster stored by a successful `set_active` reads back as the same initials, when
/// there is at least one and none holds `+`.
pub proof fn law_stored_roster_reads_back(
    before: Map<Seq<char>, Seq<char>>,
    inits: Seq<Seq<char>>,
    after: Map<Seq<char>, Seq<char>>,
)
    requires
        inits.len() > 0,
        forall|i: int| 0 <= i < inits.len() ==> !(#[trigger] inits[i]).contains('+'),
        set_active_outcome(before, inits, Ok(()), after),
    ensures
        active_of(after) == Ok::<Seq<Seq<char>>, Failure>(inits),
{
    lemma_split_join(inits, '+');
}

/// A successful `rotate_active` leaves the stored roster rotated by one place.
pub proof fn law_rotate_active_rotates_roster(
    before: Map<Seq<char>, Seq<char>>,
    after: Map<Seq<char>, Seq<char>>,
)
    requires
        active_of(before) is Ok,
        set_active_outcome(before, rotate(active_of(before)->Ok_0), Ok(()), after),
    ensures
        active_of(after) == Ok::<Seq<Seq<char>>, Failure>(rotate(active_of(before)->Ok_0)),
{
    let roster = split(before["active"@], '+');
    lemma_split_nonempty(before["active"@], '+');
    lemma_split_pieces(before["active"@], '+');
    let rotated = rotate(roster);
    assert forall|i: int| 0 <= i < rotated.len() implies !(#[trigger] rotated[i]).contains('+') by {
        if i < roster.len() - 1 {
            assert(rotated[i] == roster[i + 1]);
        } else {
            assert(rotated[i] == roster[0]);
        }
    }
    law_stored_roster_reads_back(before, rotated, after);
}

/// The initials resolve together exactly when each one resolves, and then the authors
/// stand in the order of the initials, each one resolved on its own.
pub proof fn law_resolve_each_in_order(
    store: Map<Seq<char>, Seq<char>>,
    domain: Seq<char>,
    inits: Seq<Seq<char>>,
)
    ensures
        resolve_all(store, domain, inits) is Ok <==> forall|i: int|
            0 <= i < inits.len() ==> #[trigger] resolve_initial(store, domain, inits[i]) is Ok,
        resolve_all(store, domain, inits) is Ok ==> {
            let found = resolve_all(store, domain, inits)->Ok_0;
            &&& found.len() == inits.len()
            &&& forall|i: int|
                0 <= i < inits.len() ==> resolve_initial(store, domain, #[trigger] inits[i])
                    == Ok::<Person, Failure>(found[i])
        },
    decreases inits.len(),
{
    if inits.len() > 0 {
        let prefix = inits.drop_last();
        law_resolve_each_in_order(store, domain, prefix);
        assert forall|i: int| 0 <= i < prefix.len() implies prefix[i] == inits[i] by {}
        if resolve_all(store, domain, prefix) is Err {
            let i = choose|i: int|
                0 <= i < prefix.len() && !(#[trigger] resolve_initial(
                    store,
                    domain,
                    prefix[i],
                ) is Ok);
            assert(resolve_initial(store, domain, inits[i]) is Err);
        } else if resolve_initial(store, domain, inits.last()) is Err {
            assert(resolve_initial(store, domain, inits[inits.len() - 1]) is Err);
        }
    }
}

/// Equal initials resolve to equal authors.
pub proof fn law_duplicates_resolve_alike(
    store: Map<Seq<char>, Seq<char>>,
    inits: Seq<Seq<char>>,
    i: int,
    j: int,
)
    requires
        0 <= i < inits.len(),
        0 <= j < inits.len(),
        inits[i] == inits[j],
        authors_of(store, inits) is Ok,
    ensures
        authors_of(store, inits)->Ok_0.len() == inits.len(),
        authors_of(store, inits)->Ok_0[i] == authors_of(store, inits)->Ok_0[j],
{
    law_resolve_each_in_order(store, store["domain"@], inits);
}

/// Storing a roster in which some initial does not resolve fails and leaves the store,
/// the stored roster included, as it was.
pub proof fn law_failed_set_active_keeps_store(
    before: Map<Seq<char>, Seq<char>>,
    inits: Seq<Seq<char>>,
    i: int,
    r: Result<(), Failure>,
    after: Map<Seq<char>, Seq<char>>,
)
    requires
        0 <= i < inits.len(),
        before.contains_key("domain"@) ==> resolve_initial(before, before["domain"@], inits[i]) is Err,
        set_active_outcome(before, inits, r, after),
    ensures
        r is Err,
        after == before,
{
    if before.contains_key("domain"@) {
        law_resolve_each_in_order(before, before["domain"@], inits);
    }
}

/// No author credits nothing; one author is credited as author only; two or more credit
/// the first as author and the second as committer with a sign-off, and the rest are
/// not credited.
pub proof fn law_attribution_by_roster_size(authors: Seq<Person>)
    ensures
        authors.len() == 0 ==> attribution_env(authors).len() == 0 && attribution_args(
            authors,
        ).len() == 0,
        authors.len() == 1 ==> attribution_env(authors) == seq![
            ("GIT_AUTHOR_NAME"@, authors[0].name),
            ("GIT_AUTHOR_EMAIL"@, authors[0].email),
        ] && attribution_args(authors).len() == 0,
        authors.len() >= 2 ==> attribution_env(authors) == seq![
            ("GIT_AUTHOR_NAME"@, authors[0].name),
            ("GIT_AUTHOR_EMAIL"@, authors[0].email),
            ("GIT_COMMITTER_NAME"@, authors[1].name),
            ("GIT_COMMITTER_EMAIL"@, authors[1].email),
        ] && attribution_args(authors) == seq!["--signoff"@],
        authors.len() >= 2 ==> attribution_env(authors) == attribution_env(authors.take(2))
            && attribution_args(authors) == attribution_args(authors.take(2)),
{
    if authors.len() == 1 {
        assert(attribution_env(authors) =~= seq![
            ("GIT_AUTHOR_NAME"@, authors[0].name),
            ("GIT_AUTHOR_EMAIL"@, authors[0].email),
        ]);
    }
    if authors.len() >= 2 {
        assert(attribution_env(authors) =~= seq![
            ("GIT_AUTHOR_NAME"@, authors[0].name),
            ("GIT_AUTHOR_EMAIL"@, authors[0].email),
            ("GIT_COMMITTER_NAME"@, authors[1].name),
            ("GIT_COMMITTER_EMAIL"@, authors[1].email),
        ]);
        assert(attribution_env(authors.take(2)) =~= attribution_env(authors));
    }
}

} // verus!
