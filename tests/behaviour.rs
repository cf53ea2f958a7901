use git_together::author::Author;
use git_together::config::{Config, MemoryConfig};
use git_together::error::Error;
use git_together::together::GitTogether;

fn person(name: &str, email: &str) -> Author {
    Author { name: name.into(), email: email.into() }
}

fn resolve(domain: &str, raw: &str) -> Result<Author, Error> {
    GitTogether::<MemoryConfig>::author(domain, raw)
}

fn crew() -> GitTogether<MemoryConfig> {
    GitTogether {
        config: MemoryConfig::new(&[
            ("domain", "rocinante.com"),
            ("authors.jh", "James Holden; jholden"),
            ("authors.nn", "Naomi Nagata; nnagata"),
            ("authors.ab", "Amos Burton; aburton"),
            ("authors.bd", "Bobbie Draper; bdraper@mars.mil"),
        ]),
    }
}

#[test]
fn local_part_gets_domain() {
    assert_eq!(resolve("rocinante.com", "Amos Burton; aburton"), Ok(person("Amos Burton", "aburton@rocinante.com")));
    assert_eq!(resolve("x.org", "Amos Burton; aburton"), Ok(person("Amos Burton", "aburton@x.org")));
}

#[test]
fn full_address_ignores_domain() {
    assert_eq!(resolve("rocinante.com", "Bobbie Draper; bdraper@mars.mil"), Ok(person("Bobbie Draper", "bdraper@mars.mil")));
    assert_eq!(resolve("", "Bobbie Draper; bdraper@mars.mil"), Ok(person("Bobbie Draper", "bdraper@mars.mil")));
}

#[test]
fn fields_are_trimmed() {
    assert_eq!(resolve("d.io", "  Amos Burton \t;\n aburton  "), Ok(person("Amos Burton", "aburton@d.io")));
    assert_eq!(resolve("d.io", "\u{a0}Amos\u{3000}; a@b"), Ok(person("Amos", "a@b")));
}

#[test]
fn split_on_first_separator_only() {
    assert_eq!(resolve("d.io", "Amos; a;b"), Ok(person("Amos", "a;b@d.io")));
}

#[test]
fn rejected_records() {
    assert_eq!(resolve("d.io", "Naomi Nagata"), Err(Error::InvalidAuthor("Naomi Nagata".into())));
    assert_eq!(resolve("d.io", "   ; nnagata"), Err(Error::InvalidAuthor("   ; nnagata".into())));
    assert_eq!(resolve("d.io", "Chrisjen Avasarala;  "), Err(Error::InvalidAuthor("Chrisjen Avasarala;  ".into())));
    assert_eq!(resolve("d.io", ""), Err(Error::InvalidAuthor("".into())));
}

#[test]
fn lookup_errors() {
    let gt = GitTogether {
        config: MemoryConfig::new(&[("domain", "d.io"), ("authors.jh", "")]),
    };
    assert_eq!(gt.get_authors(&["zz"]), Err(Error::AuthorNotFound("zz".into())));
    assert_eq!(gt.get_authors(&["jh"]), Err(Error::InvalidAuthor("".into())));
    assert_eq!(gt.get_active(), Err(Error::KeyNotFound("active".into())));
    let empty = GitTogether { config: MemoryConfig::new(&[]) };
    assert_eq!(empty.get_authors(&["jh"]), Err(Error::KeyNotFound("domain".into())));
    assert_eq!(empty.get_authors(&[]), Err(Error::KeyNotFound("domain".into())));
}

#[test]
fn first_failure_decides() {
    let gt = crew();
    assert_eq!(gt.get_authors(&["jh", "xx", "yy"]), Err(Error::AuthorNotFound("xx".into())));
}

#[test]
fn authors_in_order_with_duplicates() {
    let gt = crew();
    assert_eq!(
        gt.get_authors(&["ab", "jh", "ab"]).unwrap(),
        vec![
            person("Amos Burton", "aburton@rocinante.com"),
            person("James Holden", "jholden@rocinante.com"),
            person("Amos Burton", "aburton@rocinante.com"),
        ]
    );
    assert_eq!(gt.get_authors(&[]).unwrap(), vec![]);
}

#[test]
fn store_example() {
    let gt = GitTogether {
        config: MemoryConfig::new(&[
            ("domain", "rocinante.com"),
            ("authors.ab", "Amos Burton; aburton"),
            ("authors.bd", "Bobbie Draper; bdraper@mars.mil"),
        ]),
    };
    assert_eq!(
        gt.get_authors(&["ab", "bd"]).unwrap(),
        vec![person("Amos Burton", "aburton@rocinante.com"), person("Bobbie Draper", "bdraper@mars.mil")]
    );
}

#[test]
fn rotate_three() {
    let mut gt = crew();
    gt.set_active(&["jh", "nn", "ab"]).unwrap();
    gt.rotate_active().unwrap();
    assert_eq!(gt.get_active().unwrap(), vec!["nn", "ab", "jh"]);
    gt.rotate_active().unwrap();
    gt.rotate_active().unwrap();
    assert_eq!(gt.get_active().unwrap(), vec!["jh", "nn", "ab"]);
}

#[test]
fn rotate_missing_roster() {
    let mut gt = crew();
    assert_eq!(gt.rotate_active(), Err(Error::KeyNotFound("active".into())));
}

#[test]
fn rotate_revalidates() {
    let mut gt = GitTogether {
        config: MemoryConfig::new(&[("domain", "d.io"), ("active", "jh+zz"), ("authors.jh", "J; j")]),
    };
    assert_eq!(gt.rotate_active(), Err(Error::AuthorNotFound("zz".into())));
    assert_eq!(gt.config.get("active"), Ok("jh+zz".to_string()));
}

#[test]
fn failed_set_active_keeps_roster() {
    let mut gt = crew();
    gt.set_active(&["jh", "nn"]).unwrap();
    assert_eq!(gt.set_active(&["ab", "zz"]), Err(Error::AuthorNotFound("zz".into())));
    assert_eq!(gt.config.get("active"), Ok("jh+nn".to_string()));
}

#[test]
fn set_active_joins_with_plus() {
    let mut gt = crew();
    gt.set_active(&["jh", "nn", "jh"]).unwrap();
    assert_eq!(gt.config.get("active"), Ok("jh+nn+jh".to_string()));
}

#[test]
fn memory_store_reads_back_writes() {
    let mut config = MemoryConfig::new(&[("k", "one"), ("k", "two")]);
    assert_eq!(config.get("k"), Ok("two".to_string()));
    assert_eq!(config.get("other"), Err(Error::KeyNotFound("other".into())));
    config.set("k", "three").unwrap();
    assert_eq!(config.get("k"), Ok("three".to_string()));
}

fn env_of(gt: &GitTogether<MemoryConfig>) -> (Vec<(String, String)>, Vec<String>) {
    let a = gt.attribution().unwrap();
    (a.env, a.args)
}

fn pair(k: &str, v: &str) -> (String, String) {
    (k.to_string(), v.to_string())
}

#[test]
fn attribution_single_author() {
    let mut gt = crew();
    gt.set_active(&["jh"]).unwrap();
    let (env, args) = env_of(&gt);
    assert_eq!(env, vec![pair("GIT_AUTHOR_NAME", "James Holden"), pair("GIT_AUTHOR_EMAIL", "jholden@rocinante.com")]);
    assert!(args.is_empty());
}

#[test]
fn attribution_pair_signs_off() {
    let mut gt = crew();
    gt.set_active(&["jh", "bd"]).unwrap();
    let (env, args) = env_of(&gt);
    assert_eq!(
        env,
        vec![
            pair("GIT_AUTHOR_NAME", "James Holden"),
            pair("GIT_AUTHOR_EMAIL", "jholden@rocinante.com"),
            pair("GIT_COMMITTER_NAME", "Bobbie Draper"),
            pair("GIT_COMMITTER_EMAIL", "bdraper@mars.mil"),
        ]
    );
    assert_eq!(args, vec!["--signoff".to_string()]);
}

#[test]
fn attribution_third_author_validated_not_credited() {
    let mut gt = crew();
    gt.set_active(&["nn", "jh", "ab"]).unwrap();
    let (env, args) = env_of(&gt);
    assert_eq!(env.len(), 4);
    assert_eq!(env[2], pair("GIT_COMMITTER_NAME", "James Holden"));
    assert_eq!(args, vec!["--signoff".to_string()]);
    let bad = GitTogether {
        config: MemoryConfig::new(&[("domain", "d.io"), ("active", "jh+nn+zz"), ("authors.jh", "J; j"), ("authors.nn", "N; n")]),
    };
    assert_eq!(bad.attribution().err(), Some(Error::AuthorNotFound("zz".into())));
}

#[test]
fn attribution_empty_roster() {
    let gt = GitTogether {
        config: MemoryConfig::new(&[("domain", "d.io"), ("active", "")]),
    };
    assert_eq!(gt.attribution().err(), Some(Error::AuthorNotFound("".into())));
    let none = GitTogether { config: MemoryConfig::new(&[("domain", "d.io")]) };
    assert_eq!(none.attribution().err(), Some(Error::KeyNotFound("active".into())));
}

#[test]
fn error_messages() {
    assert_eq!(Error::KeyNotFound("domain".into()).message(), "key not found: domain");
    assert_eq!(Error::AuthorNotFound("zz".into()).message(), "author not found: zz");
    assert_eq!(Error::InvalidAuthor("x".into()).message(), "invalid author: x");
    assert_eq!(Error::Store("down".into()).message(), "store error: down");
}
