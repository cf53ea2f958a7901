use git_together::author::Author;
use git_together::config::MemoryConfig;
use git_together::together::GitTogether;

#[test]
fn get_authors_no_domain() {
    let config = MemoryConfig::new(&[("authors.jh", "James Holden; jholden")]);
    let gt = GitTogether { config: config };

    assert!(gt.get_authors(&["jh"]).is_err());
}

#[test]
fn get_authors() {
    let config = MemoryConfig::new(&[
        ("domain", "rocinante.com"),
        ("authors.jh", ""),
        ("authors.nn", "Naomi Nagata"),
        ("authors.ab", "Amos Burton; aburton"),
        ("authors.ak", "Alex Kamal; akamal"),
        ("authors.ca", "Chrisjen Avasarala;"),
        ("authors.bd", "Bobbie Draper; bdraper@mars.mil"),
        ("authors.jm", "Joe Miller; jmiller@starhelix.com"),
    ]);
    let gt = GitTogether { config: config };

    assert!(gt.get_authors(&["jh"]).is_err());
    assert!(gt.get_authors(&["nn"]).is_err());
    assert!(gt.get_authors(&["ca"]).is_err());
    assert!(gt.get_authors(&["jh", "bd"]).is_err());

    assert_eq!(
        gt.get_authors(&["ab", "ak"]).unwrap(),
        vec![
            Author { name: "Amos Burton".into(), email: "aburton@rocinante.com".into() },
            Author { name: "Alex Kamal".into(), email: "akamal@rocinante.com".into() },
        ]
    );
    assert_eq!(
        gt.get_authors(&["ab", "bd", "jm"]).unwrap(),
        vec![
            Author { name: "Amos Burton".into(), email: "aburton@rocinante.com".into() },
            Author { name: "Bobbie Draper".into(), email: "bdraper@mars.mil".into() },
            Author { name: "Joe Miller".into(), email: "jmiller@starhelix.com".into() },
        ]
    );
}

#[test]
fn set_active() {
    let config = MemoryConfig::new(&[
        ("domain", "rocinante.com"),
        ("authors.jh", "James Holden; jholden"),
        ("authors.nn", "Naomi Nagata; nnagata"),
    ]);
    let mut gt = GitTogether { config: config };

    gt.set_active(&["jh"]).unwrap();
    assert_eq!(gt.get_active().unwrap(), vec!["jh"]);

    gt.set_active(&["jh", "nn"]).unwrap();
    assert_eq!(gt.get_active().unwrap(), vec!["jh", "nn"]);
}

#[test]
fn rotate_active() {
    let config = MemoryConfig::new(&[
        ("active", "jh+nn"),
        ("domain", "rocinante.com"),
        ("authors.jh", "James Holden; jholden"),
        ("authors.nn", "Naomi Nagata; nnagata"),
    ]);
    let mut gt = GitTogether { config: config };

    gt.rotate_active().unwrap();
    assert_eq!(gt.get_active().unwrap(), vec!["nn", "jh"]);
}
