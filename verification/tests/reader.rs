use estatus::number::NumberError;
use estatus::vardbapi::reader::{Event, Reader};
use estatus::vardbapi::table::VarDB;
use estatus::vardbapi::{
    get_vdb, parse_vdb, Error, FileHash, FileMetadata, Loader, VarDBEntry,
};

const HASH: &str = "6cd3556deb0da54bca060b4c39479839";
const DIGEST: [u8; 16] = [108, 211, 85, 109, 235, 13, 165, 75, 202, 6, 11, 76, 57, 71, 152, 57];

fn atom(dir: &str, name: &str) -> Event {
    Event::Atom { dir: String::from(dir), name: Some(String::from(name)) }
}

fn line(text: &str) -> Event {
    Event::Line { text: String::from(text) }
}

fn roots(paths: &[&str]) -> Vec<String> {
    paths.iter().map(|path| String::from(*path)).collect()
}

fn regular(mtime: u64) -> FileMetadata {
    FileMetadata::Regular { mtime, hash: FileHash::MD5(DIGEST) }
}

fn rust_events() -> Vec<Event> {
    vec![
        atom("/var/db/pkg/dev-lang/rust-1.41.1", "rust-1.41.1"),
        line("dir /usr"),
        line("dir /usr/bin"),
        line(&format!("obj /usr/bin/rustc-1.41.1 {} 1586621688", HASH)),
        line("sym /usr/bin/rustc -> rustc-1.41.1 1586621688"),
        atom("/var/db/pkg/sys-apps/sed-4.8", "sed-4.8"),
        line(&format!("obj /bin/sed {} 1586000000", HASH)),
    ]
}

#[test]
fn reader_numbers_lines_from_one_in_each_file() {
    let mut reader = Reader::new();
    assert_eq!(reader.contents(), "");
    assert_eq!(reader.line(), 0);
    assert!(!reader.has_ended());
    assert_eq!(reader.feed(&atom("/db/cat/a-1", "a-1")), None);
    assert_eq!(reader.contents(), "/db/cat/a-1/CONTENTS");
    assert_eq!(
        reader.feed(&line("dir /usr")),
        Some(Ok(VarDBEntry { path: String::from("/usr"), metadata: FileMetadata::Directory }))
    );
    assert_eq!(reader.line(), 1);
    assert!(reader.feed(&line("dir /usr/bin")).is_some());
    assert_eq!(reader.line(), 2);
    assert_eq!(reader.feed(&atom("/db/cat/b-2/", "b-2")), None);
    assert_eq!(reader.contents(), "/db/cat/b-2/CONTENTS");
    assert_eq!(reader.line(), 0);
    assert_eq!(
        reader.feed(&line("bad")),
        Some(Err(Error::EntryMissingField {
            path: String::from("/db/cat/b-2/CONTENTS"),
            line: 1,
            raw: String::from("bad"),
        }))
    );
    assert!(reader.has_ended());
}

#[test]
fn reader_gives_nothing_after_an_error() {
    let mut reader = Reader::new();
    assert_eq!(reader.feed(&atom("/db/cat/a-1", "a-1")), None);
    assert!(reader.feed(&line("xyz /usr")).unwrap().is_err());
    assert!(reader.has_ended());
    assert_eq!(reader.feed(&line("dir /usr")), None);
    assert_eq!(reader.feed(&atom("/db/cat/b-2", "b-2")), None);
    assert_eq!(reader.feed(&Event::LineUnreadable { cause: String::from("x") }), None);
    assert!(reader.has_ended());
    assert_eq!(reader.contents(), "/db/cat/a-1/CONTENTS");
    assert_eq!(reader.line(), 1);
}

#[test]
fn reader_refuses_an_atom_that_is_being_installed() {
    let mut reader = Reader::new();
    assert_eq!(
        reader.feed(&atom("/db/cat/-MERGING-a-1", "-MERGING-a-1")),
        Some(Err(Error::AtomInvalidName { path: String::from("/db/cat/-MERGING-a-1") }))
    );
    assert!(reader.has_ended());

    let mut reader = Reader::new();
    assert_eq!(
        reader.feed(&Event::Atom { dir: String::from("/db/cat/?"), name: None }),
        Some(Err(Error::AtomInvalidName { path: String::from("/db/cat/?") }))
    );

    let mut reader = Reader::new();
    assert_eq!(reader.feed(&atom("/db/cat/-MERGING", "-MERGING")), None);
    assert_eq!(reader.feed(&atom("/db/cat/a-MERGING-", "a-MERGING-")), None);
    assert_eq!(reader.feed(&atom("/db/cat/-merging-a", "-merging-a")), None);
    assert!(reader.feed(&atom("/db/cat/-MERGING-", "-MERGING-")).is_some());
}

#[test]
fn reader_names_what_could_not_be_read() {
    let mut reader = Reader::new();
    assert_eq!(
        reader.feed(&Event::RootUnreadable {
            path: String::from("/db"),
            cause: String::from("denied"),
        }),
        Some(Err(Error::VarDBUnreadable {
            path: String::from("/db"),
            source: String::from("denied"),
        }))
    );

    let mut reader = Reader::new();
    assert_eq!(
        reader.feed(&Event::CategoryUnreadable {
            path: String::from("/db/cat"),
            cause: String::from("denied"),
        }),
        Some(Err(Error::CategoryUnreadable {
            path: String::from("/db/cat"),
            source: String::from("denied"),
        }))
    );

    let mut reader = Reader::new();
    reader.feed(&atom("/db/cat/a-1", "a-1"));
    assert_eq!(
        reader.feed(&Event::ContentsUnreadable { cause: String::from("no such file") }),
        Some(Err(Error::ContentsUnreadable {
            path: String::from("/db/cat/a-1/CONTENTS"),
            source: String::from("no such file"),
        }))
    );

    let mut reader = Reader::new();
    reader.feed(&atom("/db/cat/a-1", "a-1"));
    reader.feed(&line("dir /usr"));
    assert_eq!(
        reader.feed(&Event::LineUnreadable { cause: String::from("invalid UTF-8") }),
        Some(Err(Error::EntryCorrupted {
            path: String::from("/db/cat/a-1/CONTENTS"),
            line: 2,
            source: String::from("invalid UTF-8"),
        }))
    );
}

#[test]
fn parse_vdb_gives_each_entry_in_order() {
    let results = parse_vdb(&rust_events());
    assert_eq!(
        results.unwrap(),
        vec![
            Ok(VarDBEntry { path: String::from("/usr"), metadata: FileMetadata::Directory }),
            Ok(VarDBEntry { path: String::from("/usr/bin"), metadata: FileMetadata::Directory }),
            Ok(VarDBEntry {
                path: String::from("/usr/bin/rustc-1.41.1"),
                metadata: regular(1586621688),
            }),
            Ok(VarDBEntry {
                path: String::from("/usr/bin/rustc"),
                metadata: FileMetadata::Symlink {
                    mtime: 1586621688,
                    dest: String::from("rustc-1.41.1"),
                },
            }),
            Ok(VarDBEntry { path: String::from("/bin/sed"), metadata: regular(1586000000) }),
        ]
    );
}

#[test]
fn parse_vdb_ends_with_the_first_error() {
    let mut events = rust_events();
    events.insert(3, line("obj /usr/bin/x nothex 12"));
    let results = parse_vdb(&events).unwrap();
    assert_eq!(results.len(), 3);
    assert!(results[0].is_ok());
    assert!(results[1].is_ok());
    assert_eq!(
        results[2],
        Err(Error::EntryUnhandledHash {
            path: String::from("/var/db/pkg/dev-lang/rust-1.41.1/CONTENTS"),
            line: 3,
            raw: String::from("nothex"),
        })
    );
    assert_eq!(parse_vdb(&vec![]), Ok(vec![]));
}

#[test]
fn get_vdb_keeps_what_lies_under_the_roots() {
    let vdb = get_vdb(&rust_events(), &roots(&["/usr"])).unwrap();
    assert_eq!(vdb.get("/usr"), Some(&FileMetadata::Directory));
    assert_eq!(vdb.get("/usr/bin"), Some(&FileMetadata::Directory));
    assert_eq!(vdb.get("/usr/bin/rustc-1.41.1"), Some(&regular(1586621688)));
    assert_eq!(
        vdb.get("/usr/bin/rustc"),
        Some(&FileMetadata::Symlink { mtime: 1586621688, dest: String::from("rustc-1.41.1") })
    );
    assert_eq!(vdb.get("/bin/sed"), None);
    assert!(!vdb.contains("/bin/sed"));
    assert!(vdb.contains("/usr/bin"));

    let vdb = get_vdb(&rust_events(), &roots(&["/bin", "/usr/bin"])).unwrap();
    assert_eq!(vdb.get("/usr"), None);
    assert!(vdb.contains("/usr/bin"));
    assert!(vdb.contains("/bin/sed"));

    let vdb = get_vdb(&rust_events(), &roots(&[])).unwrap();
    assert!(!vdb.contains("/usr"));
    assert!(!vdb.contains("/bin/sed"));
}

#[test]
fn get_vdb_matches_whole_components() {
    let events = vec![atom("/db/cat/a-1", "a-1"), line("dir /usr/lib64"), line("dir /usr/lib")];
    let vdb = get_vdb(&events, &roots(&["/usr/lib"])).unwrap();
    assert!(vdb.contains("/usr/lib"));
    assert!(!vdb.contains("/usr/lib64"));
}

#[test]
fn get_vdb_ends_with_the_first_error() {
    let mut events = rust_events();
    events.push(line("sym /bin/x y 1"));
    events.push(Event::ContentsUnreadable { cause: String::from("late") });
    assert_eq!(
        get_vdb(&events, &roots(&["/usr"])).err(),
        Some(Error::EntryMissingField {
            path: String::from("/var/db/pkg/sys-apps/sed-4.8/CONTENTS"),
            line: 2,
            raw: String::from("sym /bin/x y 1"),
        })
    );

    let events = vec![
        atom("/db/cat/a-1", "a-1"),
        line("dir /usr"),
        Event::LineUnreadable { cause: String::from("invalid UTF-8") },
        line("xyz"),
    ];
    assert_eq!(
        get_vdb(&events, &roots(&["/"])).err(),
        Some(Error::EntryCorrupted {
            path: String::from("/db/cat/a-1/CONTENTS"),
            line: 2,
            source: String::from("invalid UTF-8"),
        })
    );
}

#[test]
fn get_vdb_refuses_a_line_outside_the_roots_too() {
    let events = vec![atom("/db/cat/a-1", "a-1"), line("obj /bin/x 12 now")];
    assert_eq!(
        get_vdb(&events, &roots(&["/usr"])).err(),
        Some(Error::EntryInvalidMTime {
            path: String::from("/db/cat/a-1/CONTENTS"),
            line: 1,
            raw: String::from("obj /bin/x 12 now"),
            source: NumberError::InvalidDigit,
        })
    );
}

#[test]
fn get_vdb_refuses_a_path_declared_twice() {
    let events = vec![
        atom("/db/cat/a-1", "a-1"),
        line(&format!("obj /usr/bin/tool {} 1", HASH)),
        atom("/db/cat/b-2", "b-2"),
        line("dir /usr/share"),
        line(&format!("obj /usr/bin/tool {} 2", HASH)),
    ];
    assert_eq!(
        get_vdb(&events, &roots(&["/usr"])).err(),
        Some(Error::EntryConflict {
            path: String::from("/db/cat/b-2/CONTENTS"),
            line: 2,
            raw: String::from("/usr/bin/tool"),
        })
    );
    // Outside the roots the two lines are passed over.
    assert!(get_vdb(&events, &roots(&["/usr/share"])).is_ok());
}

#[test]
fn table_never_replaces_an_expectation() {
    let mut vdb = VarDB::new();
    assert!(vdb.insert(VarDBEntry { path: String::from("/a"), metadata: regular(1) }));
    assert!(!vdb.insert(VarDBEntry { path: String::from("/a"), metadata: regular(2) }));
    assert!(!vdb.insert(VarDBEntry { path: String::from("/a"), metadata: FileMetadata::Fifo }));
    assert_eq!(vdb.get("/a"), Some(&regular(1)));
    assert!(vdb.insert(VarDBEntry { path: String::from("/a/"), metadata: FileMetadata::Fifo }));
    assert_eq!(vdb.get("/a/"), Some(&FileMetadata::Fifo));
    assert_eq!(vdb.get("/b"), None);
}

#[test]
fn loader_builds_the_table_event_by_event() {
    let bases = roots(&["/usr"]);
    let mut loader = Loader::new();
    for event in rust_events() {
        assert_eq!(loader.load(&event, &bases), Ok(()));
    }
    let vdb = loader.finish();
    assert_eq!(vdb.get("/usr/bin/rustc-1.41.1"), Some(&regular(1586621688)));
    assert_eq!(vdb.get("/bin/sed"), None);
}

#[test]
fn loader_leaves_the_table_as_it_was_on_an_error() {
    let bases = roots(&["/usr"]);
    let mut loader = Loader::new();
    assert_eq!(loader.load(&atom("/db/cat/a-1", "a-1"), &bases), Ok(()));
    assert_eq!(loader.load(&line(&format!("obj /usr/bin/tool {} 1", HASH)), &bases), Ok(()));
    assert_eq!(
        loader.load(&line(&format!("obj /usr/bin/tool {} 2", HASH)), &bases),
        Err(Error::EntryConflict {
            path: String::from("/db/cat/a-1/CONTENTS"),
            line: 2,
            raw: String::from("/usr/bin/tool"),
        })
    );
    assert_eq!(
        loader.load(&line("dir"), &bases),
        Err(Error::EntryMissingField {
            path: String::from("/db/cat/a-1/CONTENTS"),
            line: 3,
            raw: String::from("dir"),
        })
    );
    // The reader has ended: nothing more is read.
    assert_eq!(loader.load(&line("dir /usr/share"), &bases), Ok(()));
    let vdb = loader.finish();
    assert_eq!(vdb.get("/usr/bin/tool"), Some(&regular(1)));
    assert!(!vdb.contains("/usr/share"));
}

#[test]
fn parse_vdb_fails_on_a_root_that_cannot_be_listed() {
    let mut events = vec![Event::RootUnreadable {
        path: String::from("/db"),
        cause: String::from("denied"),
    }];
    events.extend(rust_events());
    assert_eq!(
        parse_vdb(&events),
        Err(Error::VarDBUnreadable { path: String::from("/db"), source: String::from("denied") })
    );
    assert_eq!(
        get_vdb(&events, &roots(&["/usr"])).err(),
        Some(Error::VarDBUnreadable {
            path: String::from("/db"),
            source: String::from("denied"),
        })
    );
}

#[test]
fn parse_vdb_gives_an_unreadable_entry_of_the_root_in_its_place() {
    let mut events = rust_events();
    events.truncate(3);
    events.push(Event::RootEntryUnreadable {
        path: String::from("/db"),
        cause: String::from("stale"),
    });
    events.push(line("dir /usr/share"));
    let results = parse_vdb(&events).unwrap();
    assert_eq!(results.len(), 3);
    assert!(results[0].is_ok());
    assert!(results[1].is_ok());
    assert_eq!(
        results[2],
        Err(Error::VarDBUnreadable { path: String::from("/db"), source: String::from("stale") })
    );

    let first = vec![Event::RootEntryUnreadable {
        path: String::from("/db"),
        cause: String::from("stale"),
    }];
    assert_eq!(
        parse_vdb(&first),
        Ok(vec![Err(Error::VarDBUnreadable {
            path: String::from("/db"),
            source: String::from("stale"),
        })])
    );
}

#[test]
fn reader_numbers_every_line_of_a_file() {
    let mut reader = Reader::new();
    reader.feed(&atom("/db/cat/a-1", "a-1"));
    for number in 1..=40 {
        assert!(reader.feed(&line(&format!("dir /usr/d{}", number))).unwrap().is_ok());
        assert_eq!(reader.line(), number);
    }
    assert_eq!(
        reader.feed(&line("obj /usr/x 12 now")),
        Some(Err(Error::EntryInvalidMTime {
            path: String::from("/db/cat/a-1/CONTENTS"),
            line: 41,
            raw: String::from("obj /usr/x 12 now"),
            source: NumberError::InvalidDigit,
        }))
    );
}

#[test]
fn table_counts_its_paths() {
    let mut vdb = VarDB::new();
    assert_eq!(vdb.len(), 0);
    assert!(vdb.insert(VarDBEntry { path: String::from("/a"), metadata: regular(1) }));
    assert!(vdb.insert(VarDBEntry { path: String::from("/b"), metadata: FileMetadata::Fifo }));
    assert!(!vdb.insert(VarDBEntry { path: String::from("/a"), metadata: regular(2) }));
    assert_eq!(vdb.len(), 2);

    // As many paths as entries that lie under the roots.
    assert_eq!(get_vdb(&rust_events(), &roots(&["/usr"])).unwrap().len(), 4);
    assert_eq!(get_vdb(&rust_events(), &roots(&["/usr/bin", "/bin"])).unwrap().len(), 4);
    assert_eq!(get_vdb(&rust_events(), &roots(&["/"])).unwrap().len(), 5);
    assert_eq!(get_vdb(&rust_events(), &roots(&[])).unwrap().len(), 0);
}
