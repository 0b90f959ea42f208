use estatus::digest::compute_md5;
use estatus::vardbapi::reader::Event;
use estatus::vardbapi::table::VarDB;
use estatus::vardbapi::{FileHash, FileMetadata, VarDBEntry};
use estatus::vardbapi;
use estatus::walk::{Interruption, Walk};
use estatus::{
    changed_hash, check_dir, check_file, needs_digest, statuses, Error, FileStatus, FileType,
    NodeFlags, Observation, ResultItem, ResultSet,
};

const MTIME: u64 = 1586621688;

fn regular(content: &[u8]) -> FileMetadata {
    FileMetadata::Regular { mtime: MTIME, hash: FileHash::MD5(compute_md5(content)) }
}

type Content = Option<Result<[u8; 16], String>>;

fn unread() -> Content {
    None
}

fn read(content: &[u8]) -> Content {
    Some(Ok(compute_md5(content)))
}

fn failed(cause: &str) -> Content {
    Some(Err(String::from(cause)))
}

fn seen(path: &str, ftype: FileType, mtime: u64, digest: Content) -> Observation {
    Observation { path: String::from(path), ftype, mtime, digest }
}

fn item(path: &str, ftype: FileType, status: FileStatus) -> ResultItem {
    ResultItem { path: String::from(path), ftype, status }
}

fn table() -> VarDB {
    let mut vdb = VarDB::new();
    assert!(vdb.insert(VarDBEntry { path: String::from("/usr/bin/tool"), metadata: regular(b"tool") }));
    assert!(vdb.insert(VarDBEntry { path: String::from("/usr/bin/other"), metadata: regular(b"other") }));
    assert!(vdb.insert(VarDBEntry { path: String::from("/usr/bin"), metadata: FileMetadata::Directory }));
    assert!(vdb.insert(VarDBEntry {
        path: String::from("/usr/bin/link"),
        metadata: FileMetadata::Symlink { mtime: MTIME, dest: String::from("tool") },
    }));
    vdb
}

fn hex(content: &[u8]) -> String {
    compute_md5(content).iter().map(|byte| format!("{:02x}", byte)).collect()
}

fn line(text: String) -> Event {
    Event::Line { text }
}

/// The events of a database that records what `table` holds.
fn manifest() -> Vec<Event> {
    vec![
        Event::Atom { dir: String::from("/db/cat/tool-1"), name: Some(String::from("tool-1")) },
        line(format!("obj /usr/bin/tool {} {}", hex(b"tool"), MTIME)),
        line(String::from("dir /usr/bin")),
        line(format!("sym /usr/bin/link -> tool {}", MTIME)),
        Event::Atom { dir: String::from("/db/cat/other-2"), name: Some(String::from("other-2")) },
        line(format!("obj /usr/bin/other {} {}", hex(b"other"), MTIME)),
        line(format!("obj /opt/far {} {}", hex(b"far"), MTIME)),
    ]
}

fn roots() -> Vec<String> {
    vec![String::from("/usr")]
}

const NO_FLAGS: NodeFlags = NodeFlags {
    block_device: false,
    char_device: false,
    fifo: false,
    socket: false,
    dir: false,
    symlink: false,
    file: false,
};

#[test]
fn kind_is_that_of_the_first_flag() {
    assert_eq!(FileType::from_flags(NO_FLAGS), None);
    assert_eq!(FileType::from_flags(NodeFlags { file: true, ..NO_FLAGS }), Some(FileType::REG));
    assert_eq!(FileType::from_flags(NodeFlags { symlink: true, ..NO_FLAGS }), Some(FileType::LNK));
    assert_eq!(FileType::from_flags(NodeFlags { dir: true, ..NO_FLAGS }), Some(FileType::DIR));
    assert_eq!(FileType::from_flags(NodeFlags { socket: true, ..NO_FLAGS }), Some(FileType::SOCK));
    assert_eq!(FileType::from_flags(NodeFlags { fifo: true, ..NO_FLAGS }), Some(FileType::FIFO));
    assert_eq!(
        FileType::from_flags(NodeFlags { char_device: true, ..NO_FLAGS }),
        Some(FileType::CHR)
    );
    assert_eq!(
        FileType::from_flags(NodeFlags { block_device: true, ..NO_FLAGS }),
        Some(FileType::BLK)
    );
    assert_eq!(
        FileType::from_flags(NodeFlags { file: true, symlink: true, dir: true, ..NO_FLAGS }),
        Some(FileType::DIR)
    );
    assert_eq!(
        FileType::from_flags(NodeFlags { block_device: true, char_device: true, file: true, ..NO_FLAGS }),
        Some(FileType::BLK)
    );
}

#[test]
fn unmodified_file_is_aligned() {
    let expected = regular(b"tool");
    // The content is not looked at: no digest, or even another one, changes nothing.
    for digest in [unread(), read(b"tool"), read(b"tampered")] {
        assert!(!needs_digest(FileType::REG, MTIME, Some(&expected)));
        assert_eq!(
            check_file(&seen("/usr/bin/tool", FileType::REG, MTIME, digest), Some(&expected)),
            Ok(item("/usr/bin/tool", FileType::REG, FileStatus::Aligned))
        );
    }
}

#[test]
fn file_with_other_mtime_and_same_content_is_touched() {
    let expected = regular(b"tool");
    for mtime in [MTIME + 1, MTIME - 1, 0, u64::MAX] {
        assert!(needs_digest(FileType::REG, mtime, Some(&expected)));
        assert_eq!(
            check_file(
                &seen("/usr/bin/tool", FileType::REG, mtime, read(b"tool")),
                Some(&expected)
            ),
            Ok(item("/usr/bin/tool", FileType::REG, FileStatus::Touched))
        );
    }
}

#[test]
fn file_with_other_mtime_and_other_content_is_altered() {
    let expected = regular(b"tool");
    assert_eq!(
        check_file(
            &seen("/usr/bin/tool", FileType::REG, MTIME + 1, read(b"tampered")),
            Some(&expected)
        ),
        Ok(item("/usr/bin/tool", FileType::REG, FileStatus::Altered))
    );
}

#[test]
fn file_with_other_mtime_is_not_settled_without_its_content() {
    let expected = regular(b"tool");
    assert_eq!(
        check_file(
            &seen("/usr/bin/tool", FileType::REG, MTIME + 1, failed("denied")),
            Some(&expected)
        ),
        Err(Error::FileUnreadable {
            path: String::from("/usr/bin/tool"),
            source: String::from("denied"),
        })
    );
}

#[test]
fn node_of_another_kind_is_changed() {
    let expected = regular(b"tool");
    for ftype in [
        FileType::DIR,
        FileType::LNK,
        FileType::FIFO,
        FileType::CHR,
        FileType::BLK,
        FileType::SOCK,
    ] {
        for mtime in [MTIME, MTIME + 1] {
            assert!(!needs_digest(ftype, mtime, Some(&expected)));
            assert_eq!(
                check_file(&seen("/usr/bin/tool", ftype, mtime, unread()), Some(&expected)),
                Ok(item("/usr/bin/tool", ftype, FileStatus::Changed))
            );
        }
    }
}

#[test]
fn unrecorded_node_is_an_orphan() {
    for ftype in [FileType::REG, FileType::LNK, FileType::SOCK] {
        assert!(!needs_digest(ftype, MTIME, None));
        assert_eq!(
            check_file(&seen("/usr/bin/new", ftype, MTIME, unread()), None),
            Ok(item("/usr/bin/new", ftype, FileStatus::Orphan))
        );
    }
}

#[test]
fn only_the_expectation_of_a_regular_file_is_held_against_a_node() {
    let link = FileMetadata::Symlink { mtime: MTIME, dest: String::from("tool") };
    for expected in [FileMetadata::Directory, FileMetadata::Device, FileMetadata::Fifo, link] {
        for (ftype, mtime) in [(FileType::REG, MTIME + 5), (FileType::LNK, MTIME), (FileType::FIFO, 0)] {
            assert!(!needs_digest(ftype, mtime, Some(&expected)));
            assert_eq!(
                check_file(&seen("/usr/bin/link", ftype, mtime, unread()), Some(&expected)),
                Ok(item("/usr/bin/link", ftype, FileStatus::Orphan))
            );
        }
    }
}

#[test]
fn changed_hash_holds_the_digest_against_the_record() {
    let hash = FileHash::MD5(compute_md5(b"tool"));
    assert_eq!(changed_hash("/a", &read(b"tool"), &hash), Ok(false));
    assert_eq!(changed_hash("/a", &read(b"took"), &hash), Ok(true));
    assert_eq!(
        changed_hash("/a", &failed("gone"), &hash),
        Err(Error::FileUnreadable { path: String::from("/a"), source: String::from("gone") })
    );
}

#[test]
fn statuses_of_an_unmodified_tree_are_aligned() {
    let observations = vec![
        seen("/usr/bin", FileType::DIR, 5, unread()),
        seen("/usr/bin/tool", FileType::REG, MTIME, unread()),
        seen("/usr/bin/other", FileType::REG, MTIME, unread()),
    ];
    let results = statuses(&roots(), &manifest(), &observations).unwrap();
    assert_eq!(
        results.items(),
        &vec![
            item("/usr/bin/tool", FileType::REG, FileStatus::Aligned),
            item("/usr/bin/other", FileType::REG, FileStatus::Aligned),
        ]
    );
    assert_eq!(results.get("/usr/bin"), None);
}

#[test]
fn statuses_give_each_node_its_status() {
    let observations = vec![
        seen("/usr", FileType::DIR, 1, unread()),
        seen("/usr/bin", FileType::DIR, 2, unread()),
        seen("/usr/bin/tool", FileType::REG, MTIME + 10, read(b"tool")),
        seen("/usr/bin/other", FileType::REG, MTIME + 10, read(b"0ther")),
        seen("/usr/bin/link", FileType::LNK, MTIME, unread()),
        seen("/usr/bin/stray", FileType::REG, 3, unread()),
    ];
    let results = statuses(&roots(), &manifest(), &observations).unwrap();
    assert_eq!(
        results.get("/usr/bin/tool"),
        Some(&item("/usr/bin/tool", FileType::REG, FileStatus::Touched))
    );
    assert_eq!(
        results.get("/usr/bin/other"),
        Some(&item("/usr/bin/other", FileType::REG, FileStatus::Altered))
    );
    assert_eq!(
        results.get("/usr/bin/link"),
        Some(&item("/usr/bin/link", FileType::LNK, FileStatus::Orphan))
    );
    assert_eq!(
        results.get("/usr/bin/stray"),
        Some(&item("/usr/bin/stray", FileType::REG, FileStatus::Orphan))
    );
    assert_eq!(results.get("/usr"), None);
    assert_eq!(results.get("/usr/bin"), None);
    assert_eq!(results.items().len(), 4);
}

#[test]
fn statuses_give_changed_to_a_link_in_place_of_a_file() {
    let observations = vec![seen("/usr/bin/tool", FileType::LNK, MTIME, unread())];
    let results = statuses(&roots(), &manifest(), &observations).unwrap();
    assert_eq!(
        results.items(),
        &vec![item("/usr/bin/tool", FileType::LNK, FileStatus::Changed)]
    );
}

#[test]
fn statuses_pass_over_a_directory_in_place_of_a_file() {
    let observations = vec![seen("/usr/bin/tool", FileType::DIR, MTIME, unread())];
    let results = statuses(&roots(), &manifest(), &observations).unwrap();
    assert!(results.items().is_empty());
}

#[test]
fn statuses_end_with_the_first_unreadable_file() {
    let observations = vec![
        seen("/usr/bin/stray", FileType::REG, 3, unread()),
        seen("/usr/bin/tool", FileType::REG, MTIME + 1, failed("first")),
        seen("/usr/bin/other", FileType::REG, MTIME + 1, failed("second")),
    ];
    assert_eq!(
        statuses(&roots(), &manifest(), &observations).err(),
        Some(Error::FileUnreadable {
            path: String::from("/usr/bin/tool"),
            source: String::from("first"),
        })
    );
}

#[test]
fn statuses_keep_the_last_result_of_a_path() {
    let observations = vec![
        seen("/usr/bin/tool", FileType::REG, MTIME, unread()),
        seen("/usr/bin/stray", FileType::REG, 3, unread()),
        seen("/usr/bin/tool", FileType::FIFO, MTIME, unread()),
    ];
    let results = statuses(&roots(), &manifest(), &observations).unwrap();
    assert_eq!(
        results.items(),
        &vec![
            item("/usr/bin/tool", FileType::FIFO, FileStatus::Changed),
            item("/usr/bin/stray", FileType::REG, FileStatus::Orphan),
        ]
    );
}

#[test]
fn statuses_of_nothing_are_empty() {
    let results = statuses(&roots(), &manifest(), &vec![]).unwrap();
    assert!(results.items().is_empty());
    assert_eq!(results.get("/usr/bin/tool"), None);
}

#[test]
fn result_set_holds_one_result_for_a_path() {
    let results = ResultSet::new();
    assert!(results.items().is_empty());
    let results = results.insert(item("/a", FileType::REG, FileStatus::Orphan));
    let results = results.insert(item("/b", FileType::LNK, FileStatus::Orphan));
    let results = results.insert(item("/a", FileType::REG, FileStatus::Aligned));
    assert_eq!(results.get("/a"), Some(&item("/a", FileType::REG, FileStatus::Aligned)));
    assert_eq!(results.get("/b"), Some(&item("/b", FileType::LNK, FileStatus::Orphan)));
    assert_eq!(results.get("/c"), None);
    assert_eq!(
        results.items(),
        &vec![
            item("/a", FileType::REG, FileStatus::Aligned),
            item("/b", FileType::LNK, FileStatus::Orphan),
        ]
    );
}

#[test]
fn check_dir_adds_to_the_results() {
    let store = table();
    let results = ResultSet::new().insert(item("/etc/passwd", FileType::REG, FileStatus::Orphan));
    let first = vec![
        seen("/usr/bin", FileType::DIR, 2, unread()),
        seen("/usr/stray", FileType::REG, 3, unread()),
    ];
    let second = vec![
        seen("/usr/bin/tool", FileType::REG, MTIME, unread()),
        seen("/usr/bin/other", FileType::REG, MTIME + 1, read(b"other")),
    ];
    let results = check_dir(&first, &store, results).unwrap();
    let results = check_dir(&second, &store, results).unwrap();
    assert_eq!(
        results.items(),
        &vec![
            item("/etc/passwd", FileType::REG, FileStatus::Orphan),
            item("/usr/stray", FileType::REG, FileStatus::Orphan),
            item("/usr/bin/tool", FileType::REG, FileStatus::Aligned),
            item("/usr/bin/other", FileType::REG, FileStatus::Touched),
        ]
    );

    // Part by part, or all at once: the results are the same.
    let mut whole = first;
    whole.extend(second);
    let at_once = check_dir(
        &whole,
        &store,
        ResultSet::new().insert(item("/etc/passwd", FileType::REG, FileStatus::Orphan)),
    )
    .unwrap();
    assert_eq!(at_once.items(), results.items());
}

#[test]
fn check_dir_ends_with_the_first_unreadable_file() {
    let entries = vec![
        seen("/usr/bin/tool", FileType::REG, MTIME + 1, failed("denied")),
        seen("/usr/bin/stray", FileType::REG, 3, unread()),
    ];
    assert_eq!(
        check_dir(&entries, &table(), ResultSet::new()).err(),
        Some(Error::FileUnreadable {
            path: String::from("/usr/bin/tool"),
            source: String::from("denied"),
        })
    );
}

#[test]
fn failure_of_the_database_is_a_failure_of_the_audit() {
    let source = vardbapi::Error::AtomInvalidName { path: String::from("/db/cat/-MERGING-a") };
    assert_eq!(Error::from(source.clone()), Error::VarDBError { source });
}

#[test]
fn file_that_was_not_read_where_it_had_to_be_is_unreadable() {
    let expected = regular(b"tool");
    assert_eq!(
        check_file(&seen("/usr/bin/tool", FileType::REG, MTIME + 1, unread()), Some(&expected)),
        Err(Error::FileUnreadable {
            path: String::from("/usr/bin/tool"),
            source: String::from("content was not read"),
        })
    );
    assert_eq!(
        changed_hash("/a", &unread(), &FileHash::MD5(compute_md5(b"tool"))),
        Err(Error::FileUnreadable {
            path: String::from("/a"),
            source: String::from("content was not read"),
        })
    );
}

#[test]
fn walk_lists_the_roots_and_then_what_it_finds() {
    let store = table();
    let mut walk = Walk::new(&vec![String::from("/usr"), String::from("/etc")]);
    assert_eq!(walk.next(), Some(String::from("/usr")));
    walk = walk
        .listed(
            &vec![
                seen("/usr/bin", FileType::DIR, 0, unread()),
                seen("/usr/stray", FileType::REG, 3, unread()),
                seen("/usr/lib", FileType::DIR, 0, unread()),
            ],
            None,
            &store,
        )
        .unwrap();
    assert_eq!(walk.next(), Some(String::from("/etc")));
    walk = walk
        .listed(&vec![seen("/etc/conf.d", FileType::DIR, 0, unread())], None, &store)
        .unwrap();
    assert_eq!(walk.next(), Some(String::from("/usr/bin")));
    walk = walk
        .listed(
            &vec![
                seen("/usr/bin/tool", FileType::REG, MTIME, unread()),
                seen("/usr/bin/link", FileType::LNK, MTIME, unread()),
            ],
            None,
            &store,
        )
        .unwrap();
    assert_eq!(walk.next(), Some(String::from("/usr/lib")));
    walk = walk.listed(&vec![], None, &store).unwrap();
    assert_eq!(walk.next(), Some(String::from("/etc/conf.d")));
    walk = walk.listed(&vec![], None, &store).unwrap();
    assert_eq!(walk.next(), None);
    assert_eq!(walk.next(), None);
    assert_eq!(
        walk.finish().items(),
        &vec![
            item("/usr/stray", FileType::REG, FileStatus::Orphan),
            item("/usr/bin/tool", FileType::REG, FileStatus::Aligned),
            item("/usr/bin/link", FileType::LNK, FileStatus::Orphan),
        ]
    );
}

#[test]
fn walk_of_no_roots_finds_nothing() {
    let mut walk = Walk::new(&vec![]);
    assert_eq!(walk.next(), None);
    assert!(walk.finish().items().is_empty());
}

#[test]
fn walk_ends_with_the_first_unreadable_file() {
    let mut walk = Walk::new(&vec![String::from("/usr/bin")]);
    assert_eq!(walk.next(), Some(String::from("/usr/bin")));
    let done = walk.listed(
        &vec![
            seen("/usr/bin/sub", FileType::DIR, 0, unread()),
            seen("/usr/bin/tool", FileType::REG, MTIME + 1, failed("denied")),
        ],
        None,
        &table(),
    );
    assert_eq!(
        done.err(),
        Some(Error::FileUnreadable {
            path: String::from("/usr/bin/tool"),
            source: String::from("denied"),
        })
    );
}

#[test]
fn walk_ends_with_what_interrupted_a_listing() {
    let unlistable =
        Interruption::Unlistable { dir: String::from("/usr"), cause: String::from("denied") };
    let unexaminable = Interruption::Unexaminable {
        path: String::from("/usr/gone"),
        cause: String::from("no such file"),
    };
    let undated = Interruption::Undated {
        path: String::from("/usr/odd"),
        cause: String::from("not supported"),
    };
    assert_eq!(
        unlistable.error(),
        Error::DirUnreadable { path: String::from("/usr"), source: String::from("denied") }
    );
    assert_eq!(
        unexaminable.error(),
        Error::DirUnreadable {
            path: String::from("/usr/gone"),
            source: String::from("no such file"),
        }
    );
    assert_eq!(
        undated.error(),
        Error::FileUnreadable {
            path: String::from("/usr/odd"),
            source: String::from("not supported"),
        }
    );

    let entries = vec![seen("/usr/stray", FileType::REG, 3, unread())];
    for interruption in [&unlistable, &unexaminable, &undated] {
        let mut walk = Walk::new(&vec![String::from("/usr")]);
        assert_eq!(walk.next(), Some(String::from("/usr")));
        assert_eq!(
            walk.listed(&entries, Some(interruption), &table()).err(),
            Some(interruption.error())
        );
    }
}

#[test]
fn walk_ends_with_an_unreadable_file_before_the_interruption() {
    let undated = Interruption::Undated {
        path: String::from("/usr/bin/odd"),
        cause: String::from("not supported"),
    };
    let mut walk = Walk::new(&vec![String::from("/usr/bin")]);
    assert_eq!(walk.next(), Some(String::from("/usr/bin")));
    let done = walk.listed(
        &vec![seen("/usr/bin/tool", FileType::REG, MTIME + 1, failed("denied"))],
        Some(&undated),
        &table(),
    );
    assert_eq!(
        done.err(),
        Some(Error::FileUnreadable {
            path: String::from("/usr/bin/tool"),
            source: String::from("denied"),
        })
    );
}

#[test]
fn statuses_fail_with_the_error_of_the_database() {
    let mut events = manifest();
    events.push(line(String::from("obj /usr/bin/late 12 soon")));
    let observations = vec![seen("/usr/bin/tool", FileType::REG, MTIME + 1, failed("denied"))];
    assert_eq!(
        statuses(&roots(), &events, &observations).err(),
        Some(Error::VarDBError {
            source: vardbapi::Error::EntryInvalidMTime {
                path: String::from("/db/cat/other-2/CONTENTS"),
                line: 3,
                raw: String::from("obj /usr/bin/late 12 soon"),
                source: estatus::number::NumberError::InvalidDigit,
            },
        })
    );
}

#[test]
fn statuses_go_by_what_lies_under_the_roots() {
    let observations = vec![
        seen("/opt/far", FileType::REG, MTIME, unread()),
        seen("/usr/bin/tool", FileType::REG, MTIME, unread()),
    ];
    let narrow = statuses(&roots(), &manifest(), &observations).unwrap();
    assert_eq!(narrow.get("/opt/far"), Some(&item("/opt/far", FileType::REG, FileStatus::Orphan)));
    let wide =
        statuses(&vec![String::from("/usr"), String::from("/opt")], &manifest(), &observations)
            .unwrap();
    assert_eq!(wide.get("/opt/far"), Some(&item("/opt/far", FileType::REG, FileStatus::Aligned)));
    assert_eq!(
        wide.get("/usr/bin/tool"),
        Some(&item("/usr/bin/tool", FileType::REG, FileStatus::Aligned))
    );
}
