use deskoryn::config::ConflictPolicy;
use deskoryn::conflict::{is_inside, resolve_conflict, unique_name, TransferError};
use deskoryn::filelist::{encode_list, from_path, parse_list, parse_text, percent_decode};
use deskoryn::manifest::{build, Found};
use deskoryn::message::{
    ClipFormat, ClipPayload, Clipboard, FileEntry, FileResume, FileXfer, Manifest, StreamPurpose,
};
use deskoryn::progress::ProgressTracker;
use deskoryn::selection::{
    accepted, drop_list, forms, serve, told_property, Atoms, Served, NO_ATOM,
};
use deskoryn::sync::{plan, SyncAction};
use deskoryn::transfer::{
    download_dir, file_chunks, outgoing, place_entry, read_offer, read_reply, resume_offset,
    route_stream, stream_limit, stream_payload, FileSink, Incoming, OfferError, Placement,
    SentRoot, Step, StreamRoute, CHUNK,
};

fn texts(v: &[&str]) -> Vec<String> {
    v.iter().map(|s| s.to_string()).collect()
}

fn entry(path: &str, size: u64, mtime: u64, hash: Option<u8>) -> FileEntry {
    FileEntry {
        rel_path: path.to_string(),
        size,
        is_dir: false,
        mtime: Some(mtime),
        mode: None,
        hash: hash.map(|h| [h; 32]),
    }
}

fn directory(path: &str) -> FileEntry {
    FileEntry {
        rel_path: path.to_string(),
        size: 0,
        is_dir: true,
        mtime: None,
        mode: None,
        hash: None,
    }
}

fn manifest(files: Vec<FileEntry>) -> Manifest {
    let total = files.iter().map(|f| f.size).sum();
    Manifest { files, total_bytes: total }
}

// --- Lists of files ----------------------------------------------------------

#[test]
fn uri_round_trip_with_spaces() {
    let paths = texts(&["/home/me/a file.txt", "/tmp/x"]);
    let bytes = encode_list(&paths, false);
    assert_eq!(parse_list(&bytes, false), paths);
}

#[test]
fn gnome_form_skips_verb() {
    let paths = texts(&["/tmp/a", "/tmp/b"]);
    let bytes = encode_list(&paths, true);
    assert!(bytes.starts_with(b"copy\n"));
    assert_eq!(parse_list(&bytes, true), paths);
}

#[test]
fn plain_lists_end_every_line() {
    let paths = texts(&["/tmp/a b"]);
    assert_eq!(encode_list(&paths, false), b"file:///tmp/a%20b\r\n".to_vec());
    assert_eq!(encode_list(&paths, true), b"copy\nfile:///tmp/a%20b".to_vec());
}

#[test]
fn uris_escape_what_is_not_plain() {
    assert_eq!(from_path("/a-b_c.d~/\u{e9}"), "file:///a-b_c.d~/%C3%A9");
    assert_eq!(percent_decode("/%C3%A9"), Some("/\u{e9}".to_string()));
    assert_eq!(percent_decode("/%zz"), None);
    assert_eq!(percent_decode("/%ff"), None);
    assert_eq!(percent_decode("/a%4"), Some("/a%4".to_string()));
}

#[test]
fn lists_drop_comments_hosts_and_other_schemes() {
    let text = "# files\n\nfile://host/tmp/a\nhttp://example.org/\n  file:///tmp/b  \n";
    assert_eq!(parse_text(text, false), texts(&["/tmp/a", "/tmp/b"]));
}

#[test]
fn bytes_that_are_no_text_are_read_as_well_as_can_be() {
    let mut bytes = b"file:///tmp/a\n".to_vec();
    bytes.push(0xff);
    assert_eq!(parse_list(&bytes, false), texts(&["/tmp/a"]));
}

fn atoms() -> Atoms {
    Atoms { clipboard: 1, targets: 2, uri_list: 3, gnome: 4, prop: 5 }
}

#[test]
fn selections_are_served_by_target() {
    assert_eq!(serve(&atoms(), 2, 9), (Served::Targets, 9));
    assert_eq!(serve(&atoms(), 3, 9), (Served::UriList, 9));
    assert_eq!(serve(&atoms(), 4, NO_ATOM), (Served::Gnome, 4));
    assert_eq!(serve(&atoms(), 7, 9), (Served::Refused, 9));
    assert_eq!(told_property(Served::UriList, 9, true), 9);
    assert_eq!(told_property(Served::UriList, 9, false), NO_ATOM);
    assert_eq!(told_property(Served::Refused, 9, true), NO_ATOM);
}

#[test]
fn the_form_with_a_verb_is_asked_for_first() {
    assert_eq!(forms(&atoms()), vec![(4, true), (3, false)]);
    assert_eq!(accepted(b"copy\nfile:///tmp/a", true), Some(texts(&["/tmp/a"])));
    assert_eq!(accepted(b"copy\n", true), None);
}

#[test]
fn drop_lists_close_twice() {
    let paths: Vec<Vec<u16>> = vec![vec![65, 66], vec![67]];
    assert_eq!(drop_list(&paths), vec![65, 66, 0, 67, 0, 0]);
    assert_eq!(drop_list(&vec![]), vec![0]);
}

// --- Where files go ----------------------------------------------------------

#[test]
fn rejects_path_traversal() {
    let root = "/tmp/deskoryn-dl";
    let evil = "/etc/passwd";
    assert!(matches!(
        resolve_conflict(root, evil, false, &vec![], ConflictPolicy::Overwrite),
        Err(TransferError::UnsafePath(_))
    ));
}

#[test]
fn climbing_out_of_the_root_is_no_way_in() {
    assert!(is_inside("/tmp/dl", "/tmp/dl/a/b"));
    assert!(!is_inside("/tmp/dl", "/tmp/dl/../x"));
    assert!(!is_inside("/tmp/dl", "/tmp/dlx/a"));
    assert!(matches!(
        resolve_conflict("/tmp/dl", "/tmp/dl/../x", false, &vec![], ConflictPolicy::Rename),
        Err(TransferError::UnsafePath(_))
    ));
}

#[test]
fn policies_decide_on_names_that_are_taken() {
    let dest = "/dl/a.txt";
    let taken = texts(&["a.txt"]);
    let free = resolve_conflict("/dl", dest, false, &vec![], ConflictPolicy::Rename);
    assert!(matches!(free, Ok(Some(p)) if p == dest));
    let over = resolve_conflict("/dl", dest, true, &taken, ConflictPolicy::Overwrite);
    assert!(matches!(over, Ok(Some(p)) if p == dest));
    let skip = resolve_conflict("/dl", dest, true, &taken, ConflictPolicy::Skip);
    assert!(matches!(skip, Ok(None)));
    let other = resolve_conflict("/dl", dest, true, &taken, ConflictPolicy::Rename);
    assert!(matches!(other, Ok(Some(p)) if p == "/dl/a (2).txt"));
    let ask = resolve_conflict("/dl", dest, true, &taken, ConflictPolicy::Ask);
    assert!(matches!(ask, Ok(Some(p)) if p == "/dl/a (2).txt"));
}

#[test]
fn renaming_goes_on_until_a_name_is_free() {
    let taken = texts(&["a.txt", "a (2).txt", "a (3).txt"]);
    assert_eq!(unique_name("/dl/a.txt", &taken), "/dl/a (4).txt");
    assert_eq!(unique_name("/dl/README", &texts(&["README"])), "/dl/README (2)");
}

#[test]
fn commands_name_the_download_directory() {
    let some = |s: &str| Some(s.to_string());
    assert_eq!(download_dir(some("/a"), some("/b"), "/tmp"), "/a");
    assert_eq!(download_dir(None, some("/b"), "/tmp"), "/b");
    assert_eq!(download_dir(None, None, "/tmp"), "/tmp/deskoryn-received");
}

// --- Manifests ---------------------------------------------------------------

fn found(path: &[&str], is_dir: bool, size: u64) -> Found {
    Found { path: texts(path), is_dir, size, mtime: Some(5), mode: Some(0o644) }
}

#[test]
fn manifests_list_directories_before_what_is_in_them() {
    let root = vec![
        found(&["p", "b.txt"], false, 3),
        found(&["p"], true, 0),
        found(&["p", "a.txt"], false, 4),
    ];
    let m = build(&vec![root]);
    let names: Vec<&str> = m.files.iter().map(|f| f.rel_path.as_str()).collect();
    assert_eq!(names, vec!["p", "p/a.txt", "p/b.txt"]);
    assert_eq!(m.total_bytes, 7);
    assert!(m.files[0].is_dir);
    assert_eq!(m.files[1].size, 4);
}

// --- Folders in step ---------------------------------------------------------

fn has(actions: &[SyncAction], kind: &str, path: &str) -> bool {
    actions.iter().any(|a| {
        let k = match a {
            SyncAction::Push(_) => "push",
            SyncAction::Pull(_) => "pull",
            SyncAction::Conflict(_) => "conflict",
            SyncAction::InSync(_) => "same",
        };
        k == kind && a.path() == path
    })
}

#[test]
fn classifies_each_case() {
    let local = manifest(vec![
        entry("same.txt", 10, 100, Some(1)),
        entry("local_new.txt", 5, 200, Some(2)),
        entry("remote_new.txt", 5, 100, Some(3)),
        entry("only_local.txt", 7, 100, Some(4)),
        entry("clash.txt", 9, 150, Some(5)),
    ]);
    let remote = manifest(vec![
        entry("same.txt", 10, 100, Some(1)),
        entry("local_new.txt", 5, 100, Some(9)),
        entry("remote_new.txt", 5, 200, Some(9)),
        entry("clash.txt", 9, 150, Some(6)),
        entry("only_remote.txt", 3, 100, Some(7)),
    ]);

    let actions = plan(&local, &remote, true);
    assert!(has(&actions, "same", "same.txt"));
    assert!(has(&actions, "push", "local_new.txt"));
    assert!(has(&actions, "pull", "remote_new.txt"));
    assert!(has(&actions, "push", "only_local.txt"));
    assert!(has(&actions, "conflict", "clash.txt"));
    assert!(has(&actions, "pull", "only_remote.txt"));
}

#[test]
fn one_way_mirror_skips_remote_only() {
    let local = manifest(vec![entry("a.txt", 1, 100, Some(1))]);
    let remote = manifest(vec![entry("b.txt", 1, 100, Some(2))]);
    let actions = plan(&local, &remote, false);
    assert!(has(&actions, "push", "a.txt"));
    assert!(!actions.iter().any(|a| matches!(a, SyncAction::Pull(_))));
}

#[test]
fn both_sides_settle_alike() {
    let a = manifest(vec![entry("x", 1, 100, Some(1))]);
    let b = manifest(vec![entry("x", 1, 200, Some(2))]);
    assert!(has(&plan(&a, &b, true), "pull", "x"));
    assert!(has(&plan(&b, &a, true), "push", "x"));
}

// --- Progress ----------------------------------------------------------------

#[test]
fn fraction_and_eta() {
    let mut p = ProgressTracker::new(1, 1000, 2);
    p.advance(250);
    let (done, total) = p.fraction();
    assert!((done as f32 / total as f32 - 0.25).abs() < 1e-6);
    assert_eq!(p.eta_secs(), None);
    p.bytes_per_sec = 250;
    assert_eq!(p.eta_secs(), Some(3));
}

#[test]
fn a_transfer_without_bytes_is_done_with_its_files() {
    let mut p = ProgressTracker::new(1, 0, 1);
    assert_eq!(p.fraction(), (0, 1));
    p.complete_file();
    assert_eq!(p.fraction(), (1, 1));
}

// --- Files in chunks ---------------------------------------------------------

fn chunk_of(m: &FileXfer) -> (u64, usize) {
    match m {
        FileXfer::Chunk { offset, data, .. } => (*offset, data.len()),
        other => panic!("no chunk: {:?}", other),
    }
}

#[test]
fn files_are_cut_into_chunks() {
    let bytes: Vec<u8> = (0..CHUNK + 10).map(|i| (i % 251) as u8).collect();
    let msgs = file_chunks(7, 2, &bytes, 0);
    assert_eq!(msgs.len(), 2);
    assert_eq!(chunk_of(&msgs[0]), (0, CHUNK));
    assert_eq!(chunk_of(&msgs[1]), (CHUNK as u64, 10));
    let rest = file_chunks(7, 2, &bytes, CHUNK as u64 + 4);
    assert_eq!(rest.len(), 1);
    assert_eq!(chunk_of(&rest[0]), (CHUNK as u64 + 4, 6));
    assert!(file_chunks(7, 2, &bytes, bytes.len() as u64 + 1).is_empty());
}

#[test]
fn sinks_want_chunks_in_order_and_check_the_hash() {
    let mut s = FileSink::create(b"");
    assert!(s.write_chunk(0, b"hello ").is_ok());
    assert!(matches!(
        s.write_chunk(2, b"x"),
        Err(TransferError::WrongOffset { expected: 6, got: 2 })
    ));
    assert!(s.write_chunk(6, b"deskoryn").is_ok());
    assert_eq!(s.written(), 14);
    let digest: [u8; 32] = *blake3::hash(b"hello deskoryn").as_bytes();
    assert!(s.finish(&Some(digest), "a.txt").is_ok());
    assert!(s.finish(&None, "a.txt").is_ok());
    assert!(matches!(
        s.finish(&Some([0; 32]), "a.txt"),
        Err(TransferError::HashMismatch(n)) if n == "a.txt"
    ));
}

#[test]
fn resumed_files_meet_the_whole_hash() {
    let whole: Vec<u8> = (0..CHUNK + 900).map(|i| (i % 253) as u8).collect();
    let digest: [u8; 32] = *blake3::hash(&whole).as_bytes();
    let mut s = FileSink::create(&whole[..500]);
    assert_eq!(s.written(), 500);
    for m in file_chunks(1, 0, &whole, s.written()) {
        match m {
            FileXfer::Chunk { offset, data, .. } => assert!(s.write_chunk(offset, &data).is_ok()),
            other => panic!("{:?}", other),
        }
    }
    assert_eq!(s.written(), whole.len() as u64);
    assert!(s.finish(&Some(digest), "a").is_ok());
    let tail = *blake3::hash(&whole[500..]).as_bytes();
    assert!(s.finish(&Some(tail), "a").is_err());
}

#[test]
fn offers_are_answered() {
    let offer = FileXfer::Offer { tag: 3, manifest: manifest(vec![]) };
    assert!(matches!(read_offer(Some(offer)), Ok((3, _))));
    assert!(matches!(read_offer(None), Err(TransferError::NoOffer)));
    let yes = FileXfer::Accept { tag: 3, resume: vec![FileResume { file_index: 1, offset: 9 }] };
    let resume = read_reply(Some(yes)).unwrap();
    assert_eq!(resume_offset(&resume, 1), 9);
    assert_eq!(resume_offset(&resume, 0), 0);
    let no = FileXfer::Reject { tag: 3, reason: "busy".to_string() };
    assert!(matches!(read_reply(Some(no)), Err(OfferError::Rejected(r)) if r == "busy"));
    assert!(matches!(read_reply(None), Err(OfferError::UnexpectedReply)));
}

#[test]
fn directories_are_not_sent() {
    let m = manifest(vec![directory("p"), entry("p/a.txt", 3, 1, None)]);
    let resume = vec![FileResume { file_index: 1, offset: 2 }];
    let roots = vec![root("/src/p", Some("/src"), 2)];
    let out = outgoing(&roots, &m, &resume);
    assert_eq!(out.len(), 1);
    assert_eq!((out[0].index, out[0].path.as_str(), out[0].start), (1, "/src/p/a.txt", 2));
    assert_eq!(outgoing(&vec![], &m, &vec![])[0].path, "./p/a.txt");
}

fn root(path: &str, parent: Option<&str>, entries: usize) -> SentRoot {
    SentRoot { path: path.to_string(), parent: parent.map(|p| p.to_string()), entries }
}

#[test]
fn roots_are_read_where_they_lie() {
    let m = manifest(vec![
        directory("p"),
        entry("p/a.txt", 3, 1, None),
        entry("b.txt", 1, 1, None),
        entry("etc/c", 1, 1, None),
    ]);
    let roots = vec![
        root("/src/p", Some("/src"), 2),
        root("b.txt", Some(""), 1),
        root("/", None, 1),
    ];
    let paths: Vec<String> = outgoing(&roots, &m, &vec![]).into_iter().map(|o| o.path).collect();
    assert_eq!(paths, texts(&["/src/p/a.txt", "b.txt", "/etc/c"]));
}

#[test]
fn empty_files_are_received() {
    let empty = |hash| {
        let mut e = entry("e", 0, 1, None);
        e.hash = hash;
        e
    };
    let start = |hash| {
        let dests = vec![None, Some("/dl/e".to_string()), Some("/dl/a".to_string())];
        let files = vec![directory("p"), empty(hash), entry("a", 1, 1, None)];
        Incoming::new(5, manifest(files), dests)
    };
    let digest: [u8; 32] = *blake3::hash(b"").as_bytes();
    let mut t = start(Some(digest));
    let chunk = FileXfer::Chunk { tag: 5, file_index: 2, offset: 0, data: vec![9] };
    assert!(matches!(t.on_message(Some(chunk)), Step::Write { index: 2, create: true, .. }));
    match t.on_message(Some(FileXfer::Complete { tag: 5 })) {
        Step::Done { empty } => assert_eq!(empty, vec![1]),
        other => panic!("{:?}", other),
    }
    assert_eq!(t.finish().unwrap(), texts(&["/dl/e", "/dl/a"]));
    assert_eq!(t.progress().files_done, 2);
    let mut t = start(Some([0; 32]));
    assert!(matches!(t.finish(), Err(TransferError::HashMismatch(n)) if n == "e"));
    assert_eq!(t.progress().files_done, 0);
}

#[test]
fn a_file_that_never_came_is_not_made() {
    let mut lost = entry("lost", 5, 1, None);
    lost.hash = Some([7; 32]);
    let dests = vec![Some("/dl/lost".to_string()), Some("/dl/e".to_string())];
    let mut t = Incoming::new(5, manifest(vec![lost, entry("e", 0, 1, None)]), dests);
    match t.on_message(Some(FileXfer::Complete { tag: 5 })) {
        Step::Done { empty } => assert_eq!(empty, vec![1]),
        other => panic!("{:?}", other),
    }
    assert_eq!(t.finish().unwrap(), texts(&["/dl/e"]));
    assert_eq!(t.progress().files_done, 1);
}

#[test]
fn entries_are_placed_below_the_download_directory() {
    let none = vec![];
    let d = place_entry("/dl", &directory("p"), false, &none, ConflictPolicy::Rename);
    assert!(matches!(d, Ok(Placement::Directory(p)) if p == "/dl/p"));
    let f = place_entry("/dl", &entry("p/a", 1, 1, None), false, &none, ConflictPolicy::Rename);
    assert!(matches!(f, Ok(Placement::File(p)) if p == "/dl/p/a"));
    let taken = texts(&["a"]);
    let s = place_entry("/dl", &entry("a", 1, 1, None), true, &taken, ConflictPolicy::Skip);
    assert!(matches!(s, Ok(Placement::Skipped)));
    let evil = entry("/etc/passwd", 1, 1, None);
    let e = place_entry("/dl", &evil, false, &none, ConflictPolicy::Overwrite);
    assert!(matches!(e, Err(TransferError::UnsafePath(_))));
    for name in ["/etc/x", "../x", "p/../../x"] {
        let d = place_entry("/dl", &directory(name), false, &none, ConflictPolicy::Rename);
        assert!(matches!(d, Err(TransferError::UnsafePath(_))), "{name}");
    }
}

#[test]
fn transfers_a_directory_tree() {
    let big: Vec<u8> = (0..200_000u32).map(|i| (i % 251) as u8).collect();
    let files: Vec<(&str, Vec<u8>)> =
        vec![("payload/a.txt", b"hello deskoryn".to_vec()), ("payload/sub/b.bin", big)];
    let mut entries = vec![directory("payload"), directory("payload/sub")];
    for (name, bytes) in &files {
        let mut e = entry(name, bytes.len() as u64, 1, None);
        e.hash = Some(*blake3::hash(bytes).as_bytes());
        entries.push(e);
    }
    let mut dests = vec![];
    for e in &entries {
        match place_entry("/dl", e, false, &vec![], ConflictPolicy::Rename) {
            Ok(Placement::File(p)) => dests.push(Some(p)),
            Ok(_) => dests.push(None),
            Err(e) => panic!("{:?}", e),
        }
    }
    let mut incoming = Incoming::new(5, manifest(entries), dests);
    let mut landed: Vec<Vec<u8>> = vec![vec![]; 4];
    for (i, (_, bytes)) in files.iter().enumerate() {
        for m in file_chunks(5, i as u32 + 2, bytes, 0) {
            match incoming.on_message(Some(m)) {
                Step::Write { index, create, data } => {
                    assert_eq!(create, landed[index].is_empty());
                    landed[index].extend_from_slice(&data);
                }
                other => panic!("{:?}", other),
            }
        }
    }
    match incoming.on_message(Some(FileXfer::Complete { tag: 5 })) {
        Step::Done { empty } => assert!(empty.is_empty()),
        other => panic!("{:?}", other),
    }
    assert_eq!(landed[2], files[0].1);
    assert_eq!(landed[3], files[1].1);
    let written = incoming.finish().unwrap();
    assert_eq!(written, texts(&["/dl/payload/a.txt", "/dl/payload/sub/b.bin"]));
    assert_eq!(incoming.progress().files_done, 2);
    assert_eq!(incoming.progress().done_bytes, 200_014);
}

#[test]
fn transfers_fail_when_they_break_off() {
    let start = || {
        let dests = vec![Some("/dl/a".to_string())];
        Incoming::new(5, manifest(vec![entry("a", 2, 1, Some(0))]), dests)
    };
    let mut t = start();
    assert!(matches!(t.on_message(None), Step::Failed(TransferError::Closed)));
    let cancel = FileXfer::Cancel { tag: 5, reason: "no".to_string() };
    assert!(matches!(
        start().on_message(Some(cancel)),
        Step::Failed(TransferError::Cancelled(r)) if r == "no"
    ));
    let stray = FileXfer::Chunk { tag: 5, file_index: 8, offset: 0, data: vec![1] };
    assert!(matches!(start().on_message(Some(stray)), Step::Ignore));
    let mut t = start();
    let chunk = FileXfer::Chunk { tag: 5, file_index: 0, offset: 0, data: vec![1, 2] };
    assert!(matches!(t.on_message(Some(chunk)), Step::Write { index: 0, create: true, .. }));
    assert!(matches!(t.finish(), Err(TransferError::HashMismatch(n)) if n == "a"));
}

#[test]
fn streams_go_where_their_purpose_says() {
    assert_eq!(route_stream(Some(StreamPurpose::FileTransfer), true, false), StreamRoute::Receive);
    assert_eq!(route_stream(Some(StreamPurpose::FileTransfer), false, true), StreamRoute::Ignore);
    assert_eq!(route_stream(Some(StreamPurpose::ClipboardFiles), true, true), StreamRoute::ReceiveAndPaste);
    assert_eq!(route_stream(Some(StreamPurpose::ClipboardFiles), true, false), StreamRoute::Ignore);
    let data = Some(StreamPurpose::ClipboardData { tag: 1 });
    assert_eq!(route_stream(data, false, true), StreamRoute::WriteClipboard);
    assert_eq!(route_stream(None, true, true), StreamRoute::Ignore);
    assert_eq!(stream_limit(0), 1);
    assert_eq!(stream_limit(4), 4);
    let msg = Clipboard::Data { tag: 1, payload: ClipPayload::Text("x".to_string()) };
    assert!(matches!(stream_payload(Some(msg)), Some(ClipPayload::Text(t)) if t == "x"));
    let pull = Clipboard::Pull { seq: 1, format: ClipFormat::Png, tag: 1 };
    assert!(stream_payload(Some(pull)).is_none());
}
