use bs::digest::DigestSession;
use bs::engine::{Engine, Job, Observation, Source, Status};

fn strings(items: &[&str]) -> Vec<String> {
    items.iter().map(|s| s.to_string()).collect()
}

/// Drive one digestion job to completion, feeding the given chunks.
fn digest_job(engine: &mut Engine, identity: String, chunks: &[&[u8]]) {
    let mut session = DigestSession::new();
    for chunk in chunks {
        session.update(chunk);
    }
    engine.record_result(identity, session);
}

#[test]
fn empty_stream_digest_is_the_known_constant() {
    let session = DigestSession::new();
    let digest = session.finish();
    assert_eq!(digest.len(), 32);
    let rendered = bs::hash::Hash::new(&"stdin".to_string(), digest.as_slice()).hex_digest();
    assert_eq!(
        rendered,
        "c672b8d1ef56ed28ab87c3622c5114069bdd3ad7b8f9737498d0c01ecef0967a"
    );
}

#[test]
fn known_vector_abc() {
    let mut session = DigestSession::new();
    session.update(b"abc");
    let digest = session.finish();
    let rendered = bs::hash::Hash::new(&"abc".to_string(), digest.as_slice()).hex_digest();
    assert_eq!(
        rendered,
        "53048e2681941ef99b2e29b76b4c7dabe4c2d0c634fc6d46e0e2f13107e7af23"
    );
}

#[test]
fn same_content_same_digest_whatever_the_chunking() {
    let mut one = DigestSession::new();
    one.update(b"abc");
    let mut two = DigestSession::new();
    two.update(b"a");
    two.update(b"");
    two.update(b"bc");
    assert_eq!(one.finish(), two.finish());
}

#[test]
fn digest_renders_as_64_lowercase_hex() {
    for content in [&b""[..], &b"x"[..], &b"some longer content, over one chunk"[..]] {
        let mut session = DigestSession::new();
        session.update(content);
        let digest = session.finish();
        let rendered = bs::hash::Hash::new(&"p".to_string(), digest.as_slice()).hex_digest();
        assert_eq!(rendered.len(), 64);
        assert!(rendered.chars().all(|c| "0123456789abcdef".contains(c)));
    }
}

#[test]
fn hash_new_copies_identity_and_digest() {
    let digest: Vec<u8> = (0u8..32u8).collect();
    let h = bs::hash::Hash::new(&"a/b".to_string(), digest.as_slice());
    assert_eq!(h.path, "a/b");
    assert_eq!(h.hash, digest);
}

#[test]
fn one_file_and_an_empty_subdirectory_give_one_result() {
    let mut engine = Engine::new(strings(&["root"]));

    let job = engine.take_job().unwrap();
    let paths = match job {
        Job::Classify(paths) => paths,
        _ => panic!("expected a classification job"),
    };
    engine.step_classify(paths, vec![Observation::Directory]);

    match engine.take_job().unwrap() {
        Job::Scan(dir) => assert_eq!(dir, "root"),
        _ => panic!("expected a scan job"),
    }
    engine.scan_done(strings(&["root/a.txt", "root/sub"]));

    let paths = match engine.take_job().unwrap() {
        Job::Classify(paths) => paths,
        _ => panic!("expected a classification job"),
    };
    engine.step_classify(
        paths,
        vec![Observation::FileOpened(0), Observation::Directory],
    );
    assert_eq!(engine.discovered_total(), 1);
    assert_eq!(engine.published_total(), 1);

    // FIFO: the file found first is digested before the subdirectory scan.
    let (identity, source) = match engine.take_job().unwrap() {
        Job::Digest(identity, source) => (identity, source),
        _ => panic!("expected a digestion job"),
    };
    assert_eq!(identity, "root/a.txt");
    assert!(matches!(source, Source::Stream(0)));
    assert_eq!(engine.completed_count(), 1);
    digest_job(&mut engine, identity, &[b"x"]);

    match engine.take_job().unwrap() {
        Job::Scan(dir) => assert_eq!(dir, "root/sub"),
        _ => panic!("expected a scan job"),
    }
    engine.scan_done(Vec::new());

    let paths = match engine.take_job().unwrap() {
        Job::Classify(paths) => paths,
        _ => panic!("expected a classification job"),
    };
    assert!(paths.is_empty());
    engine.step_classify(paths, Vec::new());

    assert!(engine.take_job().is_none());
    engine.finish();
    assert!(matches!(engine.current_status(), Status::Done));
    assert_eq!(engine.discovered_total(), 1);
    assert_eq!(engine.completed_count(), 1);

    let results = engine.into_results();
    assert_eq!(results.len(), 1);
    assert_eq!(results[0].path, "root/a.txt");
    assert_eq!(results[0].hash.len(), 32);
}

#[test]
fn stdin_sentinel_gives_exactly_one_result_even_for_zero_bytes() {
    let mut engine = Engine::new(strings(&["-"]));
    let paths = match engine.take_job().unwrap() {
        Job::Classify(paths) => paths,
        _ => panic!("expected a classification job"),
    };
    engine.step_classify(paths, vec![Observation::Missing]);
    assert_eq!(engine.discovered_total(), 1);

    let (identity, source) = match engine.take_job().unwrap() {
        Job::Digest(identity, source) => (identity, source),
        _ => panic!("expected a digestion job"),
    };
    assert_eq!(identity, "stdin");
    assert!(matches!(source, Source::Stdin));
    digest_job(&mut engine, identity, &[]);

    assert!(engine.take_job().is_none());
    let results = engine.into_results();
    assert_eq!(results.len(), 1);
    assert_eq!(results[0].path, "stdin");
    assert_eq!(
        bs::hash::Hash::new(&results[0].path, results[0].hash.as_slice()).hex_digest(),
        "c672b8d1ef56ed28ab87c3622c5114069bdd3ad7b8f9737498d0c01ecef0967a"
    );
}

#[test]
fn nonexistent_path_gives_zero_results_and_no_error() {
    let mut engine = Engine::new(strings(&["no/such/path"]));
    let paths = match engine.take_job().unwrap() {
        Job::Classify(paths) => paths,
        _ => panic!("expected a classification job"),
    };
    engine.step_classify(paths, vec![Observation::Missing]);
    assert!(engine.take_job().is_none());
    assert_eq!(engine.discovered_total(), 0);
    assert_eq!(engine.completed_count(), 0);
    assert!(engine.into_results().is_empty());
}

#[test]
fn unreadable_and_special_entries_are_dropped_silently() {
    let mut engine = Engine::new(strings(&["locked", "socket"]));
    let paths = match engine.take_job().unwrap() {
        Job::Classify(paths) => paths,
        _ => panic!("expected a classification job"),
    };
    engine.step_classify(
        paths,
        vec![Observation::FileUnreadable, Observation::OtherKind],
    );
    assert!(engine.take_job().is_none());
    assert_eq!(engine.discovered_total(), 0);
    assert!(engine.into_results().is_empty());
}

#[test]
fn same_directory_passed_twice_is_scanned_twice() {
    let mut engine = Engine::new(strings(&["dir", "dir"]));
    let paths = match engine.take_job().unwrap() {
        Job::Classify(paths) => paths,
        _ => panic!("expected a classification job"),
    };
    engine.step_classify(paths, vec![Observation::Directory, Observation::Directory]);

    for _ in 0..2 {
        match engine.take_job().unwrap() {
            Job::Scan(dir) => assert_eq!(dir, "dir"),
            _ => panic!("expected a scan job"),
        }
        engine.scan_done(strings(&["dir/a"]));
    }
    for handle in 0..2usize {
        let paths = match engine.take_job().unwrap() {
            Job::Classify(paths) => paths,
            _ => panic!("expected a classification job"),
        };
        engine.step_classify(paths, vec![Observation::FileOpened(handle)]);
    }
    for _ in 0..2 {
        let (identity, _) = match engine.take_job().unwrap() {
            Job::Digest(identity, source) => (identity, source),
            _ => panic!("expected a digestion job"),
        };
        digest_job(&mut engine, identity, &[b"same content"]);
    }
    assert!(engine.take_job().is_none());

    let results = engine.into_results();
    assert_eq!(results.len(), 2);
    assert_eq!(results[0].path, "dir/a");
    assert_eq!(results[1].path, "dir/a");
    assert_eq!(results[0].hash, results[1].hash);
}

#[test]
fn results_keep_fifo_discovery_order_across_job_kinds() {
    let mut engine = Engine::new(strings(&["first", "dir", "second"]));
    let paths = match engine.take_job().unwrap() {
        Job::Classify(paths) => paths,
        _ => panic!("expected a classification job"),
    };
    engine.step_classify(
        paths,
        vec![
            Observation::FileOpened(0),
            Observation::Directory,
            Observation::FileOpened(1),
        ],
    );
    assert_eq!(engine.published_total(), 2);

    // FIFO: the first file is digested before the directory is scanned.
    let identity = match engine.take_job().unwrap() {
        Job::Digest(identity, _) => identity,
        _ => panic!("expected a digestion job"),
    };
    assert_eq!(identity, "first");
    assert!(matches!(engine.current_status(), Status::Hashing(_)));
    digest_job(&mut engine, identity, &[b"1"]);

    match engine.take_job().unwrap() {
        Job::Scan(dir) => assert_eq!(dir, "dir"),
        _ => panic!("expected a scan job"),
    }
    assert!(matches!(engine.current_status(), Status::Scanning(_)));
    engine.scan_done(strings(&["dir/nested"]));

    let identity = match engine.take_job().unwrap() {
        Job::Digest(identity, _) => identity,
        _ => panic!("expected a digestion job"),
    };
    assert_eq!(identity, "second");
    digest_job(&mut engine, identity, &[b"2"]);

    // The directory's children are classified only after earlier jobs ran.
    let paths = match engine.take_job().unwrap() {
        Job::Classify(paths) => paths,
        _ => panic!("expected a classification job"),
    };
    assert_eq!(paths, strings(&["dir/nested"]));
    engine.step_classify(paths, vec![Observation::FileOpened(2)]);
    assert_eq!(engine.published_total(), 3);

    let identity = match engine.take_job().unwrap() {
        Job::Digest(identity, _) => identity,
        _ => panic!("expected a digestion job"),
    };
    digest_job(&mut engine, identity, &[b"3"]);
    assert!(engine.take_job().is_none());

    let results = engine.into_results();
    let order: Vec<&str> = results.iter().map(|h| h.path.as_str()).collect();
    assert_eq!(order, vec!["first", "second", "dir/nested"]);
}

#[test]
fn progress_counters_track_discovery_and_completion() {
    let mut engine = Engine::new(strings(&["a", "b"]));
    assert_eq!(engine.discovered_total(), 0);
    assert_eq!(engine.published_total(), 0);
    assert_eq!(engine.completed_count(), 0);
    assert!(matches!(engine.current_status(), Status::Idle));

    let paths = match engine.take_job().unwrap() {
        Job::Classify(paths) => paths,
        _ => panic!("expected a classification job"),
    };
    engine.step_classify(
        paths,
        vec![Observation::FileOpened(0), Observation::FileOpened(1)],
    );
    assert_eq!(engine.discovered_total(), 2);
    assert_eq!(engine.published_total(), 2);
    assert_eq!(engine.completed_count(), 0);

    let identity = match engine.take_job().unwrap() {
        Job::Digest(identity, _) => identity,
        _ => panic!("expected a digestion job"),
    };
    assert_eq!(engine.completed_count(), 1);
    digest_job(&mut engine, identity, &[b"a"]);

    let identity = match engine.take_job().unwrap() {
        Job::Digest(identity, _) => identity,
        _ => panic!("expected a digestion job"),
    };
    assert_eq!(engine.completed_count(), 2);
    digest_job(&mut engine, identity, &[b"b"]);

    assert_eq!(engine.discovered_total(), 2);
    assert_eq!(engine.into_results().len(), 2);
}

#[test]
fn library_digest_matches_the_sha2_crate() {
    let content = b"cross-check between the engine and a direct computation";
    let mut session = DigestSession::new();
    session.update(content);
    let ours = session.finish();
    let direct = <sha2::Sha512Trunc256 as sha2::Digest>::digest(content);
    assert_eq!(ours.as_slice(), direct.as_slice());
    let rendered = bs::hash::Hash::new(&"p".to_string(), ours.as_slice()).hex_digest();
    assert_eq!(rendered, hex::encode(direct.as_slice()));
}
