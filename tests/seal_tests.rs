use openseal::identity::{compute_project_identity, IdentityError, ProjectIdentity, ScannedFile};
use openseal::json::canonical_result;
use openseal::manifest::Manifest;
use openseal::proxy::{check_boot, BootError, ManifestRoot, ProxySession};
use openseal::seal::{compute_a_hash, compute_b_hash, derive_sealing_key_hardened, Seal, SealMode};
use openseal::verify::{verify_seal, SealedResponse, VerifyError};

fn file(path: &str, contents: &str) -> ScannedFile {
    ScannedFile { path: path.to_string(), contents: Some(contents.as_bytes().to_vec()) }
}

fn identity_of(files: Vec<ScannedFile>, config: &str) -> ProjectIdentity {
    compute_project_identity(&files, config).unwrap()
}

fn session_for(identity: ProjectIdentity) -> ProxySession {
    ProxySession::new("http://127.0.0.1:9".to_string(), identity, vec![7u8; 32], SealMode::Development)
}

fn read_back(body: &str) -> SealedResponse {
    let v: serde_json::Value = serde_json::from_str(body).unwrap();
    let field = |name: &str| v["openseal"].get(name).and_then(|x| x.as_str()).map(|s| s.to_string());
    SealedResponse {
        result: v.get("result").map(|r| r.to_string()),
        signature: field("signature"),
        pub_key: field("pub_key"),
        a_hash: field("a_hash"),
        b_hash: field("b_hash"),
    }
}

/// The key derivation written out directly on the blake3 crate.
fn reference_key(a: &[u8; 32], wax: &str) -> [u8; 32] {
    let mut s1 = blake3::Hasher::new();
    s1.update(b"OPENSEAL_GB_V2_STAGE1");
    s1.update(a);
    let w = wax.as_bytes();
    for (i, b) in w.iter().enumerate() {
        let salt = ((i * 7) % 256) as u8;
        s1.update(&[b.wrapping_mul(salt).wrapping_add((w.len() % 256) as u8)]);
    }
    let inter = s1.finalize();
    let mut c = blake3::Hasher::new();
    c.update(w);
    c.update(a);
    let cross = c.finalize();
    let mut s2 = blake3::Hasher::new();
    s2.update(b"OPENSEAL_GB_V2_STAGE2");
    s2.update(inter.as_bytes());
    s2.update(cross.as_bytes());
    let st = s2.finalize();
    let mut k = [0u8; 32];
    for i in 0..32 {
        k[i] = a[i].wrapping_add(st.as_bytes()[i]) ^ cross.as_bytes()[31 - i];
    }
    k
}

#[test]
fn test_compute_project_identity_determinism() {
    let files = vec![file("test.txt", "Hello OpenSeal\n")];
    let identity1 = compute_project_identity(&files, "").unwrap();
    let identity2 = compute_project_identity(&files, "").unwrap();
    assert_eq!(identity1.root_hash, identity2.root_hash);
    assert_eq!(identity1.file_count, 1);
}

#[test]
fn test_changes_affect_root_hash() {
    let identity1 = identity_of(vec![file("test.txt", "Hello\n")], "");
    let identity2 = identity_of(vec![file("test.txt", "World\n")], "");
    assert_ne!(identity1.root_hash, identity2.root_hash);
}

#[test]
fn test_mutable_file_logic() {
    let config = "config.db\n";
    let identity1 = identity_of(
        vec![file("config.db", "Initial State\n"), file(".openseal_mutable", config)],
        config,
    );
    let identity2 = identity_of(
        vec![file("config.db", "Changed State\n"), file(".openseal_mutable", config)],
        config,
    );
    assert_eq!(identity1.root_hash, identity2.root_hash);
    assert_eq!(identity1.mutable_files, vec!["config.db"]);
}

#[test]
fn test_dynamic_b_hash_binding() {
    let a_hash = blake3::hash(b"PROJECT_IDENTITY");
    let wax1 = "WAX_1";
    let wax2 = "WAX_2";
    let result = b"Execution Result";

    let b1 = compute_b_hash(a_hash.as_bytes(), wax1, result);
    let b2 = compute_b_hash(a_hash.as_bytes(), wax2, result);
    assert_ne!(b1, b2);

    let a_hash_modified = blake3::hash(b"PROJECT_IDENTITY_MODIFIED");
    let b3 = compute_b_hash(a_hash_modified.as_bytes(), wax1, result);
    assert_ne!(b1, b3);
}

#[test]
fn test_seal_mode_from_env_default() {
    let mode = SealMode::from_env(None);
    assert_eq!(mode, SealMode::Development);
}

#[test]
fn test_seal_mode_from_env_production() {
    let mode = SealMode::from_env(Some("production"));
    assert_eq!(mode, SealMode::Production);
}

#[test]
fn seal_mode_other_value_is_development() {
    assert_eq!(SealMode::from_env(Some("Production")), SealMode::Development);
    assert_eq!(SealMode::from_env(Some("")), SealMode::Development);
}

#[test]
fn test_seal_serialization_full() {
    let seal = Seal {
        signature: "abc123".to_string(),
        pub_key: Some("key123".to_string()),
        a_hash: Some("ahash123".to_string()),
        b_hash: Some("bhash123".to_string()),
    };
    let json = seal.to_json();
    assert!(json.contains("\"signature\""));
    assert_eq!(
        json,
        "{\"signature\":\"abc123\",\"pub_key\":\"key123\",\"a_hash\":\"ahash123\",\"b_hash\":\"bhash123\"}"
    );
}

#[test]
fn test_seal_serialization_signature_only() {
    let seal = Seal { signature: "abc123".to_string(), pub_key: None, a_hash: None, b_hash: None };
    let json = seal.to_json();
    assert!(json.contains("\"signature\""));
    assert_eq!(json, "{\"signature\":\"abc123\"}");
}

#[test]
fn a_hash_matches_its_definition() {
    let root = blake3::hash(b"root");
    let mut h = blake3::Hasher::new();
    h.update(b"OPENSEAL_BLINDED_IDENTITY");
    h.update(root.as_bytes());
    h.update(b"00");
    assert_eq!(compute_a_hash(root.as_bytes(), "00"), h.finalize().as_bytes().to_vec());
}

#[test]
fn sealing_key_and_b_hash_match_their_definition() {
    let a = blake3::hash(b"A");
    for wax in ["", "00", "WAX_1", "a longer challenge with many bytes in it, more than seven"] {
        let key = reference_key(a.as_bytes(), wax);
        assert_eq!(derive_sealing_key_hardened(a.as_bytes(), wax), key.to_vec());
        let b = compute_b_hash(a.as_bytes(), wax, b"{\"ok\":true}");
        assert_eq!(b, blake3::keyed_hash(&key, b"{\"ok\":true}").as_bytes().to_vec());
    }
}

#[test]
fn challenge_sensitivity() {
    let root = blake3::hash(b"root");
    let a1 = compute_a_hash(root.as_bytes(), "w1");
    let a2 = compute_a_hash(root.as_bytes(), "w2");
    assert_ne!(a1, a2);
    let b1 = compute_b_hash(&a1, "w1", b"result");
    let b2 = compute_b_hash(&a2, "w2", b"result");
    assert_ne!(b1, b2);
}

#[test]
fn empty_project_root_hash() {
    let id = identity_of(vec![], "");
    assert_eq!(id.root_hash, blake3::hash(b"EMPTY_PROJECT").as_bytes().to_vec());
    assert_eq!(id.file_count, 0);
    assert!(id.mutable_files.is_empty());
}

#[test]
fn root_hash_matches_its_definition() {
    let files = vec![file("b.txt", "B"), file("a/x.txt", "X"), file("a.txt", "A")];
    let id = identity_of(files, "");
    let mut h = blake3::Hasher::new();
    // component order: "a/x.txt" before "a.txt" before "b.txt"
    h.update(blake3::hash(b"X").as_bytes());
    h.update(blake3::hash(b"A").as_bytes());
    h.update(blake3::hash(b"B").as_bytes());
    assert_eq!(id.root_hash, h.finalize().as_bytes().to_vec());
    assert_eq!(id.file_count, 3);
}

#[test]
fn walk_order_does_not_matter() {
    let id1 = identity_of(vec![file("a.txt", "1"), file("b/c.txt", "2"), file("d", "3")], "");
    let id2 = identity_of(vec![file("d", "3"), file("a.txt", "1"), file("b/c.txt", "2")], "");
    assert_eq!(id1.root_hash, id2.root_hash);
}

#[test]
fn mutable_file_hash_uses_marker_and_path() {
    let id = identity_of(vec![file("data.db", "anything")], "data.db");
    let mut m = blake3::Hasher::new();
    m.update(b"MUTABLE_MARKER");
    m.update(b"data.db");
    let fh = m.finalize();
    assert_eq!(id.root_hash, blake3::hash(fh.as_bytes()).as_bytes().to_vec());
}

#[test]
fn mutable_pattern_parsing() {
    let config = "  # comment\n\n  logs/app.log  \r\n*.db\n#data.db\n";
    let files = vec![
        ScannedFile { path: "logs/app.log".to_string(), contents: None },
        file("data.db", "x"),
        file("x.db", "y"),
    ];
    let id = compute_project_identity(&files, config).unwrap();
    assert_eq!(id.mutable_files, vec!["logs/app.log"]);
}

#[test]
fn mutable_suffix_match() {
    let files = vec![ScannedFile { path: "sub/data.db".to_string(), contents: None }];
    let id = compute_project_identity(&files, "data.db").unwrap();
    assert_eq!(id.mutable_files, vec!["sub/data.db"]);
}

#[test]
fn adding_mutable_file_changes_root() {
    let without = identity_of(vec![file("a.txt", "A")], "data.db");
    let with = identity_of(vec![file("a.txt", "A"), file("data.db", "D")], "data.db");
    assert_ne!(without.root_hash, with.root_hash);
}

#[test]
fn unreadable_file_is_io_error() {
    let files = vec![ScannedFile { path: "a.txt".to_string(), contents: None }];
    match compute_project_identity(&files, "") {
        Err(IdentityError::IoError(p)) => assert_eq!(p, "a.txt"),
        other => panic!("unexpected: {:?}", other.map(|i| i.file_count)),
    }
}

#[test]
fn blacklisted_mutable_file_rejected() {
    let files = vec![file("app.js", "console.log(1)")];
    match compute_project_identity(&files, "app.js\n") {
        Err(IdentityError::SecurityViolation(p)) => assert_eq!(p, "app.js"),
        other => panic!("unexpected: {:?}", other.map(|i| i.file_count)),
    }
}

#[test]
fn blacklist_is_case_insensitive() {
    for name in ["CONFIG.JSON", "Main.Rs", "run.SH", "deploy.yml", "x.Hpp", "m.WASM"] {
        let files = vec![file(name, "x")];
        assert!(matches!(
            compute_project_identity(&files, name),
            Err(IdentityError::SecurityViolation(_))
        ));
    }
}

#[test]
fn canonical_result_forms() {
    assert_eq!(canonical_result("{ \"b\" : 1, \"a\" : [1, 2] }"), "{\"a\":[1,2],\"b\":1}");
    assert_eq!(canonical_result("plain text"), "\"plain text\"");
    assert_eq!(canonical_result("say \"hi\"\n"), "\"say \\\"hi\\\"\\n\"");
}

#[test]
fn happy_path_end_to_end() {
    let identity = identity_of(vec![file("main.js", "A")], "");
    let root_hex = hex::encode(&identity.root_hash);
    let session = session_for(identity);
    let wax = session.receive(Some("00".to_string())).ok().unwrap();
    let reply = session.respond(&wax, Ok("{\"ok\":true}"));
    assert_eq!(reply.status, 200);
    let v: serde_json::Value = serde_json::from_str(&reply.body).unwrap();
    assert_eq!(v["result"]["ok"], serde_json::Value::Bool(true));
    assert_eq!(v["result"].as_object().unwrap().len(), 1);
    let envelope = read_back(&reply.body);
    let report = verify_seal(&envelope, "00", Some(&root_hex)).unwrap();
    assert!(report.valid);
    assert!(report.signature_verified);
    assert!(report.binding_verified);
    assert!(report.identity_verified);
    let report = verify_seal(&envelope, "00", None).unwrap();
    assert!(report.valid);
}

#[test]
fn sealed_fields_are_hex_of_the_primitives() {
    let identity = identity_of(vec![file("main.js", "A")], "");
    let root = identity.root_hash.clone();
    let session = session_for(identity);
    let (canonical, seal) = session.seal_result("00", "{\"ok\": true}");
    assert_eq!(canonical, "{\"ok\":true}");
    let a = compute_a_hash(&root, "00");
    assert_eq!(seal.a_hash.unwrap(), hex::encode(&a));
    assert_eq!(seal.b_hash.unwrap(), hex::encode(compute_b_hash(&a, "00", canonical.as_bytes())));
    let sk = ed25519_dalek::SigningKey::from_bytes(&[7u8; 32]);
    assert_eq!(seal.pub_key.unwrap(), hex::encode(sk.verifying_key().to_bytes()));
    assert_eq!(seal.signature.len(), 128);
}

#[test]
fn missing_challenge_is_rejected() {
    let session = session_for(identity_of(vec![file("main.js", "A")], ""));
    let reply = session.receive(None).err().unwrap();
    assert_eq!(reply.status, 400);
    assert_eq!(reply.body, "Missing Required Header: X-OpenSeal-Wax");
}

#[test]
fn upstream_failure_is_bad_gateway() {
    let session = session_for(identity_of(vec![file("main.js", "A")], ""));
    let reply = session.respond("00", Err("connection refused"));
    assert_eq!(reply.status, 502);
    assert_eq!(reply.body, "Internal Application Error: connection refused");
}

#[test]
fn non_json_upstream_body_is_sealed_as_string() {
    let session = session_for(identity_of(vec![file("main.js", "A")], ""));
    let reply = session.respond("w", Ok("hello"));
    let v: serde_json::Value = serde_json::from_str(&reply.body).unwrap();
    assert_eq!(v["result"], serde_json::Value::String("hello".to_string()));
    assert!(verify_seal(&read_back(&reply.body), "w", None).unwrap().valid);
}

#[test]
fn forward_url_keeps_path_and_query() {
    let session = session_for(identity_of(vec![], ""));
    assert_eq!(session.forward_url("/x", Some("a=1")), "http://127.0.0.1:9/x?a=1");
    assert_eq!(session.forward_url("/x", None), "http://127.0.0.1:9/x");
}

#[test]
fn tampered_bundle_cannot_boot() {
    let built = identity_of(vec![file("main.js", "A")], "");
    let numbers: Vec<u64> = built.root_hash.iter().map(|b| *b as u64).collect();
    let live = identity_of(vec![file("main.js", "B")], "");
    assert_eq!(
        check_boot(&live, Some(&ManifestRoot::Numbers(numbers.clone()))),
        Err(BootError::IntegrityViolation)
    );
    assert_eq!(check_boot(&built, Some(&ManifestRoot::Numbers(numbers))), Ok(()));
    assert_eq!(check_boot(&live, None), Ok(()));
    assert_eq!(check_boot(&live, Some(&ManifestRoot::Missing)), Err(BootError::IntegrityViolation));
}

#[test]
fn boot_accepts_hex_root() {
    let built = identity_of(vec![file("main.js", "A")], "");
    let text = hex::encode(&built.root_hash).to_uppercase();
    assert_eq!(check_boot(&built, Some(&ManifestRoot::Hex(text))), Ok(()));
    assert_eq!(
        check_boot(&built, Some(&ManifestRoot::Hex("zz".to_string()))),
        Err(BootError::IntegrityViolation)
    );
}

#[test]
fn mutable_file_scenario() {
    let before = identity_of(vec![file("main.js", "A"), file("data.db", "one")], "data.db\n");
    let after = identity_of(vec![file("main.js", "A"), file("data.db", "two")], "data.db\n");
    assert_eq!(before.root_hash, after.root_hash);
    assert_eq!(after.mutable_files, vec!["data.db"]);
}

#[test]
fn blacklist_scenario() {
    let files = vec![file("app.js", "A")];
    assert!(matches!(
        compute_project_identity(&files, "app.js"),
        Err(IdentityError::SecurityViolation(_))
    ));
}

#[test]
fn verifier_identity_mismatch() {
    let session = session_for(identity_of(vec![file("main.js", "A")], ""));
    let reply = session.respond("00", Ok("{\"ok\":true}"));
    let wrong = hex::encode(blake3::hash(b"other").as_bytes());
    let report = verify_seal(&read_back(&reply.body), "00", Some(&wrong)).unwrap();
    assert!(!report.identity_verified);
    assert!(!report.valid);
    assert!(report.signature_verified);
}

#[test]
fn verifier_rejects_tampering() {
    let session = session_for(identity_of(vec![file("main.js", "A")], ""));
    let reply = session.respond("00", Ok("{\"ok\":true}"));
    let good = read_back(&reply.body);

    let mut sig = good.signature.clone().unwrap().into_bytes();
    sig[0] = if sig[0] == b'0' { b'1' } else { b'0' };
    let e = SealedResponse { signature: Some(String::from_utf8(sig).unwrap()), ..read_back(&reply.body) };
    let report = verify_seal(&e, "00", None).unwrap();
    assert!(!report.signature_verified && !report.valid);

    let e = SealedResponse { result: Some("{\"ok\":false}".to_string()), ..read_back(&reply.body) };
    assert!(!verify_seal(&e, "00", None).unwrap().signature_verified);

    let e = SealedResponse { b_hash: Some(hex::encode([0u8; 32])), ..read_back(&reply.body) };
    assert!(!verify_seal(&e, "00", None).unwrap().signature_verified);

    assert!(!verify_seal(&good, "01", None).unwrap().signature_verified);
}

#[test]
fn verifier_result_whitespace_is_canonicalised() {
    let session = session_for(identity_of(vec![file("main.js", "A")], ""));
    let reply = session.respond("00", Ok("{\"ok\":true,\"n\":[1,2]}"));
    let e = SealedResponse { result: Some("{ \"n\" : [1, 2], \"ok\" : true }".to_string()), ..read_back(&reply.body) };
    assert!(verify_seal(&e, "00", None).unwrap().valid);
}

#[test]
fn verifier_malformed_inputs() {
    let session = session_for(identity_of(vec![file("main.js", "A")], ""));
    let reply = session.respond("00", Ok("1"));
    let e = SealedResponse { pub_key: None, ..read_back(&reply.body) };
    assert_eq!(verify_seal(&e, "00", None).err(), Some(VerifyError::MalformedSeal));
    let e = SealedResponse { signature: Some("abcd".to_string()), ..read_back(&reply.body) };
    let report = verify_seal(&e, "00", None).unwrap();
    assert!(!report.signature_verified && !report.valid);
    let e = SealedResponse { result: None, ..read_back(&reply.body) };
    assert_eq!(verify_seal(&e, "00", None).err(), Some(VerifyError::MalformedSeal));
    assert_eq!(
        verify_seal(&read_back(&reply.body), "00", Some("xyz")).err(),
        Some(VerifyError::InvalidExpectedRoot)
    );
}

#[test]
fn identity_endpoint_document() {
    let identity = identity_of(vec![file("main.js", "A"), file("b", "B")], "");
    let hex_root = hex::encode(&identity.root_hash);
    let session = session_for(identity);
    let doc = session.identity_document();
    let v: serde_json::Value = serde_json::from_str(&doc).unwrap();
    assert_eq!(v["identity"]["a_hash"], serde_json::Value::String(hex_root));
    assert_eq!(v["identity"]["file_count"], serde_json::Value::from(2u64));
    assert_eq!(v["status"], serde_json::Value::String("sealed".to_string()));
    assert_eq!(v["service"], serde_json::Value::String("OpenSeal Runtime Identity".to_string()));
}

#[test]
fn manifest_round_trip() {
    let identity = identity_of(vec![file("main.js", "A"), file("data.db", "x")], "data.db");
    let root = identity.root_hash.clone();
    let m = Manifest::new(identity, "2024-01-01T00:00:00Z".to_string(), Some("node main.js".to_string()), vec!["node_modules".to_string()]);
    let text = m.to_json();
    let v: serde_json::Value = serde_json::from_str(&text).unwrap();
    assert_eq!(v["version"], serde_json::Value::String("1.0.0".to_string()));
    assert_eq!(v["sealed"], serde_json::Value::Bool(true));
    assert_eq!(v["exec"], serde_json::Value::String("node main.js".to_string()));
    assert_eq!(v["deps"], serde_json::Value::Array(vec![serde_json::Value::String("node_modules".to_string())]));
    assert_eq!(v["identity"]["mutable_files"], serde_json::Value::Array(vec![serde_json::Value::String("data.db".to_string())]));
    let numbers: Vec<u64> = v["identity"]["root_hash"].as_array().unwrap().iter().filter_map(|n| n.as_u64()).collect();
    assert_eq!(openseal::proxy::recorded_root(&ManifestRoot::Numbers(numbers)), Some(root));
}

#[test]
fn manifest_without_optional_members() {
    let identity = identity_of(vec![], "");
    let m = Manifest::new(identity, "t".to_string(), None, vec![]);
    let v: serde_json::Value = serde_json::from_str(&m.to_json()).unwrap();
    assert!(v.get("exec").is_none());
    assert!(v.get("deps").is_none());
    assert_eq!(v["identity"]["file_count"], serde_json::Value::from(0u64));
}

#[test]
fn body_limit() {
    let session = session_for(identity_of(vec![], ""));
    assert_eq!(session.max_body_bytes, 10 * 1024 * 1024);
    assert!(session.admits_body(10 * 1024 * 1024));
    assert!(!session.admits_body(10 * 1024 * 1024 + 1));
    let r = session.payload_too_large();
    assert_eq!(r.status, 413);
    assert_eq!(r.body, "Payload Too Large");
}

#[test]
fn mutable_patterns_trim_unicode_white_space() {
    let config = "\u{a0}data.db\u{a0}\n\u{3000}\u{2009}\n\u{85}logs/app.log\u{205f}\u{1680}\r\n";
    let patterns = openseal::patterns::parse_mutable_patterns(config);
    assert_eq!(patterns, vec![b"data.db".to_vec(), b"logs/app.log".to_vec()]);
    let files = vec![file("data.db", "x"), file("logs/app.log", "y")];
    let id = compute_project_identity(&files, config).unwrap();
    assert_eq!(id.mutable_files, vec!["data.db", "logs/app.log"]);
}

#[test]
fn blacklist_check_on_lowercase_text() {
    assert!(openseal::patterns::blacklisted("src/main.rs"));
    assert!(openseal::patterns::blacklisted("config.yaml"));
    assert!(!openseal::patterns::blacklisted("data.db"));
    assert!(!openseal::patterns::blacklisted("readme.rst"));
    assert!(!openseal::patterns::blacklisted("MAIN.RS"));
}

#[test]
fn seal_text_escapes_strings() {
    let seal = Seal { signature: "a\"b\\c\n\u{1}".to_string(), pub_key: None, a_hash: None, b_hash: None };
    assert_eq!(seal.to_json(), "{\"signature\":\"a\\\"b\\\\c\\n\\u0001\"}");
}

#[test]
fn bit_flip_to_non_hex_is_a_failed_signature() {
    let session = session_for(identity_of(vec![file("main.js", "A")], ""));
    let reply = session.respond("00", Ok("{\"ok\":true}"));
    for field in 0..2 {
        let mut e = read_back(&reply.body);
        let target = if field == 0 { e.signature.as_mut().unwrap() } else { e.pub_key.as_mut().unwrap() };
        let mut bytes = target.clone().into_bytes();
        bytes[3] ^= 0x40;
        *target = String::from_utf8(bytes).unwrap();
        let report = verify_seal(&e, "00", None).unwrap();
        assert!(!report.signature_verified);
        assert!(!report.valid);
    }
}
