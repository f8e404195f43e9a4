use uniclip_capture::capture::{
    CaptureClipboardUseCase, CaptureReply, CaptureRequest, CaptureRun, Measure, PersistRecord,
    captured_entry, resolve_no_history_target, resurface_candidate, resurface_existing_entry,
};
use uniclip_capture::clipboard::{
    CaptureOrigin, ClipboardChangeOrigin, ClipboardPayloadSource, DeviceId, EntryId, EventId,
    FileSetComponent, FormatId, MimeType, ObservedClipboardRepresentation, PayloadType,
    RepresentationId, SnapshotHash, SystemClipboardSnapshot, infer_payload_type,
    telemetry_capture_origin,
};
use uniclip_capture::file_set::{BlobId, ContentHash, EntryFileSet};
use uniclip_capture::files::FilePath;
use uniclip_capture::manifest::{ManifestReply, ManifestRequest};
use uniclip_capture::records::{
    CaptureError, CaptureOutcome, CaptureSettings, CommitMode, CompletedReceiveArtifacts,
    DirectoryCaptureCommitContext, HostRef, InboundCaptureCommitContext, InboundReceiveRecord,
    InboundReceiveSettlement, PartialReceiveArtifacts, PartialReceiveTerminal,
    PayloadAvailability, PersistedClipboardRepresentation, PortRef, RetentionRule,
};
use uniclip_capture::traversal::{TraversalReply, TraversalRequest};

fn rep(format: &str, mime: Option<&str>, bytes: &[u8]) -> ObservedClipboardRepresentation {
    ObservedClipboardRepresentation {
        id: RepresentationId(format!("rep-{format}")),
        format_id: FormatId(format.to_string()),
        mime: mime.map(|m| MimeType(m.to_string())),
        source: ClipboardPayloadSource::Inline(bytes.to_vec()),
        lists_files: format == "files" || mime == Some("text/uri-list"),
    }
}

fn local_file(name: &str, size_bytes: u64) -> ObservedClipboardRepresentation {
    ObservedClipboardRepresentation {
        id: RepresentationId(format!("rep-{name}")),
        format_id: FormatId("files".to_string()),
        mime: None,
        source: ClipboardPayloadSource::LocalFile {
            path: FilePath {
                raw: format!("/u/{name}").into_bytes(),
                file_name: Some(name.to_string()),
            },
            display: format!("/u/{name}"),
            size_bytes,
        },
        lists_files: true,
    }
}

fn snapshot_with(representations: Vec<ObservedClipboardRepresentation>) -> SystemClipboardSnapshot {
    SystemClipboardSnapshot {
        ts_ms: 1_700_000_000_000,
        representations,
        file_content_digests: Vec::new(),
        file_set_v1_component: None,
    }
}

fn text_snapshot() -> SystemClipboardSnapshot {
    snapshot_with(vec![rep("text", Some("text/plain"), b"hello")])
}

fn use_case() -> CaptureClipboardUseCase {
    CaptureClipboardUseCase::new(
        PortRef(1),
        PortRef(2),
        PortRef(3),
        PortRef(4),
        PortRef(5),
        PortRef(6),
        PortRef(7),
        PortRef(8),
        PortRef(9),
        PortRef(10),
        PortRef(11),
        PortRef(12),
        PortRef(13),
        PortRef(14),
    )
}

/// A host that answers as it is told and keeps a log of what it was asked.
struct Host {
    log: Vec<String>,
    settings_fail: bool,
    no_history: bool,
    found: Result<Option<EntryId>, String>,
    touched: Result<bool, String>,
    entries: Result<Vec<EntryId>, String>,
    ingest_fails: bool,
    normalize_fails: bool,
    staged: bool,
    insert_fails: bool,
    select_fails: bool,
    spool_fails: bool,
    clock_fails: bool,
    persist_fails: bool,
    file_set_fails: bool,
    component: Option<FileSetComponent>,
    digests: Vec<ContentHash>,
    seen_component: Option<String>,
    seen_digests: usize,
    total_size: i64,
}

impl Host {
    fn new() -> Host {
        Host {
            log: Vec::new(),
            settings_fail: false,
            no_history: false,
            found: Ok(None),
            touched: Ok(true),
            entries: Ok(Vec::new()),
            ingest_fails: false,
            normalize_fails: false,
            staged: false,
            insert_fails: false,
            select_fails: false,
            spool_fails: false,
            clock_fails: false,
            persist_fails: false,
            file_set_fails: false,
            component: None,
            digests: Vec::new(),
            seen_component: None,
            seen_digests: 0,
            total_size: 5,
        }
    }

    fn note(&mut self, words: String) {
        self.log.push(words);
    }

    fn settings(&self) -> Result<CaptureSettings, String> {
        if self.settings_fail {
            return Err("no settings".to_string());
        }
        Ok(CaptureSettings {
            max_file_set_total_bytes: 0,
            max_file_set_member_count: 1,
            retention_enabled: self.no_history,
            retention_rules: vec![
                RetentionRule::Other,
                RetentionRule::ByAge { max_age_nanos: 5 },
                RetentionRule::ByAge { max_age_nanos: 0 },
            ],
        })
    }

    fn outcome_of(fails: bool, words: &str) -> Result<(), String> {
        if fails { Err(words.to_string()) } else { Ok(()) }
    }

    fn persisted(&mut self, port: PortRef, record: &PersistRecord) {
        let words = match record {
            PersistRecord::Save { entry, selection } => format!(
                "save@{} {} {} at {} size {} selection {:?}",
                port.0,
                entry.entry_id.0,
                entry.event_id.0,
                entry.created_at_ms,
                entry.total_size,
                selection.selection
            ),
            PersistRecord::Replace { entry_id, event, representations, .. } => format!(
                "replace@{} {} {} with {}",
                port.0,
                entry_id.0,
                event.snapshot_hash.0,
                representations.len()
            ),
            PersistRecord::Commit { settlement, .. } => match settlement {
                InboundReceiveSettlement::Complete { record, attempt_id, file_set, artifacts, .. } => {
                    let what = match record {
                        InboundReceiveRecord::Create { entry, .. } => {
                            format!("create {}", entry.entry_id.0)
                        }
                        InboundReceiveRecord::Replace { entry_id, .. } => {
                            format!("replace {}", entry_id.0)
                        }
                    };
                    format!(
                        "commit@{} complete {attempt_id} {what} {:?} {:?}",
                        port.0,
                        file_set.as_ref().map(|set| set.lines.len()),
                        artifacts
                    )
                }
                InboundReceiveSettlement::Partial { attempt_id, terminal, now_ms, .. } => {
                    format!("commit@{} partial {attempt_id} {:?} at {now_ms}", port.0, terminal)
                }
            },
        };
        self.note(words);
    }

    fn answer(&mut self, run: &CaptureRun) -> Option<CaptureReply> {
        Some(match run.request() {
            CaptureRequest::NewEventId => {
                self.note("event id".to_string());
                CaptureReply::EventId(EventId("event".to_string()))
            }
            CaptureRequest::CurrentDevice { port } => {
                self.note(format!("device@{}", port.0));
                CaptureReply::Device(DeviceId(77))
            }
            CaptureRequest::LoadSettings { port } => {
                self.note(format!("settings@{}", port.0));
                CaptureReply::Settings(self.settings())
            }
            CaptureRequest::BuildFileSet { port, request } => {
                CaptureReply::Manifest(match request {
                    ManifestRequest::Classify(line) => {
                        let named = line.strip_prefix("file://").map(|path| FilePath {
                            raw: path.as_bytes().to_vec(),
                            file_name: path.rsplit('/').next().map(|name| name.to_string()),
                        });
                        ManifestReply::Classified(named)
                    }
                    ManifestRequest::Traverse(request) => {
                        ManifestReply::Traversed(match request {
                            TraversalRequest::Inspect(_) => TraversalReply::Inspected(None),
                            TraversalRequest::List(_) => TraversalReply::Listed(None),
                            TraversalRequest::Hash(_) => {
                                self.note(format!("hash file@{}", port.0));
                                TraversalReply::Hashed(Some(ContentHash { bytes: [9u8; 32] }))
                            }
                            TraversalRequest::Nothing => panic!("nothing to do"),
                        })
                    }
                    ManifestRequest::Nothing => panic!("a finished manifest asks for nothing"),
                })
            }
            CaptureRequest::Contribution { file_set } => {
                self.note(format!("contribution of {}", file_set.lines.len()));
                CaptureReply::Contribution {
                    component: self.component.take(),
                    digests: std::mem::take(&mut self.digests),
                }
            }
            CaptureRequest::HashSnapshot { snapshot } => {
                self.seen_component =
                    snapshot.file_set_v1_component.as_ref().map(|set| set.0.clone());
                self.seen_digests = snapshot.file_content_digests.len();
                self.note("hash".to_string());
                CaptureReply::Hash(SnapshotHash("computed".to_string()))
            }
            CaptureRequest::Lock { port, hash } => {
                self.note(format!("lock@{} {hash}", port.0));
                CaptureReply::Locked
            }
            CaptureRequest::Find { port, hash } => {
                self.note(format!("find@{} {hash}", port.0));
                CaptureReply::Found(self.found.clone())
            }
            CaptureRequest::Touch { port, entry_id, active_time_ms } => {
                self.note(format!("touch@{} {} {active_time_ms}", port.0, entry_id.0));
                CaptureReply::Touched(self.touched.clone())
            }
            CaptureRequest::ListEntries { port, limit, offset } => {
                self.note(format!("list@{} {limit} {offset}", port.0));
                CaptureReply::Entries(self.entries.clone())
            }
            CaptureRequest::Ingest { port, path } => {
                self.note(format!("ingest@{} {}", port.0, String::from_utf8_lossy(&path.raw)));
                CaptureReply::Ingested(if self.ingest_fails {
                    Err("disk".to_string())
                } else {
                    Ok(BlobId { text: "blob".to_string() })
                })
            }
            CaptureRequest::Normalize { port, representation } => {
                self.note(format!("normalize@{} {}", port.0, representation.id.0));
                CaptureReply::Normalized(if self.normalize_fails {
                    Err("odd".to_string())
                } else {
                    Ok(PersistedClipboardRepresentation {
                        id: representation.id.clone(),
                        format_id: representation.format_id.clone(),
                        mime: representation.mime.clone(),
                        size_bytes: 5,
                        inline_data: None,
                        blob_id: None,
                        payload_state: if self.staged {
                            PayloadAvailability::Staged
                        } else {
                            PayloadAvailability::Inline
                        },
                    })
                })
            }
            CaptureRequest::InsertEvent { port, event, representations } => {
                self.note(format!(
                    "event@{} {} from {} at {} with {}",
                    port.0,
                    event.event_id.0,
                    event.source_device.0,
                    event.captured_at_ms,
                    representations.len()
                ));
                CaptureReply::EventInserted(Host::outcome_of(self.insert_fails, "locked"))
            }
            CaptureRequest::Cache { port, payload } => {
                self.note(format!("cache@{} {} {}", port.0, payload.rep_id.0, payload.bytes.len()));
                CaptureReply::Cached
            }
            CaptureRequest::NewEntryId => {
                self.note("entry id".to_string());
                CaptureReply::EntryId(EntryId("new".to_string()))
            }
            CaptureRequest::Select { port, snapshot } => {
                self.note(format!("select@{} {}", port.0, snapshot.representations.len()));
                CaptureReply::Selected(if self.select_fails {
                    Err("nothing fits".to_string())
                } else {
                    Ok(HostRef(21))
                })
            }
            CaptureRequest::Spool { port, payload } => {
                self.note(format!("spool@{} {}", port.0, payload.rep_id.0));
                CaptureReply::Spooled(Host::outcome_of(self.spool_fails, "disk full"))
            }
            CaptureRequest::Measure { .. } => {
                self.note("measure".to_string());
                CaptureReply::Measured(Measure {
                    total_size: self.total_size,
                    content_category: HostRef(22),
                })
            }
            CaptureRequest::ReadClock => {
                self.note("clock".to_string());
                CaptureReply::Time(if self.clock_fails {
                    Err("before the epoch".to_string())
                } else {
                    Ok(1_700_000_000_500)
                })
            }
            CaptureRequest::Persist { port, record } => {
                self.persisted(port, record);
                CaptureReply::Persisted(Host::outcome_of(self.persist_fails, "read-only"))
            }
            CaptureRequest::SaveFileSet { port, entry_id, file_set } => {
                self.note(format!("file set@{} {} {}", port.0, entry_id.0, file_set.lines.len()));
                CaptureReply::FileSetSaved(Host::outcome_of(self.file_set_fails, "full"))
            }
            CaptureRequest::Report { port, report } => {
                self.note(format!(
                    "report@{} {:?} {:?} {}",
                    port.0, report.origin, report.payload_type, report.size_bytes
                ));
                CaptureReply::Reported
            }
            CaptureRequest::Nothing => return None,
        })
    }

    fn drive(&mut self, run: CaptureRun) -> Result<Option<CaptureOutcome>, CaptureError> {
        let mut run = run;
        while let Some(reply) = self.answer(&run) {
            run = run.resume(reply);
        }
        match run {
            CaptureRun::Done { result } => result,
            _ => panic!("a capture that asks for nothing has ended"),
        }
    }
}

fn outcome(entry_id: &str, deduplicated: bool, hash: &str) -> CaptureOutcome {
    CaptureOutcome {
        entry_id: EntryId(entry_id.to_string()),
        deduplicated,
        snapshot_hash: hash.to_string(),
    }
}

#[test]
fn has_supported_representation_true_for_text_plain() {
    let snap = snapshot_with(vec![rep("public.utf8-plain-text", Some("text/plain"), b"hi")]);
    assert!(CaptureClipboardUseCase::has_supported_representation(&snap));
}

#[test]
fn has_supported_representation_true_for_image_mime() {
    let snap = snapshot_with(vec![rep("image", Some("image/png"), b"\x89PNG")]);
    assert!(CaptureClipboardUseCase::has_supported_representation(&snap));
}

#[test]
fn has_supported_representation_true_for_files_format_without_mime() {
    let snap = snapshot_with(vec![rep("files", None, b"file:///tmp/x")]);
    assert!(CaptureClipboardUseCase::has_supported_representation(&snap));
}

#[test]
fn has_supported_representation_true_for_uri_list_mime() {
    let snap = snapshot_with(vec![rep(
        "public.file-url",
        Some("text/uri-list"),
        b"file:///tmp/a",
    )]);
    assert!(CaptureClipboardUseCase::has_supported_representation(&snap));
}

#[test]
fn has_supported_representation_false_for_unknown_format_and_mime() {
    let snap = snapshot_with(vec![rep("vendor.private", Some("application/x-vendor"), b"x")]);
    assert!(!CaptureClipboardUseCase::has_supported_representation(&snap));
}

#[test]
fn has_supported_representation_false_for_empty_snapshot() {
    let snap = snapshot_with(vec![]);
    assert!(!CaptureClipboardUseCase::has_supported_representation(&snap));
}

#[test]
fn is_supported_representation_matches_legacy_format_aliases() {
    let cases: &[(&str, Option<&str>)] = &[
        ("text", None),
        ("rtf", None),
        ("html", None),
        ("image", None),
        ("public.text", None),
        ("NSStringPboardType", None),
    ];
    for (format, mime) in cases {
        let r = rep(format, *mime, b"x");
        assert!(
            CaptureClipboardUseCase::is_supported_representation(&r),
            "expected `{}` to be supported",
            format
        );
    }
}

#[test]
fn support_disregards_case_where_it_should() {
    let supported = |format: &str, mime: Option<&str>| {
        CaptureClipboardUseCase::is_supported_representation(&rep(format, mime, b"x"))
    };
    assert!(supported("HTML", None));
    assert!(supported("nsstringpboardtype", None));
    assert!(supported("odd", Some("FILE/URI-LIST")));
    assert!(supported("odd", Some("Text/Uri-List")));
    assert!(!supported("odd", Some("Text/plain")));
    assert!(!supported("odd", Some("IMAGE/png")));
    assert!(!supported("textual", None));
}

#[test]
fn resurface_returns_entry_when_found_and_touched() {
    let found = resurface_candidate(Ok(Some(EntryId("e1".to_string())))).unwrap();
    assert_eq!(resurface_existing_entry(found, Ok(true)), Some(EntryId("e1".to_string())));
}

#[test]
fn resurface_degrades_when_touch_updates_no_rows() {
    let found = resurface_candidate(Ok(Some(EntryId("e1".to_string())))).unwrap();
    assert_eq!(resurface_existing_entry(found, Ok(false)), None);
}

#[test]
fn resurface_degrades_when_touch_errors() {
    let found = resurface_candidate(Ok(Some(EntryId("e1".to_string())))).unwrap();
    assert_eq!(
        resurface_existing_entry(found, Err("simulated touch failure".to_string())),
        None
    );
}

#[test]
fn resurface_returns_none_when_no_match() {
    assert_eq!(resurface_candidate(Ok(None)), None);
}

#[test]
fn resurface_returns_none_when_lookup_errors() {
    assert_eq!(
        resurface_candidate(Err("simulated dedup lookup failure".to_string())),
        None
    );
}

#[test]
fn a_local_text_capture_runs_in_order() {
    let mut host = Host::new();
    let result = host.drive(use_case().execute(text_snapshot()));
    assert_eq!(result, Ok(Some(outcome("new", false, "computed"))));
    assert_eq!(
        host.log,
        vec![
            "event id",
            "device@7",
            "hash",
            "find@3 computed",
            "normalize@6 rep-text",
            "event@4 event from 77 at 1700000000000 with 1",
            "entry id",
            "select@5 1",
            "measure",
            "clock",
            "save@1 new event at 1700000000500 size 5 selection HostRef(21)",
            "report@14 SystemWatcher Text 5",
        ]
    );
}

#[test]
fn staged_payloads_are_cached_and_spooled_before_the_entry() {
    let mut host = Host::new();
    host.staged = true;
    let snapshot = snapshot_with(vec![
        rep("text", Some("text/plain"), b"hello"),
        rep("html", Some("text/html"), b"<b>hello</b>"),
    ]);
    assert!(host.drive(use_case().execute(snapshot)).is_ok());
    let from = host.log.iter().position(|line| line.starts_with("event@4")).unwrap();
    assert_eq!(
        host.log[from + 1..from + 9].to_vec(),
        vec![
            "cache@8 rep-text 5",
            "cache@8 rep-html 12",
            "entry id",
            "select@5 2",
            "spool@9 rep-text",
            "spool@9 rep-html",
            "measure",
            "clock",
        ]
    );
}

#[test]
fn payloads_of_unknown_representations_are_not_spooled() {
    let run = use_case().execute(text_snapshot());
    let mut host = Host::new();
    let mut run = run;
    loop {
        if let CaptureRequest::Normalize { .. } = run.request() {
            break;
        }
        let reply = host.answer(&run).unwrap();
        run = run.resume(reply);
    }
    run = run.resume(CaptureReply::Normalized(Ok(PersistedClipboardRepresentation {
        id: RepresentationId("other".to_string()),
        format_id: FormatId("text".to_string()),
        mime: None,
        size_bytes: 5,
        inline_data: None,
        blob_id: None,
        payload_state: PayloadAvailability::Staged,
    })));
    assert!(host.drive(run).is_ok());
    assert!(!host.log.iter().any(|line| line.starts_with("spool") || line.starts_with("cache")));
}

#[test]
fn restored_and_unsupported_content_is_not_captured() {
    let mut host = Host::new();
    let restored = use_case().execute_with_origin(
        text_snapshot(),
        ClipboardChangeOrigin::LocalRestore,
        None,
        None,
        CommitMode::Create,
    );
    assert_eq!(host.drive(restored), Ok(None));
    let unsupported = use_case().execute(snapshot_with(vec![rep("odd", None, b"x")]));
    assert_eq!(host.drive(unsupported), Ok(None));
    assert!(host.log.is_empty());
}

#[test]
fn content_that_is_there_is_brought_to_the_top() {
    let mut host = Host::new();
    host.found = Ok(Some(EntryId("old".to_string())));
    let locked = use_case().with_entry_identity_coordinator(PortRef(30));
    let result = host.drive(locked.execute(text_snapshot()));
    assert_eq!(result, Ok(Some(outcome("old", true, "computed"))));
    assert_eq!(
        host.log,
        vec![
            "event id",
            "device@7",
            "hash",
            "lock@30 computed",
            "find@3 computed",
            "touch@2 old 1700000000000",
        ]
    );
}

#[test]
fn a_vanished_or_failing_match_is_captured_anew() {
    for touched in [Ok(false), Err("locked".to_string())] {
        let mut host = Host::new();
        host.found = Ok(Some(EntryId("old".to_string())));
        host.touched = touched;
        let result = host.drive(use_case().execute(text_snapshot()));
        assert_eq!(result, Ok(Some(outcome("new", false, "computed"))));
    }
    let mut host = Host::new();
    host.found = Err("locked".to_string());
    let result = host.drive(use_case().execute(text_snapshot()));
    assert_eq!(result, Ok(Some(outcome("new", false, "computed"))));
}

#[test]
fn without_a_history_the_latest_entry_is_replaced() {
    let replacing = use_case().with_list_entries(PortRef(31));
    let mut host = Host::new();
    host.no_history = true;
    host.entries = Ok(vec![EntryId("latest".to_string())]);
    let result = host.drive(replacing.execute(text_snapshot()));
    assert_eq!(result, Ok(Some(outcome("latest", false, "computed"))));
    assert!(host.log.contains(&"list@31 1 0".to_string()));
    assert!(host.log.contains(&"replace@13 latest computed with 1".to_string()));
    assert!(!host.log.iter().any(|line| line.starts_with("event@") || line == "entry id"));
}

#[test]
fn a_history_is_kept_unless_every_condition_holds() {
    let replacing = use_case().with_list_entries(PortRef(31));
    // No entry yet, no list, no settings, or a history that is kept.
    let mut hosts = vec![Host::new(), Host::new(), Host::new(), Host::new()];
    hosts[0].no_history = true;
    hosts[1].no_history = true;
    hosts[1].entries = Err("locked".to_string());
    hosts[2].settings_fail = true;
    for host in hosts.iter_mut() {
        let result = host.drive(replacing.execute(text_snapshot()));
        assert_eq!(result, Ok(Some(outcome("new", false, "computed"))));
    }
    let mut unwired = Host::new();
    unwired.no_history = true;
    assert!(unwired.drive(use_case().execute(text_snapshot())).is_ok());
    assert!(!unwired.log.iter().any(|line| line.starts_with("settings")));
}

#[test]
fn pushed_content_keeps_its_identity_and_source() {
    let mut host = Host::new();
    host.found = Ok(Some(EntryId("old".to_string())));
    let wired = use_case().with_entry_identity_coordinator(PortRef(30)).with_list_entries(PortRef(31));
    let run = wired.execute_with_origin(
        text_snapshot(),
        ClipboardChangeOrigin::RemotePush { from_device: Some(DeviceId(5)) },
        Some(EntryId("preset".to_string())),
        Some(SnapshotHash("wire".to_string())),
        CommitMode::Create,
    );
    let result = host.drive(run);
    assert_eq!(result, Ok(Some(outcome("preset", false, "wire"))));
    assert_eq!(
        host.log,
        vec![
            "event id",
            "normalize@6 rep-text",
            "event@4 event from 5 at 1700000000000 with 1",
            "select@5 1",
            "measure",
            "clock",
            "save@1 preset event at 1700000000500 size 5 selection HostRef(21)",
        ]
    );
}

#[test]
fn what_other_devices_send_is_captured_the_same_with_a_listing_and_without() {
    let courses: Vec<(Vec<String>, Result<Option<CaptureOutcome>, CaptureError>)> =
        [use_case(), use_case().with_list_entries(PortRef(31))]
            .iter()
            .map(|wired| {
                let mut host = Host::new();
                host.no_history = true;
                host.entries = Ok(vec![EntryId("latest".to_string())]);
                let result = host.drive(wired.execute_with_origin(
                    text_snapshot(),
                    ClipboardChangeOrigin::RemotePush { from_device: None },
                    Some(EntryId("preset".to_string())),
                    None,
                    CommitMode::Create,
                ));
                (host.log, result)
            })
            .collect();
    assert_eq!(courses[0], courses[1]);
    assert_eq!(courses[0].1, Ok(Some(outcome("preset", false, "computed"))));
}

#[test]
fn a_push_without_sender_is_recorded_for_this_device() {
    let mut host = Host::new();
    let run = use_case().execute_with_origin(
        text_snapshot(),
        ClipboardChangeOrigin::RemotePush { from_device: None },
        None,
        None,
        CommitMode::Create,
    );
    assert!(host.drive(run).is_ok());
    assert!(host.log.contains(&"device@7".to_string()));
    assert!(!host.log.iter().any(|line| line.starts_with("report")));
}

#[test]
fn receipts_are_committed_in_one() {
    let wired = use_case().with_inbound_receive_commit(PortRef(32));
    let mut host = Host::new();
    let run = wired.execute_directory_with_origin(
        text_snapshot(),
        ClipboardChangeOrigin::RemotePush { from_device: Some(DeviceId(5)) },
        EntryId("preset".to_string()),
        Some(SnapshotHash("wire".to_string())),
        CommitMode::Create,
        DirectoryCaptureCommitContext {
            attempt_id: "attempt".to_string(),
            file_set: EntryFileSet { lines: Vec::new() },
        },
    );
    assert_eq!(host.drive(run), Ok(Some(outcome("preset", false, "wire"))));
    assert!(host.log.contains(
        &"commit@32 complete attempt create preset Some(0) DirectoryPublished".to_string()
    ));
    assert!(!host.log.iter().any(|line| line.starts_with("event@") || line.starts_with("file set")));

    let mut host = Host::new();
    let run = wired.execute_inbound_with_origin(
        text_snapshot(),
        ClipboardChangeOrigin::RemotePush { from_device: None },
        EntryId("preset".to_string()),
        None,
        CommitMode::Replace,
        InboundCaptureCommitContext::Complete {
            attempt_id: "a".to_string(),
            file_set: None,
            artifacts: CompletedReceiveArtifacts::Host(HostRef(3)),
        },
    );
    assert!(host.drive(run).is_ok());
    assert!(host
        .log
        .contains(&"commit@32 complete a replace preset None Host(HostRef(3))".to_string()));

    let mut host = Host::new();
    let run = wired.execute_inbound_with_origin(
        text_snapshot(),
        ClipboardChangeOrigin::RemotePush { from_device: None },
        EntryId("preset".to_string()),
        None,
        CommitMode::Create,
        InboundCaptureCommitContext::Partial {
            attempt_id: "p".to_string(),
            terminal: PartialReceiveTerminal(HostRef(4)),
            file_set: None,
            artifacts: PartialReceiveArtifacts(HostRef(5)),
        },
    );
    assert!(host.drive(run).is_ok());
    assert!(host.log.contains(
        &"commit@32 partial p PartialReceiveTerminal(HostRef(4)) at 1700000000500".to_string()
    ));
}

#[test]
fn copied_files_go_straight_to_the_blob_store() {
    let mut host = Host::new();
    host.digests = vec![ContentHash { bytes: [9u8; 32] }];
    let result = host.drive(use_case().execute(snapshot_with(vec![local_file("a.txt", 12)])));
    assert_eq!(result, Ok(Some(outcome("new", false, "computed"))));
    assert_eq!(
        host.log,
        vec![
            "event id",
            "device@7",
            "settings@12",
            "hash file@10",
            "contribution of 1",
            "hash",
            "find@3 computed",
            "ingest@10 /u/a.txt",
            "event@4 event from 77 at 1700000000000 with 1",
            "entry id",
            "select@5 1",
            "measure",
            "clock",
            "save@1 new event at 1700000000500 size 5 selection HostRef(21)",
            "file set@11 new 1",
            "report@14 SystemWatcher File 5",
        ]
    );
    assert_eq!(host.seen_digests, 1);
    assert_eq!(host.seen_component, None);
}

#[test]
fn ingested_files_are_stored_as_blobs() {
    let mut host = Host::new();
    let mut run = use_case().execute(snapshot_with(vec![local_file("a.txt", 12)]));
    loop {
        if let CaptureRequest::InsertEvent { representations, .. } = run.request() {
            assert_eq!(
                representations[0],
                PersistedClipboardRepresentation {
                    id: RepresentationId("rep-a.txt".to_string()),
                    format_id: FormatId("files".to_string()),
                    mime: None,
                    size_bytes: 12,
                    inline_data: None,
                    blob_id: Some(BlobId { text: "blob".to_string() }),
                    payload_state: PayloadAvailability::BlobReady,
                }
            );
            break;
        }
        let reply = host.answer(&run).unwrap();
        run = run.resume(reply);
    }
}

#[test]
fn a_component_comes_before_digests() {
    let mut host = Host::new();
    host.component = Some(FileSetComponent("set".to_string()));
    host.digests = vec![ContentHash { bytes: [9u8; 32] }];
    assert!(host.drive(use_case().execute(snapshot_with(vec![local_file("a", 1)]))).is_ok());
    assert_eq!(host.seen_component, Some("set".to_string()));
    assert_eq!(host.seen_digests, 0);
}

#[test]
fn digested_files_are_not_listed_again() {
    let mut host = Host::new();
    let mut snapshot = snapshot_with(vec![rep("files", None, b"file:///u/a.txt")]);
    snapshot.file_content_digests = vec![ContentHash { bytes: [1u8; 32] }];
    assert!(host.drive(use_case().execute(snapshot)).is_ok());
    assert!(!host.log.iter().any(|line| line.starts_with("settings") || line.starts_with("contribution")));
}

#[test]
fn caps_fall_back_where_settings_fail() {
    // Two files: over the cap of the settings, within that of the fallback.
    let files = || snapshot_with(vec![local_file("a", 1), local_file("b", 1)]);
    let mut host = Host::new();
    assert!(host.drive(use_case().execute(files())).is_ok());
    assert!(!host.log.iter().any(|line| line.starts_with("hash file")));
    let mut host = Host::new();
    host.settings_fail = true;
    assert!(host.drive(use_case().execute(files())).is_ok());
    assert_eq!(host.log.iter().filter(|line| line.starts_with("hash file")).count(), 2);
}

#[test]
fn a_manifest_that_cannot_be_stored_is_no_failure() {
    let mut host = Host::new();
    host.file_set_fails = true;
    let result = host.drive(use_case().execute(snapshot_with(vec![local_file("a", 1)])));
    assert_eq!(result, Ok(Some(outcome("new", false, "computed"))));
}

fn failing(change: fn(&mut Host), snapshot: SystemClipboardSnapshot) -> (CaptureError, Vec<String>) {
    let mut host = Host::new();
    change(&mut host);
    let error = host.drive(use_case().execute(snapshot)).unwrap_err();
    (error, host.log)
}

#[test]
fn each_failure_is_told_and_leaves_no_entry() {
    let (error, log) = failing(|h| h.ingest_fails = true, snapshot_with(vec![local_file("a", 1)]));
    assert_eq!(error, CaptureError::Ingest("disk".to_string()));
    assert_eq!(error.message(), "LocalFile rep ingest into blob store failed: disk");
    assert!(!log.iter().any(|line| line.starts_with("save")));

    let (error, _) = failing(|h| h.normalize_fails = true, text_snapshot());
    assert_eq!(error, CaptureError::Normalize("odd".to_string()));
    assert_eq!(error.message(), "odd");

    let (error, _) = failing(|h| h.insert_fails = true, text_snapshot());
    assert_eq!(error, CaptureError::InsertEvent("locked".to_string()));
    assert_eq!(error.message(), "locked");

    let (error, _) = failing(|h| h.select_fails = true, text_snapshot());
    assert_eq!(error, CaptureError::Select("nothing fits".to_string()));
    assert_eq!(error.message(), "nothing fits");

    let (error, log) = failing(
        |h| {
            h.staged = true;
            h.spool_fails = true;
        },
        text_snapshot(),
    );
    assert_eq!(
        error,
        CaptureError::Spool {
            rep_id: RepresentationId("rep-text".to_string()),
            cause: "disk full".to_string(),
        }
    );
    assert_eq!(
        error.message(),
        "Failed to durably spool representation rep-text during capture: disk full"
    );
    assert!(!log.iter().any(|line| line.starts_with("save")));

    let (error, _) = failing(|h| h.clock_fails = true, text_snapshot());
    assert_eq!(error, CaptureError::Clock("before the epoch".to_string()));
    assert_eq!(error.message(), "Failed to get system time: before the epoch");

    let (error, log) = failing(|h| h.persist_fails = true, text_snapshot());
    assert_eq!(error, CaptureError::Persist("read-only".to_string()));
    assert_eq!(error.message(), "read-only");
    assert!(!log.iter().any(|line| line.starts_with("report")));
}

#[test]
fn a_receipt_needs_something_to_commit_it_with() {
    let mut host = Host::new();
    let run = use_case().execute_inbound_with_origin(
        text_snapshot(),
        ClipboardChangeOrigin::RemotePush { from_device: None },
        EntryId("preset".to_string()),
        None,
        CommitMode::Create,
        InboundCaptureCommitContext::Complete {
            attempt_id: "a".to_string(),
            file_set: None,
            artifacts: CompletedReceiveArtifacts::DirectoryPublished,
        },
    );
    let error = host.drive(run).unwrap_err();
    assert_eq!(error, CaptureError::CommitNotWired);
    assert_eq!(error.message(), "inbound receive commit port is not wired");
    assert_eq!(host.log.last().unwrap(), "clock");
}

#[test]
fn a_local_capture_without_entry_is_an_error() {
    assert_eq!(
        captured_entry(Ok(Some(outcome("e", false, "h")))),
        Ok(EntryId("e".to_string()))
    );
    let error = captured_entry(Ok(None)).unwrap_err();
    assert_eq!(error.message(), "local capture should always persist an entry");
    assert_eq!(captured_entry(Err(CaptureError::CommitNotWired)), Err(CaptureError::CommitNotWired));
}

#[test]
fn sizes_below_zero_are_reported_as_none() {
    let mut host = Host::new();
    host.total_size = -3;
    assert!(host.drive(use_case().execute(text_snapshot())).is_ok());
    assert_eq!(host.log.last().unwrap(), "report@14 SystemWatcher Text 0");
}

#[test]
fn answers_to_other_questions_leave_a_capture_as_it_is() {
    let run = use_case().execute(text_snapshot());
    let run = run.resume(CaptureReply::Cached);
    assert!(matches!(run.request(), CaptureRequest::NewEventId));
    let run = run.resume(CaptureReply::EventId(EventId("e".to_string())));
    let run = run.resume(CaptureReply::Reported);
    assert!(matches!(run.request(), CaptureRequest::CurrentDevice { .. }));
}

#[test]
fn questions_come_once_and_captures_end_in_bounded_time() {
    let locked = use_case().with_entry_identity_coordinator(PortRef(30));
    let snapshots = vec![
        text_snapshot(),
        snapshot_with(vec![rep("files", Some("text/uri-list"), b"file:///u/a\nfile:///u/b")]),
        snapshot_with(vec![
            local_file("a", 1),
            rep("text", Some("text/plain"), b"hello"),
            rep("html", Some("text/html"), b"<p>hello</p>"),
        ]),
    ];
    for snapshot in snapshots {
        let representations = snapshot.representations.len();
        let mut host = Host::new();
        host.staged = true;
        host.component = Some(FileSetComponent("set".to_string()));
        let mut run = locked.execute(snapshot);
        let mut answers: usize = 0;
        loop {
            let for_manifest = matches!(run.request(), CaptureRequest::BuildFileSet { .. });
            match host.answer(&run) {
                Some(reply) => run = run.resume(reply),
                None => break,
            }
            if !for_manifest {
                answers += 1;
            }
        }
        assert!(matches!(run, CaptureRun::Done { result: Ok(Some(_)) }));
        assert!(answers <= 3 * representations + 19);
        for question in ["lock@", "event@", "save@", "report@"] {
            let asked = host.log.iter().filter(|line| line.starts_with(question)).count();
            assert_eq!(asked, 1, "{question}");
        }
        let saved = host.log.iter().filter(|line| line.starts_with("file set@")).count();
        assert!(saved <= 1);
    }
}

#[test]
fn targets_come_from_the_head_of_the_list() {
    assert_eq!(
        resolve_no_history_target(Ok(vec![EntryId("a".to_string()), EntryId("b".to_string())])),
        Some(EntryId("a".to_string()))
    );
    assert_eq!(resolve_no_history_target(Ok(Vec::new())), None);
    assert_eq!(resolve_no_history_target(Err("locked".to_string())), None);
}

#[test]
fn payload_types_are_inferred_by_rank() {
    let of = |reps: Vec<ObservedClipboardRepresentation>| infer_payload_type(&snapshot_with(reps));
    assert_eq!(of(vec![]), PayloadType::Text);
    assert_eq!(of(vec![rep("text", Some("text/plain"), b"x")]), PayloadType::Text);
    assert_eq!(
        of(vec![rep("text", Some("text/plain"), b"x"), rep("odd", Some("image/png"), b"x")]),
        PayloadType::Image
    );
    assert_eq!(of(vec![rep("IMAGE", None, b"x")]), PayloadType::Image);
    assert_eq!(
        of(vec![rep("image", None, b"x"), rep("odd", Some("File/URI-list"), b"x")]),
        PayloadType::File
    );
    assert_eq!(of(vec![rep("FILES", None, b"x")]), PayloadType::File);
}

#[test]
fn only_local_origins_are_reported() {
    assert_eq!(
        telemetry_capture_origin(ClipboardChangeOrigin::LocalCapture),
        Some(CaptureOrigin::SystemWatcher)
    );
    assert_eq!(
        telemetry_capture_origin(ClipboardChangeOrigin::LocalRestore),
        Some(CaptureOrigin::ManualRestore)
    );
    assert_eq!(
        telemetry_capture_origin(ClipboardChangeOrigin::RemotePush { from_device: None }),
        None
    );
    assert_eq!(telemetry_capture_origin(ClipboardChangeOrigin::Resend), None);
}
