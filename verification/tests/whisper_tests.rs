use greepy::launch::Platform;
use greepy::whisper::audio_path_to_read;
use greepy::whisper::audio_read_failure;
use greepy::whisper::check_audio_payload;
use greepy::whisper::check_model_path;
use greepy::whisper::choose_model;
use greepy::whisper::clean_transcript;
use greepy::whisper::collect_resource_search_roots;
use greepy::whisper::failure_report;
use greepy::whisper::format_exit_status;
use greepy::whisper::is_ggml_model;
use greepy::whisper::is_tiny_model_file_name;
use greepy::whisper::is_tiny_whisper_model_path;
use greepy::whisper::launch_failure;
use greepy::whisper::model_priority;
use greepy::whisper::push_unique_existing_dir;
use greepy::whisper::read_failure;
use greepy::whisper::reject_tiny_model;
use greepy::whisper::resolve_binary;
use greepy::whisper::resolve_language;
use greepy::whisper::resolve_non_empty;
use greepy::whisper::scan_for_file;
use greepy::whisper::scan_for_models;
use greepy::whisper::search_root_plan;
use greepy::whisper::should_replace;
use greepy::whisper::speech_to_text_gate;
use greepy::whisper::transcription_failure;
use greepy::whisper::whisper_arguments;
use greepy::whisper::whisper_runtime_hint;
use greepy::whisper::working_dir_name;
use greepy::whisper::write_failure;
use greepy::whisper::DirEntryInfo;
use greepy::whisper::ModelChoice;
use greepy::whisper::RootBase;
use greepy::whisper::RootCandidate;
use greepy::whisper::SPEECH_TO_TEXT_DISABLED;

fn some(s: &str) -> Option<String> {
    Some(s.to_string())
}

fn file(path: &str, name: &str, size: u64) -> DirEntryInfo {
    DirEntryInfo { path: path.to_string(), is_dir: false, file_name: some(name), size }
}

fn dir(path: &str) -> DirEntryInfo {
    DirEntryInfo { path: path.to_string(), is_dir: true, file_name: None, size: 0 }
}

fn candidate(path: &str, is_existing_dir: bool) -> RootCandidate {
    RootCandidate { path: path.to_string(), is_existing_dir }
}

#[test]
fn resolve_non_empty_trims_and_drops_blanks() {
    assert_eq!(resolve_non_empty(None), None);
    assert_eq!(resolve_non_empty(some("")), None);
    assert_eq!(resolve_non_empty(some("  \t\n")), None);
    assert_eq!(resolve_non_empty(some("  whisper-cli  ")), some("whisper-cli"));
    assert_eq!(resolve_non_empty(some("a b")), some("a b"));
    assert_eq!(resolve_non_empty(some("\u{3000}en\u{a0}")), some("en"));
}

#[test]
fn push_unique_existing_dir_skips_what_does_not_exist() {
    let mut seen = Vec::new();
    let mut collected = Vec::new();
    push_unique_existing_dir(&mut seen, &mut collected, "/opt/app".to_string(), false);
    assert!(seen.is_empty());
    assert!(collected.is_empty());
}

#[test]
fn push_unique_existing_dir_takes_each_directory_once() {
    let mut seen = Vec::new();
    let mut collected = Vec::new();
    push_unique_existing_dir(&mut seen, &mut collected, "/Opt/App".to_string(), true);
    assert_eq!(seen, vec!["/opt/app"]);
    assert_eq!(collected, vec!["/Opt/App"]);
    push_unique_existing_dir(&mut seen, &mut collected, "/opt/app".to_string(), true);
    push_unique_existing_dir(&mut seen, &mut collected, "/OPT/APP".to_string(), true);
    assert_eq!(seen, vec!["/opt/app"]);
    assert_eq!(collected, vec!["/Opt/App"]);
    push_unique_existing_dir(&mut seen, &mut collected, "/opt/app/whisper".to_string(), true);
    assert_eq!(seen, vec!["/opt/app", "/opt/app/whisper"]);
    assert_eq!(collected, vec!["/Opt/App", "/opt/app/whisper"]);
    // Lower case is taken by the rules of Unicode, not of ASCII alone.
    push_unique_existing_dir(&mut seen, &mut collected, "/\u{c9}t\u{e9}".to_string(), true);
    push_unique_existing_dir(&mut seen, &mut collected, "/\u{e9}T\u{c9}".to_string(), true);
    assert_eq!(collected, vec!["/Opt/App", "/opt/app/whisper", "/\u{c9}t\u{e9}"]);
}

#[test]
fn runtime_hint_for_windows_statuses() {
    let missing = whisper_runtime_hint(Platform::Windows, Some(0xC0000135u32 as i32));
    assert_eq!(
        missing,
        Some("Windows reported STATUS_DLL_NOT_FOUND. Bundle whisper.cpp runtime DLLs (for example: whisper.dll, ggml.dll, ggml-base.dll, ggml-cpu.dll) beside whisper-cli.exe.")
    );
    let format = whisper_runtime_hint(Platform::Windows, Some(0xC000007Bu32 as i32));
    assert_eq!(
        format,
        Some("Windows reported STATUS_INVALID_IMAGE_FORMAT. Verify Whisper binary/DLL architecture matches the app (x64 vs x86).")
    );
    assert_eq!(whisper_runtime_hint(Platform::Windows, Some(1)), None);
    assert_eq!(whisper_runtime_hint(Platform::Windows, Some(0)), None);
    assert_eq!(whisper_runtime_hint(Platform::Windows, None), None);
}

#[test]
fn runtime_hint_is_for_windows_only() {
    assert_eq!(whisper_runtime_hint(Platform::Posix, Some(0xC0000135u32 as i32)), None);
    assert_eq!(whisper_runtime_hint(Platform::Posix, Some(0xC000007Bu32 as i32)), None);
    assert_eq!(whisper_runtime_hint(Platform::Posix, Some(1)), None);
    assert_eq!(whisper_runtime_hint(Platform::Posix, None), None);
}

#[test]
fn tiny_models_by_file_name() {
    assert!(is_tiny_model_file_name(some("ggml-tiny.bin")));
    assert!(is_tiny_model_file_name(some("GGML-TINY.en.bin")));
    assert!(is_tiny_model_file_name(some("my-ggml-tiny-q5.bin")));
    assert!(!is_tiny_model_file_name(some("ggml-base.bin")));
    assert!(!is_tiny_model_file_name(some("tiny.bin")));
    assert!(!is_tiny_model_file_name(some("")));
    assert!(!is_tiny_model_file_name(None));
}

#[test]
fn tiny_models_by_path() {
    assert!(is_tiny_whisper_model_path("/models/ggml-tiny.bin"));
    assert!(is_tiny_whisper_model_path("ggml-tiny.en.bin"));
    assert!(is_tiny_whisper_model_path("/models/Ggml-Tiny.bin"));
    assert!(!is_tiny_whisper_model_path("/models/ggml-large-v3.bin"));
    // The directory does not count, only the file's name.
    assert!(!is_tiny_whisper_model_path("/ggml-tiny/ggml-base.bin"));
    assert!(!is_tiny_whisper_model_path(""));
    assert!(!is_tiny_whisper_model_path("/models/.."));
}

#[test]
fn exit_status_on_posix() {
    assert_eq!(format_exit_status(Platform::Posix, Some(0)), "exit code 0");
    assert_eq!(format_exit_status(Platform::Posix, Some(1)), "exit code 1");
    assert_eq!(format_exit_status(Platform::Posix, Some(-5)), "exit code -5");
    assert_eq!(format_exit_status(Platform::Posix, Some(i32::MIN)), "exit code -2147483648");
    assert_eq!(format_exit_status(Platform::Posix, None), "terminated by signal");
}

#[test]
fn exit_status_on_windows() {
    assert_eq!(format_exit_status(Platform::Windows, Some(0)), "exit code 0 (0x00000000)");
    assert_eq!(format_exit_status(Platform::Windows, Some(1)), "exit code 1 (0x00000001)");
    assert_eq!(
        format_exit_status(Platform::Windows, Some(-1073741515)),
        "exit code -1073741515 (0xC0000135)"
    );
    assert_eq!(format_exit_status(Platform::Windows, Some(-1)), "exit code -1 (0xFFFFFFFF)");
    assert_eq!(format_exit_status(Platform::Windows, Some(255)), "exit code 255 (0x000000FF)");
    assert_eq!(format_exit_status(Platform::Windows, None), "terminated by signal");
}

#[test]
fn model_priorities() {
    let names = [
        "ggml-large-v3.bin", "ggml-large-v3-turbo.bin", "ggml-large-v2.bin", "ggml-large-v1.bin",
        "ggml-large.bin", "ggml-medium.bin", "ggml-medium.en.bin", "ggml-small.bin",
        "ggml-small.en.bin", "ggml-base.bin", "ggml-base.en.bin", "ggml-tiny.bin",
        "ggml-tiny.en.bin",
    ];
    for (rank, name) in names.iter().enumerate() {
        assert_eq!(model_priority(name), rank, "{}", name);
    }
    assert_eq!(model_priority("ggml-custom.bin"), 100);
    assert_eq!(model_priority("GGML-LARGE-V3.BIN"), 100);
    assert_eq!(model_priority(""), 100);
}

#[test]
fn model_names() {
    assert!(is_ggml_model("ggml-base.bin"));
    assert!(is_ggml_model("GGML-Custom.BIN"));
    assert!(is_ggml_model("ggml-.bin"));
    assert!(!is_ggml_model("ggml.bin"));
    assert!(!is_ggml_model("ggml-base.bin.part"));
    assert!(!is_ggml_model("model-ggml-base.bin"));
    assert!(!is_ggml_model(""));
}

#[test]
fn replacing_the_best_model() {
    let best = Some(ModelChoice { priority: 5, size: 1000, path: "/m/ggml-medium.bin".to_string() });
    assert!(should_replace(100, 0, &None));
    assert!(should_replace(4, 1, &best));
    assert!(should_replace(5, 1001, &best));
    assert!(!should_replace(5, 1000, &best));
    assert!(!should_replace(5, 999, &best));
    assert!(!should_replace(6, 5000, &best));
}

#[test]
fn scan_finds_the_first_file_of_the_name() {
    let entries = vec![
        dir("/r/a"),
        file("/r/readme.txt", "readme.txt", 10),
        file("/r/Whisper-CLI", "Whisper-CLI", 20),
        dir("/r/b"),
        file("/r/whisper-cli", "whisper-cli", 30),
    ];
    let mut pending = vec!["/r/earlier".to_string()];
    let found = scan_for_file(&mut pending, &entries, "whisper-cli");
    assert_eq!(found, some("/r/Whisper-CLI"));
    assert_eq!(pending, vec!["/r/earlier", "/r/a"]);
}

#[test]
fn scan_queues_every_directory_when_nothing_matches() {
    let entries = vec![
        dir("/r/a"),
        file("/r/x", "x", 1),
        dir("/r/b"),
        DirEntryInfo { path: "/r/odd".to_string(), is_dir: false, file_name: None, size: 0 },
    ];
    let mut pending = Vec::new();
    assert_eq!(scan_for_file(&mut pending, &entries, "whisper-cli"), None);
    assert_eq!(pending, vec!["/r/a", "/r/b"]);
    let mut untouched = vec!["/q".to_string()];
    assert_eq!(scan_for_file(&mut untouched, &Vec::new(), "whisper-cli"), None);
    assert_eq!(untouched, vec!["/q"]);
}

#[test]
fn scan_does_not_take_a_directory_for_the_file() {
    let named_dir =
        DirEntryInfo { path: "/r/whisper-cli".to_string(), is_dir: true, file_name: some("whisper-cli"), size: 0 };
    let mut pending = Vec::new();
    assert_eq!(scan_for_file(&mut pending, &vec![named_dir], "whisper-cli"), None);
    assert_eq!(pending, vec!["/r/whisper-cli"]);
}

#[test]
fn scan_keeps_the_best_model() {
    let entries = vec![
        file("/m/ggml-base.bin", "ggml-base.bin", 140),
        dir("/m/more"),
        file("/m/notes.txt", "notes.txt", 5),
        file("/m/GGML-Medium.bin", "GGML-Medium.bin", 1500),
        file("/m/ggml-custom.bin", "ggml-custom.bin", 9000),
        file("/m/copy/ggml-medium.bin", "ggml-medium.bin", 1500),
        file("/m/big/ggml-medium.bin", "ggml-medium.bin", 1600),
    ];
    let mut pending = Vec::new();
    let mut best = None;
    scan_for_models(&mut pending, &mut best, &entries);
    assert_eq!(pending, vec!["/m/more"]);
    let best = best.unwrap();
    assert_eq!(best.priority, 5);
    assert_eq!(best.size, 1600);
    assert_eq!(best.path, "/m/big/ggml-medium.bin");
}

#[test]
fn scan_keeps_an_earlier_best_that_is_not_beaten() {
    let mut pending = Vec::new();
    let mut best = Some(ModelChoice { priority: 0, size: 1, path: "/a/ggml-large-v3.bin".to_string() });
    let entries = vec![file("/b/ggml-large-v3-turbo.bin", "ggml-large-v3-turbo.bin", 999)];
    scan_for_models(&mut pending, &mut best, &entries);
    let best = best.unwrap();
    assert_eq!(best.path, "/a/ggml-large-v3.bin");
    assert_eq!(best.priority, 0);
    assert_eq!(best.size, 1);
}

#[test]
fn search_plan_lists_sixteen_places() {
    let plan = search_root_plan();
    let got: Vec<(RootBase, Vec<String>)> = plan.into_iter().map(|p| (p.base, p.below)).collect();
    let s = |names: &[&str]| names.iter().map(|n| n.to_string()).collect::<Vec<String>>();
    let expected = vec![
        (RootBase::ResourceDir, s(&[])),
        (RootBase::ResourceDir, s(&["whisper"])),
        (RootBase::ResourceDir, s(&["resources"])),
        (RootBase::ResourceDir, s(&["resources", "whisper"])),
        (RootBase::ExecutableDir, s(&[])),
        (RootBase::ExecutableDir, s(&["whisper"])),
        (RootBase::ExecutableDir, s(&["resources"])),
        (RootBase::ExecutableDir, s(&["resources", "whisper"])),
        (RootBase::ExecutableDir, s(&["Resources"])),
        (RootBase::ExecutableDir, s(&["Resources", "whisper"])),
        (RootBase::ExecutableParent, s(&["resources"])),
        (RootBase::ExecutableParent, s(&["resources", "whisper"])),
        (RootBase::ExecutableParent, s(&["Resources"])),
        (RootBase::ExecutableParent, s(&["Resources", "whisper"])),
        (RootBase::CurrentDir, s(&["src-tauri", "resources"])),
        (RootBase::CurrentDir, s(&["src-tauri", "resources", "whisper"])),
    ];
    assert_eq!(got, expected);
}

#[test]
fn search_roots_are_existing_and_unique() {
    let roots = collect_resource_search_roots(vec![
        candidate("/app", true),
        candidate("/app/whisper", false),
        candidate("/app/resources", true),
        candidate("/App", true),
        candidate("/app/Resources", true),
        candidate("/elsewhere", true),
    ]);
    assert_eq!(roots, vec!["/app", "/app/resources", "/elsewhere"]);
    assert!(collect_resource_search_roots(Vec::new()).is_empty());
    assert!(collect_resource_search_roots(vec![candidate("/x", false)]).is_empty());
}

#[test]
fn this_build_refuses_transcription() {
    assert!(SPEECH_TO_TEXT_DISABLED);
    assert_eq!(
        speech_to_text_gate(SPEECH_TO_TEXT_DISABLED),
        Err("Speech-to-text is disabled in this build.".to_string())
    );
    assert_eq!(speech_to_text_gate(false), Ok(()));
}

#[test]
fn audio_path_is_checked_after_the_gate() {
    assert_eq!(
        audio_path_to_read(true, "/tmp/a.wav"),
        Err("Speech-to-text is disabled in this build.".to_string())
    );
    assert_eq!(
        audio_path_to_read(true, ""),
        Err("Speech-to-text is disabled in this build.".to_string())
    );
    assert_eq!(audio_path_to_read(false, "  "), Err("Audio file path is missing.".to_string()));
    assert_eq!(audio_path_to_read(false, ""), Err("Audio file path is missing.".to_string()));
    assert_eq!(audio_path_to_read(false, "  /tmp/a.wav\n"), Ok("/tmp/a.wav".to_string()));
}

#[test]
fn audio_payload_must_not_be_empty() {
    assert_eq!(check_audio_payload(0), Err("No audio payload received.".to_string()));
    assert_eq!(check_audio_payload(1), Ok(()));
    assert_eq!(check_audio_payload(usize::MAX), Ok(()));
}

#[test]
fn binary_resolution_order() {
    assert_eq!(resolve_binary(some(" /bin/w "), some("/env/w"), some("/bundle/w")), "/bin/w");
    assert_eq!(resolve_binary(some("  "), some("/env/w"), some("/bundle/w")), "/env/w");
    assert_eq!(resolve_binary(None, some(""), some("/bundle/w")), "/bundle/w");
    assert_eq!(resolve_binary(None, None, None), "whisper-cli");
    // What was found in the bundle is taken as it is.
    assert_eq!(resolve_binary(None, None, some(" /bundle/w ")), " /bundle/w ");
}

#[test]
fn model_resolution_order() {
    assert_eq!(
        choose_model(some("/m/a.bin "), some("/m/b.bin"), some("/m/c.bin"), some("/m/d.bin")),
        Ok("/m/a.bin".to_string())
    );
    assert_eq!(
        choose_model(some(""), some(" /m/b.bin"), some("/m/c.bin"), some("/m/d.bin")),
        Ok("/m/b.bin".to_string())
    );
    assert_eq!(choose_model(None, None, some("/m/c.bin"), some("/m/d.bin")), Ok("/m/c.bin".to_string()));
    assert_eq!(choose_model(None, some("\t"), None, some("/m/d.bin")), Ok("/m/d.bin".to_string()));
    assert_eq!(
        choose_model(None, None, None, None),
        Err("Whisper model path is missing. Set GREEPY_WHISPER_MODEL_PATH, pass modelPath, or select a larger local model file such as ggml-large-v3.bin.".to_string())
    );
}

#[test]
fn tiny_models_are_refused() {
    let refused =
        Err("Tiny Whisper models are disabled. Select a larger model such as ggml-large-v3.bin.".to_string());
    assert_eq!(reject_tiny_model(some("ggml-tiny.bin")), refused);
    assert_eq!(reject_tiny_model(some("ggml-base.bin")), Ok(()));
    assert_eq!(reject_tiny_model(None), Ok(()));
    assert_eq!(check_model_path("/m/ggml-tiny.en.bin"), refused);
    assert_eq!(check_model_path("/m/ggml-large-v3.bin"), Ok(()));
}

#[test]
fn language_resolution_order() {
    assert_eq!(resolve_language(some(" de "), some("fr")), "de");
    assert_eq!(resolve_language(some(" "), some("fr ")), "fr");
    assert_eq!(resolve_language(None, None), "auto");
    assert_eq!(resolve_language(some(""), some("")), "auto");
}

#[test]
fn working_directory_name() {
    assert_eq!(working_dir_name(0), "greepy-whisper-0");
    assert_eq!(working_dir_name(1712345678901), "greepy-whisper-1712345678901");
}

#[test]
fn arguments_of_the_program() {
    let args = whisper_arguments("/m/ggml-base.bin", "/t/input.wav", "auto", "/t/transcript");
    assert_eq!(
        args,
        vec![
            "-m", "/m/ggml-base.bin", "-f", "/t/input.wav", "-l", "auto", "-otxt", "-of",
            "/t/transcript"
        ]
    );
}

#[test]
fn failure_report_with_both_streams() {
    let report = failure_report("exit code 1", " bad model \n", "\tloading\n", "whisper-cli", "/m/ggml-base.bin", None);
    assert_eq!(
        report,
        "Whisper transcription failed: status: exit code 1 | stderr: bad model | stdout: loading | binary: whisper-cli | model: /m/ggml-base.bin"
    );
}

#[test]
fn failure_report_with_one_stream() {
    let only_err = failure_report("exit code 2", "boom", "  ", "w", "m", None);
    assert_eq!(
        only_err,
        "Whisper transcription failed: status: exit code 2 | stderr: boom | binary: w | model: m"
    );
    let only_out = failure_report("exit code 2", "", "said", "w", "m", None);
    assert_eq!(
        only_out,
        "Whisper transcription failed: status: exit code 2 | stdout: said | binary: w | model: m"
    );
}

#[test]
fn failure_report_without_output_and_with_hint() {
    let report = failure_report("terminated by signal", "", " \n", "w", "m", Some("try again"));
    assert_eq!(
        report,
        "Whisper transcription failed: status: terminated by signal | No process output captured. | binary: w | model: m | try again"
    );
}

#[test]
fn transcription_failure_puts_status_and_hint_together() {
    let windows = transcription_failure(Platform::Windows, Some(-1073741515), "", "", "whisper-cli.exe", "C:\\m.bin");
    assert_eq!(
        windows,
        "Whisper transcription failed: status: exit code -1073741515 (0xC0000135) | No process output captured. | binary: whisper-cli.exe | model: C:\\m.bin | Windows reported STATUS_DLL_NOT_FOUND. Bundle whisper.cpp runtime DLLs (for example: whisper.dll, ggml.dll, ggml-base.dll, ggml-cpu.dll) beside whisper-cli.exe."
    );
    let posix = transcription_failure(Platform::Posix, Some(3), "no such file", "", "whisper-cli", "/m.bin");
    assert_eq!(
        posix,
        "Whisper transcription failed: status: exit code 3 | stderr: no such file | binary: whisper-cli | model: /m.bin"
    );
    let killed = transcription_failure(Platform::Posix, None, "", "partial", "w", "m");
    assert_eq!(
        killed,
        "Whisper transcription failed: status: terminated by signal | stdout: partial | binary: w | model: m"
    );
}

#[test]
fn transcript_is_trimmed() {
    assert_eq!(clean_transcript("\n Hello there. \n"), Ok("Hello there.".to_string()));
    assert_eq!(
        clean_transcript(" \n\t"),
        Err("Transcription completed but no speech was detected.".to_string())
    );
    assert_eq!(
        clean_transcript(""),
        Err("Transcription completed but no speech was detected.".to_string())
    );
}

#[test]
fn failure_messages() {
    assert_eq!(write_failure("disk full"), "Failed to write temporary audio file: disk full");
    assert_eq!(
        launch_failure("whisper-cli", "not found"),
        "Failed to launch whisper binary 'whisper-cli': not found"
    );
    assert_eq!(read_failure("missing"), "Failed to read transcript output: missing");
    assert_eq!(
        audio_read_failure("/tmp/a.wav", "denied"),
        "Failed to read audio file '/tmp/a.wav': denied"
    );
}

#[test]
fn best_model_is_never_beaten_by_what_was_seen() {
    let entries = vec![
        file("/m/ggml-small.bin", "ggml-small.bin", 400),
        file("/m/ggml-tiny.bin", "ggml-tiny.bin", 70),
        file("/m/ggml-large-v2.bin", "ggml-large-v2.bin", 2900),
        file("/m/ggml-unknown.bin", "ggml-unknown.bin", 99999),
        file("/m/x/ggml-large-v2.bin", "GGML-LARGE-V2.BIN", 2950),
    ];
    let mut pending = Vec::new();
    let mut best = None;
    scan_for_models(&mut pending, &mut best, &entries);
    for entry in &entries {
        let name = entry.file_name.clone().unwrap().to_ascii_lowercase();
        assert!(!should_replace(model_priority(&name), entry.size, &best));
    }
    assert_eq!(best.unwrap().path, "/m/x/ggml-large-v2.bin");
}

#[test]
fn only_a_path_that_holds_the_mark_is_tiny() {
    let paths = [
        "", ".", "..", "/", "a/b/c", "/models/ggml-base.bin", "C:\\models\\ggml-large-v3.bin",
        "/models/tiny.bin", "ggml-tin/y.bin", "/GGML-TINY/../ggml-base.bin", "ggml-tiny.bin",
        "/models/GGML-Tiny.en.bin", "/ggml-tiny/ggml-base.bin", "/models/ggml-tiny.bin/",
        "/models/ggml-tiny.bin/.", "relative/ggml-tiny-q5_1.bin",
    ];
    for path in paths {
        let holds_mark = path.to_ascii_lowercase().contains("ggml-tiny");
        let tiny = is_tiny_whisper_model_path(path);
        assert!(!tiny || holds_mark, "{:?}", path);
        assert_eq!(check_model_path(path).is_err(), tiny, "{:?}", path);
        if !holds_mark {
            assert_eq!(check_model_path(path), Ok(()), "{:?}", path);
        }
    }
    assert!(is_tiny_whisper_model_path("/models/ggml-tiny.bin/"));
    assert!(!is_tiny_whisper_model_path("/GGML-TINY/../ggml-base.bin"));
}
