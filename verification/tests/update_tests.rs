use oktofetch::archive::Step;
use oktofetch::binary::ExtractedFile;
use oktofetch::config::{Config, Tool};
use oktofetch::error::OktofetchError;
use oktofetch::github::{check_release_status, Asset, Release};
use oktofetch::update::{failure_line, Action, Batch, Event, Stage, Update};
use std::io::Write;

fn config_with(tools: &[(&str, &str, Option<&str>)]) -> Config {
    let mut config = Config::new("/home/user/.local/bin".to_string());
    for (name, repo, version) in tools {
        config
            .add_tool(Tool {
                name: name.to_string(),
                repo: repo.to_string(),
                binary_name: None,
                asset_pattern: None,
                version: version.map(|v| v.to_string()),
            })
            .unwrap();
    }
    config
}

fn release(tag: &str, names: &[&str]) -> Release {
    Release {
        tag_name: tag.to_string(),
        name: format!("Release {}", tag),
        assets: names
            .iter()
            .map(|n| Asset {
                name: n.to_string(),
                browser_download_url: format!("https://example.com/download/{}", n),
                size: 12345,
            })
            .collect(),
    }
}

fn tar_gz_with(name: &str, content: &[u8], mode: u32) -> Vec<u8> {
    let mut tar = tar::Builder::new(Vec::new());
    let mut header = tar::Header::new_gnu();
    header.set_size(content.len() as u64);
    header.set_mode(mode);
    header.set_cksum();
    tar.append_data(&mut header, name, content).unwrap();
    let tar = tar.into_inner().unwrap();
    let mut enc = flate2::write::GzEncoder::new(Vec::new(), flate2::Compression::default());
    enc.write_all(&tar).unwrap();
    enc.finish().unwrap()
}

fn start(config: &Config, name: &str, force: bool) -> Update {
    let (update, action) = Update::start(config, name, force, "linux", "x86_64").unwrap();
    assert!(matches!(update.stage, Stage::Resolving));
    assert!(matches!(action, Action::FetchRelease { .. }));
    update
}

#[test]
fn release_is_installed_from_end_to_end() {
    let mut config = config_with(&[("acme-cli", "acme/cli", None)]);

    let (update, action) = Update::start(&config, "acme-cli", false, "linux", "x86_64").unwrap();
    assert!(matches!(&action, Action::FetchRelease { repo } if repo == "acme/cli"));

    let latest = release(
        "v1.2.0",
        &["acme-cli-linux-x86_64.tar.gz", "acme-cli-darwin-arm64.tar.gz"],
    );
    let (update, action) = update.step(Event::ReleaseFetched { release: latest }, &mut config);
    assert!(matches!(update.stage, Stage::HasRelease { .. }));
    assert!(
        matches!(&action, Action::CheckBinary { path } if path == "/home/user/.local/bin/acme-cli")
    );

    let (update, action) = update.step(Event::BinaryChecked { exists: false }, &mut config);
    assert!(
        matches!(&update.stage, Stage::Downloading { tag, asset }
            if tag == "v1.2.0" && asset.name == "acme-cli-linux-x86_64.tar.gz")
    );
    assert!(matches!(&action, Action::Download { url, file_name }
        if url == "https://example.com/download/acme-cli-linux-x86_64.tar.gz"
            && file_name == "acme-cli-linux-x86_64.tar.gz"));

    let data = tar_gz_with("acme-cli", b"\x7fELF binary", 0o755);
    let (update, action) = update.step(Event::Downloaded { data }, &mut config);
    assert!(matches!(&update.stage, Stage::Extracted { tag } if tag == "v1.2.0"));
    let plan = match action {
        Action::Materialize { plan } => plan,
        other => panic!("expected the extraction, got {:?}", other),
    };
    assert_eq!(plan.paths, vec!["acme-cli".to_string()]);
    assert_eq!(plan.steps.len(), 1);
    assert!(
        matches!(&plan.steps[0], Step::Unpack { index: 0, target } if target == b"acme-cli")
    );

    let files = vec![ExtractedFile {
        path: "acme-cli".to_string(),
        is_file: true,
        mode: 0o100755,
    }];
    let (update, action) = update.step(
        Event::Unpacked {
            files,
            install_dir_exists: true,
        },
        &mut config,
    );
    assert!(matches!(&update.stage, Stage::Located { tag } if tag == "v1.2.0"));
    match action {
        Action::Install { source, install } => {
            assert_eq!(source, "acme-cli");
            assert_eq!(install.dest, "/home/user/.local/bin/acme-cli");
            assert_eq!(install.mode, 0o755);
            assert_ne!(install.mode & 0o111, 0);
            assert!(!install.create_dir);
        }
        other => panic!("expected the installation, got {:?}", other),
    }
    assert_eq!(config.get_tool("acme-cli").unwrap().version, None);

    let (update, action) = update.step(Event::Installed, &mut config);
    assert!(matches!(&update.stage, Stage::Saving { previous: None }));
    assert!(matches!(action, Action::Save));
    assert_eq!(
        config.get_tool("acme-cli").unwrap().version,
        Some("v1.2.0".to_string())
    );

    let (update, action) = update.step(Event::Saved, &mut config);
    assert!(matches!(update.stage, Stage::Installed));
    assert!(matches!(action, Action::Finish));
    assert_eq!(
        config.get_tool("acme-cli").unwrap().version,
        Some("v1.2.0".to_string())
    );
}

fn installed(config: &mut Config, name: &str, tag: &str) -> Update {
    let update = start(config, name, true);
    let latest = release(tag, &["tool-linux-x86_64.tar.gz"]);
    let (update, _) = update.step(Event::ReleaseFetched { release: latest }, config);
    let (update, _) = update.step(Event::BinaryChecked { exists: true }, config);
    let data = tar_gz_with(name, b"\x7fELF", 0o755);
    let (update, _) = update.step(Event::Downloaded { data }, config);
    let files = vec![ExtractedFile {
        path: name.to_string(),
        is_file: true,
        mode: 0o100755,
    }];
    let (update, _) = update.step(
        Event::Unpacked {
            files,
            install_dir_exists: true,
        },
        config,
    );
    let (update, action) = update.step(Event::Installed, config);
    assert!(matches!(action, Action::Save));
    update
}

#[test]
fn failed_save_puts_the_recorded_version_back() {
    for recorded in [Some("v1.0.0"), None] {
        let mut config = config_with(&[
            ("other", "acme/other", Some("v3")),
            ("acme-cli", "acme/cli", recorded),
        ]);
        let update = installed(&mut config, "acme-cli", "v1.2.0");
        assert!(matches!(&update.stage, Stage::Saving { previous }
            if previous.as_deref() == recorded));
        assert_eq!(
            config.get_tool("acme-cli").unwrap().version,
            Some("v1.2.0".to_string())
        );

        let error = OktofetchError::from(std::io::Error::new(
            std::io::ErrorKind::PermissionDenied,
            "read-only",
        ));
        let (update, action) = update.step(Event::Failed { error }, &mut config);
        assert!(matches!(update.stage, Stage::Failed { code: 10 }));
        assert!(
            matches!(&action, Action::Fail { error } if error.message() == "IO error: read-only")
        );
        assert_eq!(
            config.get_tool("acme-cli").unwrap().version,
            recorded.map(|v| v.to_string())
        );
        assert_eq!(
            config.get_tool("other").unwrap().version,
            Some("v3".to_string())
        );
        assert_eq!(config.tools.len(), 2);
    }
}

#[test]
fn version_is_put_back_when_saving_is_not_reported() {
    let mut config = config_with(&[("acme-cli", "acme/cli", Some("v1.0.0"))]);
    let update = installed(&mut config, "acme-cli", "v1.2.0");
    let (update, action) = update.step(Event::Installed, &mut config);
    assert!(matches!(update.stage, Stage::Failed { code: 6 }));
    assert!(matches!(&action, Action::Fail { error } if error.message() == "Unexpected event"));
    assert_eq!(
        config.get_tool("acme-cli").unwrap().version,
        Some("v1.0.0".to_string())
    );
}

#[test]
fn up_to_date_tool_is_left_alone() {
    let mut config = config_with(&[("acme-cli", "acme/cli", Some("v1.2.0"))]);
    for _ in 0..2 {
        let update = start(&config, "acme-cli", false);
        let latest = release("v1.2.0", &["acme-cli-linux-x86_64.tar.gz"]);
        let (update, _) = update.step(Event::ReleaseFetched { release: latest }, &mut config);
        let (update, action) = update.step(Event::BinaryChecked { exists: true }, &mut config);
        assert!(matches!(update.stage, Stage::UpToDate));
        assert!(matches!(action, Action::Finish));
        assert_eq!(
            config.get_tool("acme-cli").unwrap().version,
            Some("v1.2.0".to_string())
        );
        let (update, action) = update.step(Event::Installed, &mut config);
        assert!(matches!(update.stage, Stage::UpToDate));
        assert!(matches!(action, Action::Finish));
        assert_eq!(
            config.get_tool("acme-cli").unwrap().version,
            Some("v1.2.0".to_string())
        );
    }
}

#[test]
fn update_goes_on_where_it_is_forced_or_the_binary_is_gone_or_the_tag_is_new() {
    for (force, exists, recorded, tag) in [
        (true, true, Some("v1.2.0"), "v1.2.0"),
        (false, false, Some("v1.2.0"), "v1.2.0"),
        (false, true, Some("v1.1.0"), "v1.2.0"),
        (false, true, None, "v1.2.0"),
    ] {
        let mut config = config_with(&[("acme-cli", "acme/cli", recorded)]);
        let update = start(&config, "acme-cli", force);
        let latest = release(tag, &["acme-cli-linux-x86_64.tar.gz"]);
        let (update, _) = update.step(Event::ReleaseFetched { release: latest }, &mut config);
        let (update, action) = update.step(Event::BinaryChecked { exists }, &mut config);
        assert!(matches!(update.stage, Stage::Downloading { .. }));
        assert!(matches!(action, Action::Download { .. }));
    }
}

#[test]
fn binary_name_is_used_where_it_is_set() {
    let mut config = Config::new("/opt/bin".to_string());
    config
        .add_tool(Tool {
            name: "k9s-tool".to_string(),
            repo: "derailed/k9s".to_string(),
            binary_name: Some("k9s".to_string()),
            asset_pattern: Some("Linux_amd64".to_string()),
            version: None,
        })
        .unwrap();
    let update = start(&config, "k9s-tool", false);
    assert_eq!(update.binary_name(), "k9s");
    let latest = release("v0.32.5", &["k9s_Darwin_amd64.tar.gz", "k9s_Linux_amd64.tar.gz"]);
    let (update, action) = update.step(Event::ReleaseFetched { release: latest }, &mut config);
    assert!(matches!(&action, Action::CheckBinary { path } if path == "/opt/bin/k9s"));
    let (update, action) = update.step(Event::BinaryChecked { exists: false }, &mut config);
    assert!(matches!(&action, Action::Download { file_name, .. } if file_name == "k9s_Linux_amd64.tar.gz"));
    let data = tar_gz_with("k9s", b"\x7fELF", 0o755);
    let (update, _) = update.step(Event::Downloaded { data }, &mut config);
    let files = vec![
        ExtractedFile {
            path: "LICENSE".to_string(),
            is_file: true,
            mode: 0o100644,
        },
        ExtractedFile {
            path: "k9s".to_string(),
            is_file: true,
            mode: 0o100755,
        },
    ];
    let (_, action) = update.step(
        Event::Unpacked {
            files,
            install_dir_exists: false,
        },
        &mut config,
    );
    match action {
        Action::Install { source, install } => {
            assert_eq!(source, "k9s");
            assert_eq!(install.dest, "/opt/bin/k9s");
            assert!(install.create_dir);
        }
        other => panic!("expected the installation, got {:?}", other),
    }
}

#[test]
fn failure_leaves_the_recorded_version() {
    let mut config = config_with(&[("acme-cli", "acme/cli", Some("v1.0.0"))]);

    let update = start(&config, "acme-cli", false);
    let latest = release("v1.2.0", &["acme-cli-darwin-arm64.tar.gz"]);
    let (update, _) = update.step(Event::ReleaseFetched { release: latest }, &mut config);
    let (update, action) = update.step(Event::BinaryChecked { exists: true }, &mut config);
    assert!(matches!(update.stage, Stage::Failed { code: 3 }));
    assert!(
        matches!(&action, Action::Fail { error } if error.message() == "No suitable release for Linux x86_64")
    );

    let update = start(&config, "acme-cli", false);
    let latest = release("v1.2.0", &["acme-cli-linux-x86_64.tar.gz"]);
    let (update, _) = update.step(Event::ReleaseFetched { release: latest }, &mut config);
    let (update, _) = update.step(Event::BinaryChecked { exists: true }, &mut config);
    let (update, action) = update.step(
        Event::Downloaded {
            data: b"no tarball".to_vec(),
        },
        &mut config,
    );
    assert!(matches!(update.stage, Stage::Failed { code: 10 }));
    assert!(matches!(&action, Action::Fail { error } if error.exit_code() == 10));

    let update = start(&config, "acme-cli", false);
    let latest = release("v1.2.0", &["acme-cli-linux-x86_64.tar.gz"]);
    let (update, _) = update.step(Event::ReleaseFetched { release: latest }, &mut config);
    let (update, _) = update.step(Event::BinaryChecked { exists: true }, &mut config);
    let data = tar_gz_with("README", b"read me", 0o644);
    let (update, _) = update.step(Event::Downloaded { data }, &mut config);
    let files = vec![ExtractedFile {
        path: "README".to_string(),
        is_file: true,
        mode: 0o100644,
    }];
    let (update, action) = update.step(
        Event::Unpacked {
            files,
            install_dir_exists: true,
        },
        &mut config,
    );
    assert!(matches!(update.stage, Stage::Failed { code: 9 }));
    assert!(matches!(&action, Action::Fail { error } if error.exit_code() == 9));

    let update = start(&config, "acme-cli", false);
    let latest = release("v1.2.0", &["acme-cli-linux-x86_64.tar.gz"]);
    let (update, _) = update.step(Event::ReleaseFetched { release: latest }, &mut config);
    let (update, _) = update.step(Event::BinaryChecked { exists: true }, &mut config);
    let (update, action) = update.step(
        Event::Failed {
            error: OktofetchError::DownloadFailed("Download failed with status: 503".to_string()),
        },
        &mut config,
    );
    assert!(matches!(update.stage, Stage::Failed { code: 7 }));
    assert!(matches!(&action, Action::Fail { error }
        if error.message() == "Download failed: Download failed with status: 503"));

    assert_eq!(
        config.get_tool("acme-cli").unwrap().version,
        Some("v1.0.0".to_string())
    );
}

#[test]
fn event_that_does_not_fit_fails_the_update() {
    let mut config = config_with(&[("acme-cli", "acme/cli", Some("v1.0.0"))]);
    let update = start(&config, "acme-cli", false);
    let (update, action) = update.step(Event::Installed, &mut config);
    assert!(matches!(update.stage, Stage::Failed { code: 6 }));
    assert!(matches!(&action, Action::Fail { error } if error.message() == "Unexpected event"));
    assert_eq!(
        config.get_tool("acme-cli").unwrap().version,
        Some("v1.0.0".to_string())
    );
    let (update, action) = update.step(Event::BinaryChecked { exists: true }, &mut config);
    assert!(matches!(update.stage, Stage::Failed { code: 6 }));
    assert!(matches!(action, Action::Finish));
}

#[test]
fn tool_that_left_the_registry_is_not_recorded() {
    let mut config = config_with(&[("acme-cli", "acme/cli", None)]);
    let update = start(&config, "acme-cli", false);
    let latest = release("v1.2.0", &["acme-cli-linux-x86_64.tar.gz"]);
    let (update, _) = update.step(Event::ReleaseFetched { release: latest }, &mut config);
    let (update, _) = update.step(Event::BinaryChecked { exists: false }, &mut config);
    let data = tar_gz_with("acme-cli", b"\x7fELF", 0o755);
    let (update, _) = update.step(Event::Downloaded { data }, &mut config);
    let files = vec![ExtractedFile {
        path: "acme-cli".to_string(),
        is_file: true,
        mode: 0o100755,
    }];
    let (update, _) = update.step(
        Event::Unpacked {
            files,
            install_dir_exists: true,
        },
        &mut config,
    );
    config.remove_tool("acme-cli").unwrap();
    let (update, action) = update.step(Event::Installed, &mut config);
    assert!(matches!(update.stage, Stage::Failed { code: 1 }));
    assert!(
        matches!(&action, Action::Fail { error } if error.message() == "Tool not found: acme-cli")
    );
    assert!(config.tools.is_empty());
}

#[test]
fn update_does_not_start_for_an_unknown_tool_or_another_platform() {
    let config = config_with(&[("acme-cli", "acme/cli", None)]);
    let err = Update::start(&config, "other", false, "linux", "x86_64").unwrap_err();
    assert_eq!(err.message(), "Tool not found: other");
    assert_eq!(err.exit_code(), 1);
    let err = Update::start(&config, "acme-cli", false, "macos", "aarch64").unwrap_err();
    assert_eq!(err.message(), "Unsupported OS: macos");
    let err = Update::start(&config, "acme-cli", false, "linux", "aarch64").unwrap_err();
    assert_eq!(err.message(), "Unsupported arch: aarch64");
    let err = Update::start(&config, "other", false, "macos", "aarch64").unwrap_err();
    assert_eq!(err.message(), "Tool not found: other");
}

fn run(config: &mut Config, name: &str, fetched: Result<Release, OktofetchError>) -> Result<(), OktofetchError> {
    let (update, _) = Update::start(config, name, false, "linux", "x86_64")?;
    let event = match fetched {
        Ok(release) => Event::ReleaseFetched { release },
        Err(error) => Event::Failed { error },
    };
    let (update, action) = update.step(event, config);
    if let Action::Fail { error } = action {
        return Err(error);
    }
    let (update, action) = update.step(Event::BinaryChecked { exists: false }, config);
    if let Action::Fail { error } = action {
        return Err(error);
    }
    let data = tar_gz_with(name, b"\x7fELF", 0o755);
    let (update, action) = update.step(Event::Downloaded { data }, config);
    if let Action::Fail { error } = action {
        return Err(error);
    }
    let files = vec![ExtractedFile {
        path: name.to_string(),
        is_file: true,
        mode: 0o100755,
    }];
    let (update, action) = update.step(
        Event::Unpacked {
            files,
            install_dir_exists: true,
        },
        config,
    );
    if let Action::Fail { error } = action {
        return Err(error);
    }
    let (update, action) = update.step(Event::Installed, config);
    match action {
        Action::Save => {}
        Action::Fail { error } => return Err(error),
        other => panic!("an installed update is saved, got {:?}", other),
    }
    let (update, action) = update.step(Event::Saved, config);
    assert!(matches!(update.stage, Stage::Installed));
    assert!(matches!(action, Action::Finish));
    Ok(())
}

#[test]
fn batch_goes_on_after_a_failure() {
    let mut config = config_with(&[
        ("one", "acme/one", None),
        ("two", "acme/two", Some("v0.1.0")),
        ("three", "acme/three", None),
    ]);
    let mut batch = Batch::new(&config);
    let mut failures = Vec::new();
    let mut seen = Vec::new();
    loop {
        let name = match batch.next_tool() {
            Some(name) => name.clone(),
            None => break,
        };
        seen.push(name.clone());
        let fetched = if name == "two" {
            check_release_status(404, "404 Not Found", "acme/two")
                .map(|_| release("v9", &[]))
        } else {
            Ok(release("v1.0.0", &["tool-linux-x86_64.tar.gz"]))
        };
        let outcome = run(&mut config, &name, fetched);
        if let Err(e) = &outcome {
            failures.push(failure_line(&name, e));
        }
        batch = batch.record(outcome.is_ok());
    }
    assert_eq!(seen, vec!["one", "two", "three"]);
    assert_eq!(
        failures,
        vec!["Failed to update two: Repository not found: acme/two".to_string()]
    );
    assert_eq!(batch.counts(), (2, 1));
    assert_eq!(batch.summary(), "\nSummary: 2 updated, 1 failed");
    assert_eq!(config.get_tool("one").unwrap().version, Some("v1.0.0".to_string()));
    assert_eq!(config.get_tool("two").unwrap().version, Some("v0.1.0".to_string()));
    assert_eq!(config.get_tool("three").unwrap().version, Some("v1.0.0".to_string()));
}

#[test]
fn batch_counts_no_more_than_its_tools() {
    let config = config_with(&[("one", "acme/one", None)]);
    let batch = Batch::new(&config);
    assert_eq!(batch.counts(), (0, 0));
    assert_eq!(batch.next_tool().map(|s| s.as_str()), Some("one"));
    let batch = batch.record(false);
    assert_eq!(batch.counts(), (0, 1));
    assert!(batch.next_tool().is_none());
    let batch = batch.record(true);
    assert_eq!(batch.counts(), (0, 1));
    assert_eq!(batch.summary(), "\nSummary: 0 updated, 1 failed");

    let empty = Batch::new(&Config::new("/bin".to_string()));
    assert!(empty.next_tool().is_none());
    assert_eq!(empty.summary(), "\nSummary: 0 updated, 0 failed");
}
