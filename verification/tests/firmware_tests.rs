use std::path::Path;

use carbide::firmware::{
    firmware_cache_filename, resolve_files_firmware_artifact, FirmwareEntry, FirmwareFileArtifact,
    ResolvedFirmwareArtifactSource,
};

fn firmware_with_files(files: Vec<FirmwareFileArtifact>) -> FirmwareEntry {
    FirmwareEntry { version: "1.0".to_string(), files }
}

#[test]
fn resolve_files_firmware_artifact_uses_url_as_remote_source() {
    let firmware_cache_directory = "/mnt/persistence/fw/download-cache";
    let firmware = firmware_with_files(vec![FirmwareFileArtifact {
        filename: None,
        url: Some("https://firmware.example.invalid/path/fw.bin".to_string()),
        sha256: "abc123".to_string(),
    }]);

    let artifact = resolve_files_firmware_artifact(firmware_cache_directory, &firmware, 0).unwrap().unwrap();

    assert!(Path::new(&artifact.local_path).starts_with(firmware_cache_directory));
    assert_eq!(Path::new(&artifact.local_path).file_name().unwrap(), "fw.bin");
    assert_eq!(
        artifact.source,
        ResolvedFirmwareArtifactSource::Remote {
            url: "https://firmware.example.invalid/path/fw.bin".to_string(),
            sha256: "abc123".to_string(),
        }
    );
}

#[test]
fn resolve_files_firmware_artifact_uses_filename_as_local_source() {
    let firmware = firmware_with_files(vec![FirmwareFileArtifact {
        filename: Some("/opt/carbide/firmware/fw.bin".to_string()),
        url: None,
        sha256: "abc123".to_string(),
    }]);

    let artifact = resolve_files_firmware_artifact("/cache", &firmware, 0).unwrap().unwrap();

    assert_eq!(artifact.local_path, "/opt/carbide/firmware/fw.bin".to_string());
    assert_eq!(artifact.source, ResolvedFirmwareArtifactSource::Local);
}

#[test]
fn resolve_files_firmware_artifact_gives_url_precedence_over_filename() {
    let firmware_cache_directory = "/mnt/persistence/fw/download-cache";
    let firmware = firmware_with_files(vec![FirmwareFileArtifact {
        filename: Some("/opt/carbide/firmware/local.bin".to_string()),
        url: Some("https://firmware.example.invalid/remote.bin".to_string()),
        sha256: "abc123".to_string(),
    }]);

    let artifact = resolve_files_firmware_artifact(firmware_cache_directory, &firmware, 0).unwrap().unwrap();

    assert!(Path::new(&artifact.local_path).starts_with(firmware_cache_directory));
    assert_eq!(Path::new(&artifact.local_path).file_name().unwrap(), "remote.bin");
    assert_eq!(
        artifact.source,
        ResolvedFirmwareArtifactSource::Remote {
            url: "https://firmware.example.invalid/remote.bin".to_string(),
            sha256: "abc123".to_string(),
        }
    );
}

#[test]
fn resolve_files_firmware_artifact_returns_none_without_files() {
    let firmware = FirmwareEntry { version: "1.0".to_string(), files: vec![] };

    let artifact = resolve_files_firmware_artifact("/cache", &firmware, 0).unwrap();

    assert_eq!(artifact, None);
}

#[test]
fn resolve_files_firmware_artifact_rejects_url_without_filename() {
    let firmware = firmware_with_files(vec![FirmwareFileArtifact {
        filename: None,
        url: Some("https://firmware.example.invalid/".to_string()),
        sha256: "abc123".to_string(),
    }]);

    let error = resolve_files_firmware_artifact("/cache", &firmware, 0).unwrap_err();

    assert!(error.contains("URL does not include a filename"));
}

#[test]
fn resolve_reports_missing_index_and_missing_sources() {
    let firmware = firmware_with_files(vec![FirmwareFileArtifact {
        filename: Some("  ".to_string()),
        url: Some("".to_string()),
        sha256: "abc123".to_string(),
    }]);
    let missing = resolve_files_firmware_artifact("/cache", &firmware, 3).unwrap_err();
    assert_eq!(missing, "firmware version 1.0 has no files[] artifact at index 3");
    let blank = resolve_files_firmware_artifact("/cache", &firmware, 0).unwrap_err();
    assert_eq!(blank, "firmware version 1.0 files[] artifact at index 0 has no filename or URL");
}

#[test]
fn resolve_trims_the_url_and_filename() {
    let firmware = firmware_with_files(vec![FirmwareFileArtifact {
        filename: Some(" /opt/fw.bin ".to_string()),
        url: None,
        sha256: "abc123".to_string(),
    }]);
    let artifact = resolve_files_firmware_artifact("/cache", &firmware, 0).unwrap().unwrap();
    assert_eq!(artifact.local_path, "/opt/fw.bin");
}

#[test]
fn cache_filename_takes_the_last_url_segment() {
    let url: Vec<char> = "https://h/a/b/fw.bin".chars().collect();
    assert_eq!(firmware_cache_filename("/cache", &url), Some("/cache/fw.bin".to_string()));
    let bare: Vec<char> = "https://h/a/".chars().collect();
    assert_eq!(firmware_cache_filename("/cache", &bare), None);
}
