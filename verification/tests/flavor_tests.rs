use carbide::flavor::{
    default_flavor, dhcp_acl_rules, get_config_files, get_default_nvconfig, get_default_ovs_defaults,
    validate_proxy_string, DPUFlavor, DpfError, DpfProxyDetails, DpuFlavorConfigFiles, DpuFlavorConfigFilesOperation,
    DpuFlavorDpuMode, DpuFlavorNvconfigDevice, DpuFlavorSpec,
};
use serde_json::Value;

type JsonObject = serde_json::Map<String, Value>;

const DEFAULT_FLAVOR_NAME: &str = "dpu-flavor";

fn proxy(https_proxy: &str, no_proxy: &[&str]) -> Option<DpfProxyDetails> {
    Some(DpfProxyDetails {
        https_proxy: https_proxy.to_string(),
        no_proxy: no_proxy.iter().map(|s| s.to_string()).collect(),
    })
}

fn opt_string(m: &mut JsonObject, key: &str, v: &Option<String>) {
    if let Some(s) = v {
        m.insert(key.to_string(), Value::String(s.clone()));
    }
}

fn strings(v: &[String]) -> Value {
    Value::Array(v.iter().map(|s| Value::String(s.clone())).collect())
}

fn config_file_json(f: &DpuFlavorConfigFiles) -> Value {
    let mut m = JsonObject::new();
    if let Some(op) = f.operation {
        let text = match op {
            DpuFlavorConfigFilesOperation::Override => "override",
            DpuFlavorConfigFilesOperation::Append => "append",
        };
        m.insert("operation".to_string(), Value::String(text.to_string()));
    }
    opt_string(&mut m, "path", &f.path);
    opt_string(&mut m, "permissions", &f.permissions);
    opt_string(&mut m, "raw", &f.raw);
    Value::Object(m)
}

/// The JSON text of a spec, as the flavor CRD serializes it.
fn spec_json(spec: &DpuFlavorSpec) -> String {
    let mut m = JsonObject::new();
    if let Some(p) = &spec.bfcfg_parameters {
        m.insert("bfcfgParameters".to_string(), strings(p));
    }
    if let Some(files) = &spec.config_files {
        m.insert("configFiles".to_string(), Value::Array(files.iter().map(config_file_json).collect()));
    }
    if let Some(mode) = spec.dpu_mode {
        let text = match mode {
            DpuFlavorDpuMode::DpuMode => "dpu",
            DpuFlavorDpuMode::ZeroTrust => "zero-trust",
        };
        m.insert("dpuMode".to_string(), Value::String(text.to_string()));
    }
    if let Some(nv) = &spec.nvconfig {
        let items = nv
            .iter()
            .map(|n| {
                let mut e = JsonObject::new();
                if let Some(DpuFlavorNvconfigDevice::KopiumVariant0) = n.device {
                    e.insert("device".to_string(), Value::String("*".to_string()));
                }
                if let Some(p) = &n.parameters {
                    e.insert("parameters".to_string(), strings(p));
                }
                Value::Object(e)
            })
            .collect();
        m.insert("nvconfig".to_string(), Value::Array(items));
    }
    if let Some(ovs) = &spec.ovs {
        let mut e = JsonObject::new();
        opt_string(&mut e, "rawConfigScript", &ovs.raw_config_script);
        m.insert("ovs".to_string(), Value::Object(e));
    }
    serde_json::to_string(&Value::Object(m)).unwrap()
}

fn unique_name(flavor: &DPUFlavor, prefix: &str) -> String {
    DPUFlavor::unique_name(&spec_json(&flavor.spec), prefix)
}

#[test]
fn unique_name_has_expected_format() {
    let flavor = default_flavor("ns", &None).unwrap();
    let name = unique_name(&flavor, DEFAULT_FLAVOR_NAME);
    let (prefix, hash) = name.rsplit_once('-').expect("name contains '-'");
    assert_eq!(prefix, DEFAULT_FLAVOR_NAME);
    assert_eq!(hash.len(), 16);
    assert!(hash.chars().all(|c| c.is_ascii_hexdigit()));
}

#[test]
fn unique_name_is_deterministic() {
    let f1 = default_flavor("ns", &None).unwrap();
    let f2 = default_flavor("ns", &None).unwrap();
    assert_eq!(unique_name(&f1, DEFAULT_FLAVOR_NAME), unique_name(&f2, DEFAULT_FLAVOR_NAME));
}

#[test]
fn unique_name_changes_when_proxy_added() {
    let no_proxy = default_flavor("ns", &None).unwrap();
    let with_proxy = default_flavor("ns", &proxy("http://proxy:3128", &[])).unwrap();
    assert_ne!(unique_name(&no_proxy, DEFAULT_FLAVOR_NAME), unique_name(&with_proxy, DEFAULT_FLAVOR_NAME));
}

#[test]
fn unique_name_changes_when_no_proxy_list_changes() {
    let p1 = default_flavor("ns", &proxy("http://proxy:3128", &["10.0.0.0/8"])).unwrap();
    let p2 = default_flavor("ns", &proxy("http://proxy:3128", &["10.0.0.0/8", "localhost"])).unwrap();
    assert_ne!(unique_name(&p1, DEFAULT_FLAVOR_NAME), unique_name(&p2, DEFAULT_FLAVOR_NAME));
}

#[test]
fn unique_name_stable_regardless_of_no_proxy_order() {
    let p1 = default_flavor("ns", &proxy("http://proxy:3128", &["localhost", "10.0.0.0/8"])).unwrap();
    let p2 = default_flavor("ns", &proxy("http://proxy:3128", &["10.0.0.0/8", "localhost"])).unwrap();
    assert_eq!(
        unique_name(&p1, DEFAULT_FLAVOR_NAME),
        unique_name(&p2, DEFAULT_FLAVOR_NAME),
        "no_proxy order must not affect the flavor name"
    );
}

#[test]
fn unique_name_stable_with_duplicate_no_proxy_entries() {
    let p1 = default_flavor("ns", &proxy("http://proxy:3128", &["10.0.0.0/8"])).unwrap();
    let p2 = default_flavor("ns", &proxy("http://proxy:3128", &["10.0.0.0/8", "10.0.0.0/8"])).unwrap();
    assert_eq!(
        unique_name(&p1, DEFAULT_FLAVOR_NAME),
        unique_name(&p2, DEFAULT_FLAVOR_NAME),
        "duplicate no_proxy entries must not affect the flavor name"
    );
}

#[test]
fn proxy_config_file_no_proxy_entries_are_sorted_and_deduped() {
    let flavor =
        default_flavor("ns", &proxy("http://proxy:3128", &["localhost", "10.0.0.0/8", "10.0.0.0/8"])).unwrap();
    let files = flavor.spec.config_files.unwrap();
    let raw = files.last().unwrap().raw.as_deref().unwrap();
    assert!(raw.contains("NO_PROXY=10.0.0.0/8,localhost"), "no_proxy must be sorted and deduped; got: {raw}");
}

#[test]
fn default_flavor_metadata_name_is_none() {
    let flavor = default_flavor("test-ns", &None).unwrap();
    assert!(flavor.metadata.name.is_none(), "name must be set by the caller via unique_name()");
}

#[test]
fn default_flavor_namespace_is_set() {
    let flavor = default_flavor("my-ns", &None).unwrap();
    assert_eq!(flavor.metadata.namespace.as_deref(), Some("my-ns"));
}

#[test]
fn no_proxy_yields_five_config_files() {
    let flavor = default_flavor("ns", &None).unwrap();
    let files = flavor.spec.config_files.unwrap();
    assert_eq!(files.len(), 5);
}

#[test]
fn proxy_appends_sixth_config_file() {
    let flavor = default_flavor("ns", &proxy("http://proxy:3128", &[])).unwrap();
    let files = flavor.spec.config_files.unwrap();
    assert_eq!(files.len(), 6);
}

#[test]
fn proxy_config_file_has_correct_path() {
    let flavor = default_flavor("ns", &proxy("http://proxy:3128", &[])).unwrap();
    let files = flavor.spec.config_files.unwrap();
    let proxy_file = files.last().unwrap();
    assert_eq!(proxy_file.path.as_deref(), Some("/etc/systemd/system/containerd.service.d/socks-proxy.conf"));
}

#[test]
fn proxy_config_file_contains_https_proxy_env() {
    let flavor = default_flavor("ns", &proxy("http://proxy.example.com:3128", &[])).unwrap();
    let files = flavor.spec.config_files.unwrap();
    let raw = files.last().unwrap().raw.as_deref().unwrap();
    assert!(raw.contains("HTTPS_PROXY=http://proxy.example.com:3128"));
    assert!(raw.contains("https_proxy=http://proxy.example.com:3128"));
}

#[test]
fn proxy_config_file_omits_no_proxy_when_empty() {
    let flavor = default_flavor("ns", &proxy("http://proxy:3128", &[])).unwrap();
    let files = flavor.spec.config_files.unwrap();
    let raw = files.last().unwrap().raw.as_deref().unwrap();
    assert!(!raw.contains("NO_PROXY"));
    assert!(!raw.contains("no_proxy"));
}

#[test]
fn proxy_config_file_includes_no_proxy_when_set() {
    let flavor = default_flavor("ns", &proxy("http://proxy:3128", &["10.0.0.0/8", "localhost"])).unwrap();
    let files = flavor.spec.config_files.unwrap();
    let raw = files.last().unwrap().raw.as_deref().unwrap();
    assert!(raw.contains("NO_PROXY=10.0.0.0/8,localhost"));
    assert!(raw.contains("no_proxy=10.0.0.0/8,localhost"));
}

#[test]
fn proxy_config_file_has_override_operation() {
    let flavor = default_flavor("ns", &proxy("http://proxy:3128", &[])).unwrap();
    let files = flavor.spec.config_files.unwrap();
    let proxy_file = files.last().unwrap();
    assert!(matches!(proxy_file.operation, Some(DpuFlavorConfigFilesOperation::Override)));
    assert_eq!(proxy_file.permissions.as_deref(), Some("0644"));
}

#[test]
fn proxy_rejected_when_https_proxy_contains_quote() {
    let err = default_flavor("ns", &proxy("http://proxy:3128/\"evil", &[])).unwrap_err();
    assert!(matches!(err, DpfError::ConfigError(_)), "expected ConfigError, got: {err:?}");
}

#[test]
fn proxy_rejected_when_https_proxy_contains_newline() {
    let err = default_flavor("ns", &proxy("http://proxy:3128\nEvil: injected", &[])).unwrap_err();
    assert!(matches!(err, DpfError::ConfigError(_)));
}

#[test]
fn proxy_rejected_when_no_proxy_entry_contains_control_char() {
    let err = default_flavor("ns", &proxy("http://proxy:3128", &["10.0.0.0/8\x01bad"])).unwrap_err();
    assert!(matches!(err, DpfError::ConfigError(_)));
}

#[test]
fn proxy_accepted_with_typical_values() {
    default_flavor(
        "ns",
        &proxy("http://proxy.corp.example.com:3128", &["10.0.0.0/8", "localhost", ".svc.cluster.local"]),
    )
    .unwrap();
}

#[test]
fn unique_name_hashes_the_serialized_spec() {
    // SHA-256 of the empty string starts e3b0c44298fc1c14.
    assert_eq!(DPUFlavor::unique_name("", "p"), "p-e3b0c44298fc1c14");
    // SHA-256 of "abc" starts ba7816bf8f01cfea.
    assert_eq!(DPUFlavor::unique_name("abc", DEFAULT_FLAVOR_NAME), "dpu-flavor-ba7816bf8f01cfea");
}

#[test]
fn validate_proxy_string_accepts_plain_and_rejects_control_and_quote() {
    assert!(validate_proxy_string("http://proxy:3128", "https_proxy").is_ok());
    assert!(validate_proxy_string("", "https_proxy").is_ok());
    assert!(matches!(validate_proxy_string("a\"b", "https_proxy"), Err(DpfError::ConfigError(_))));
    assert!(matches!(validate_proxy_string("a\tb", "no_proxy"), Err(DpfError::ConfigError(_))));
    assert!(matches!(validate_proxy_string("a\x7fb", "no_proxy"), Err(DpfError::ConfigError(_))));
}

#[test]
fn config_files_without_proxy_match_the_default_flavor() {
    let files = get_config_files(&None).unwrap();
    let flavor = default_flavor("ns", &None).unwrap();
    assert_eq!(Some(files), flavor.spec.config_files);
}

#[test]
fn default_scripts_are_well_formed() {
    let ovs = get_default_ovs_defaults();
    assert!(ovs.starts_with("_ovs-vsctl() {\n"));
    assert!(ovs.ends_with('\n'));
    let acl = dhcp_acl_rules();
    assert!(acl.contains("pf0hpf_if"));
    assert!(acl.contains("pf0vf0_if"));
    let nv = get_default_nvconfig();
    assert_eq!(nv.device, Some(DpuFlavorNvconfigDevice::KopiumVariant0));
    assert!(nv.parameters.map(|p| !p.is_empty()).unwrap_or(false));
}
