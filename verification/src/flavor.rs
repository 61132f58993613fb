//! The default DPUFlavor used to provision DPUs under HBN: its fixed config
//! files, the optional containerd proxy drop-in, and the content-derived name.

use vstd::prelude::*;
use sha2::{Digest, Sha256};
use crate::text::{
    chars_of, dec_u8, hex_digit_lower, extend_chars, extend_vec, insert_sorted_unique, join_vec, join_with,
    lemma_sorted_of_set, push_dec_u8, sorted_of_set, strictly_sorted, string_of, trim_vec,
    trim_ws, views,
};

verus! {

pub const DEFAULT_FLAVOR_NAME: &'static str = "dpu-flavor";

pub const ACLTOOL_CONF_PATH: &'static str = "/var/lib/hbn/etc/supervisor/conf.d/acltool.conf";

pub const ACLTOOL_CONF: &'static str = "[program: cl-acltool]\ncommand = bash -c \"sleep 5 && /usr/cumulus/bin/cl-acltool -i\"\nstartsecs = 0\nautorestart = false\npriority = 200\n";

pub const DHCP_RULES_PATH: &'static str = "/var/lib/hbn/etc/cumulus/acl/policy.d/10-dhcp.rules";

pub const MLNX_BF_CONF_PATH: &'static str = "/etc/mellanox/mlnx-bf.conf";

pub const MLNX_BF_CONF: &'static str = "ALLOW_SHARED_RQ=\"no\"\nIPSEC_FULL_OFFLOAD=\"no\"\nENABLE_ESWITCH_MULTIPORT=\"yes\"\n";

pub const MLNX_OVS_CONF_PATH: &'static str = "/etc/mellanox/mlnx-ovs.conf";

pub const MLNX_OVS_CONF: &'static str = "CREATE_OVS_BRIDGES=\"no\"\nOVS_DOCA=\"yes\"\n";

pub const MLNX_SF_CONF_PATH: &'static str = "/etc/mellanox/mlnx-sf.conf";

pub const PROXY_DROP_IN_PATH: &'static str = "/etc/systemd/system/containerd.service.d/socks-proxy.conf";

pub const CONFIG_FILE_PERMISSIONS: &'static str = "0644";

pub const OVS_DEFAULTS: &'static str = "_ovs-vsctl() {\n   ovs-vsctl --no-wait --timeout 15 \"$@\"\n }\n_ovs-vsctl set Open_vSwitch . other_config:doca-init=true\n_ovs-vsctl set Open_vSwitch . other_config:dpdk-max-memzones=50000\n_ovs-vsctl set Open_vSwitch . other_config:hw-offload=true\n_ovs-vsctl set Open_vSwitch . other_config:pmd-quiet-idle=true\n_ovs-vsctl set Open_vSwitch . other_config:max-idle=20000\n_ovs-vsctl set Open_vSwitch . other_config:max-revalidator=5000\n_ovs-vsctl set Open_vSwitch . other_config:ctl-pipe-size=1024\n_ovs-vsctl --if-exists del-br ovsbr1\n_ovs-vsctl --if-exists del-br ovsbr2\n_ovs-vsctl --may-exist add-br br-sfc\n_ovs-vsctl set bridge br-sfc datapath_type=netdev\n_ovs-vsctl set bridge br-sfc fail_mode=secure\n_ovs-vsctl --may-exist add-port br-sfc p0\n_ovs-vsctl set Interface p0 type=dpdk\n_ovs-vsctl set Interface p0 mtu_request=9216\n_ovs-vsctl set Port p0 external_ids:dpf-type=physical\n";

pub const DHCP_RULES_HEADER: &'static str = "[iptables]\n";

pub const DHCP_RULE_HEAD: &'static str = "-t filter -A FORWARD -p udp -d 255.255.255.255 --dport 67 -m physdev --physdev-in ";

pub const DHCP_RULE_TAIL: &'static str = " -m comment --comment 'offload:0' -j DROP\n";

pub const HOST_PF_IFACE: &'static str = "pf0hpf_if";

pub const VF_IFACE_PREFIX: &'static str = "pf0vf";

pub const VF_IFACE_SUFFIX: &'static str = "_if";

/// Kubernetes object metadata of the flavor.
#[derive(Clone, Debug, PartialEq, Eq)]
pub struct ObjectMeta {
    pub name: Option<String>,
    pub namespace: Option<String>,
}

#[derive(Clone, Copy, Debug, PartialEq, Eq)]
pub enum DpuFlavorDpuMode {
    DpuMode,
    ZeroTrust,
}

#[derive(Clone, Copy, Debug, PartialEq, Eq)]
pub enum DpuFlavorConfigFilesOperation {
    Override,
    Append,
}

/// A file written onto the DPU.
#[derive(Clone, Debug, PartialEq, Eq)]
pub struct DpuFlavorConfigFiles {
    pub path: Option<String>,
    pub operation: Option<DpuFlavorConfigFilesOperation>,
    pub permissions: Option<String>,
    pub raw: Option<String>,
}

/// The nvconfig device selector; DPF accepts only the wildcard `*`.
#[derive(Clone, Copy, Debug, PartialEq, Eq)]
pub enum DpuFlavorNvconfigDevice {
    KopiumVariant0,
}

#[derive(Clone, Debug, PartialEq, Eq)]
pub struct DpuFlavorNvconfig {
    pub device: Option<DpuFlavorNvconfigDevice>,
    pub parameters: Option<Vec<String>>,
}

#[derive(Clone, Debug, PartialEq, Eq)]
pub struct DpuFlavorOvs {
    pub raw_config_script: Option<String>,
}

/// The flavor spec (the fields this crate sets; the others stay unset).
#[derive(Clone, Debug, PartialEq, Eq)]
pub struct DpuFlavorSpec {
    pub dpu_mode: Option<DpuFlavorDpuMode>,
    pub bfcfg_parameters: Option<Vec<String>>,
    pub config_files: Option<Vec<DpuFlavorConfigFiles>>,
    pub nvconfig: Option<Vec<DpuFlavorNvconfig>>,
    pub ovs: Option<DpuFlavorOvs>,
}

#[derive(Clone, Debug, PartialEq, Eq)]
pub struct DPUFlavor {
    pub metadata: ObjectMeta,
    pub spec: DpuFlavorSpec,
}

/// Proxy settings for pulling images on the DPU.
#[derive(Clone, Debug, PartialEq, Eq)]
pub struct DpfProxyDetails {
    pub https_proxy: String,
    pub no_proxy: Vec<String>,
}

#[derive(Clone, Debug, PartialEq, Eq)]
pub enum DpfError {
    ConfigError(String),
}

pub struct ConfigFileView {
    pub path: Option<Seq<char>>,
    pub operation: Option<DpuFlavorConfigFilesOperation>,
    pub permissions: Option<Seq<char>>,
    pub raw: Option<Seq<char>>,
}

impl View for DpuFlavorConfigFiles {
    type V = ConfigFileView;

    open spec fn view(&self) -> ConfigFileView {
        ConfigFileView {
            path: self.path.deep_view(),
            operation: self.operation,
            permissions: self.permissions.deep_view(),
            raw: self.raw.deep_view(),
        }
    }
}

pub struct NvconfigView {
    pub device: Option<DpuFlavorNvconfigDevice>,
    pub parameters: Option<Seq<Seq<char>>>,
}

impl View for DpuFlavorNvconfig {
    type V = NvconfigView;

    open spec fn view(&self) -> NvconfigView {
        NvconfigView { device: self.device, parameters: self.parameters.deep_view() }
    }
}

pub struct FlavorView {
    pub name: Option<Seq<char>>,
    pub namespace: Option<Seq<char>>,
    pub dpu_mode: Option<DpuFlavorDpuMode>,
    pub bfcfg_parameters: Option<Seq<Seq<char>>>,
    pub config_files: Option<Seq<ConfigFileView>>,
    pub nvconfig: Option<Seq<NvconfigView>>,
    pub ovs_script: Option<Option<Seq<char>>>,
}

pub open spec fn file_views(files: Seq<DpuFlavorConfigFiles>) -> Seq<ConfigFileView> {
    files.map_values(|f: DpuFlavorConfigFiles| f@)
}

pub open spec fn nvconfig_views(n: Seq<DpuFlavorNvconfig>) -> Seq<NvconfigView> {
    n.map_values(|x: DpuFlavorNvconfig| x@)
}

impl View for DPUFlavor {
    type V = FlavorView;

    open spec fn view(&self) -> FlavorView {
        FlavorView {
            name: self.metadata.name.deep_view(),
            namespace: self.metadata.namespace.deep_view(),
            dpu_mode: self.spec.dpu_mode,
            bfcfg_parameters: self.spec.bfcfg_parameters.deep_view(),
            config_files: match self.spec.config_files {
                Some(f) => Some(file_views(f@)),
                None => None,
            },
            nvconfig: match self.spec.nvconfig {
                Some(n) => Some(nvconfig_views(n@)),
                None => None,
            },
            ovs_script: match self.spec.ovs {
                Some(o) => Some(o.raw_config_script.deep_view()),
                None => None,
            },
        }
    }
}

pub struct ProxyView {
    pub https_proxy: Seq<char>,
    pub no_proxy: Seq<Seq<char>>,
}

impl View for DpfProxyDetails {
    type V = ProxyView;

    open spec fn view(&self) -> ProxyView {
        ProxyView { https_proxy: self.https_proxy@, no_proxy: self.no_proxy.deep_view() }
    }
}

pub open spec fn proxy_view(p: Option<DpfProxyDetails>) -> Option<ProxyView> {
    match p {
        Some(d) => Some(d@),
        None => None,
    }
}

fn owned(s: &str) -> (r: String)
    ensures
        r@ == s@,
{
    s.to_owned()
}

/// The OVS bootstrap script run on the DPU.
pub fn get_default_ovs_defaults() -> (s: String)
    ensures
        s@ == OVS_DEFAULTS@,
{
    owned(OVS_DEFAULTS)
}

/// A character that would break a systemd `Environment="..."` value: a
/// double quote, an ASCII control character (below 0x20), or DEL.
pub open spec fn forbidden_in_env(c: char) -> bool {
    c == '"' || (c as int) < 0x20 || (c as int) == 0x7f
}

pub open spec fn has_forbidden(s: Seq<char>) -> bool {
    exists|i: int| 0 <= i < s.len() && forbidden_in_env(#[trigger] s[i])
}

pub open spec fn proxy_error_message(field: Seq<char>) -> Seq<char> {
    "proxy "@ + field
        + " contains characters that are not allowed in a systemd Environment= value (quotes, newlines, or control characters)"@
}

fn has_forbidden_vec(v: &Vec<char>) -> (r: bool)
    ensures
        r == has_forbidden(v@),
{
    let mut i: usize = 0;
    while i < v.len()
        invariant
            i <= v.len(),
            forall|k: int| 0 <= k < i ==> !forbidden_in_env(#[trigger] v@[k]),
        decreases v.len() - i,
    {
        let c = v[i];
        if c == '"' || c < ' ' || c == '\x7f' {
            assert(forbidden_in_env(v@[i as int]));
            return true;
        }
        i = i + 1;
    }
    false
}

/// Rejects proxy strings holding characters that would break a systemd
/// `Environment="..."` line: double quotes, newlines and other ASCII
/// control characters, and DEL.
pub fn validate_proxy_string(value: &str, field: &str) -> (res: Result<(), DpfError>)
    ensures
        match res {
            Ok(()) => !has_forbidden(value@),
            Err(DpfError::ConfigError(m)) => has_forbidden(value@) && m@ == proxy_error_message(field@),
        },
{
    let v = chars_of(value);
    if has_forbidden_vec(&v) {
        let mut m: Vec<char> = Vec::new();
        extend_chars(&mut m, "proxy ");
        extend_chars(&mut m, field);
        extend_chars(
            &mut m,
            " contains characters that are not allowed in a systemd Environment= value (quotes, newlines, or control characters)",
        );
        return Err(DpfError::ConfigError(string_of(&m)));
    }
    Ok(())
}

/// The host-facing interfaces whose DHCP broadcasts are dropped: the host PF
/// and the sixteen VFs.
pub open spec fn dhcp_ifaces() -> Seq<Seq<char>> {
    seq![HOST_PF_IFACE@] + Seq::new(16, |i: int| VF_IFACE_PREFIX@ + dec_u8(i as u8) + VF_IFACE_SUFFIX@)
}

pub open spec fn dhcp_rule(iface: Seq<char>) -> Seq<char> {
    DHCP_RULE_HEAD@ + iface + DHCP_RULE_TAIL@
}

/// The iptables ACL dropping DHCP broadcasts arriving from host-facing interfaces.
pub open spec fn dhcp_rules() -> Seq<char> {
    DHCP_RULES_HEADER@ + dhcp_ifaces().map_values(|i: Seq<char>| dhcp_rule(i)).flatten()
}

fn push_rule(out: &mut Vec<char>, iface: &Vec<char>)
    ensures
        final(out)@ == old(out)@ + dhcp_rule(iface@),
{
    extend_chars(out, DHCP_RULE_HEAD);
    extend_vec(out, iface);
    extend_chars(out, DHCP_RULE_TAIL);
    assert(final(out)@ =~= old(out)@ + dhcp_rule(iface@));
}

/// DHCP ACL rules: drop DHCP broadcasts from host-facing interfaces.
pub fn dhcp_acl_rules() -> (s: String)
    ensures
        s@ == dhcp_rules(),
{
    let ghost rules = dhcp_ifaces().map_values(|i: Seq<char>| dhcp_rule(i));
    let mut out: Vec<char> = Vec::new();
    extend_chars(&mut out, DHCP_RULES_HEADER);
    let host = chars_of(HOST_PF_IFACE);
    push_rule(&mut out, &host);
    proof {
        assert(rules.take(1) =~= Seq::<Seq<char>>::empty().push(rules[0]));
        Seq::<Seq<char>>::empty().lemma_flatten_push(rules[0]);
        assert(Seq::<Seq<char>>::empty().flatten() =~= Seq::<char>::empty());
        assert(out@ =~= DHCP_RULES_HEADER@ + rules.take(1).flatten());
    }
    let mut i: u8 = 0;
    while i < 16
        invariant
            i <= 16,
            rules == dhcp_ifaces().map_values(|i: Seq<char>| dhcp_rule(i)),
            out@ == DHCP_RULES_HEADER@ + rules.take(i + 1).flatten(),
        decreases 16 - i,
    {
        let mut iface: Vec<char> = Vec::new();
        extend_chars(&mut iface, VF_IFACE_PREFIX);
        push_dec_u8(&mut iface, i);
        extend_chars(&mut iface, VF_IFACE_SUFFIX);
        push_rule(&mut out, &iface);
        proof {
            assert(dhcp_ifaces()[i + 1] == iface@);
            assert(rules[i + 1] == dhcp_rule(iface@));
            assert(rules.take(i + 2) =~= rules.take(i + 1).push(rules[i + 1]));
            rules.take(i + 1).lemma_flatten_push(rules[i + 1]);
        }
        i = i + 1;
    }
    assert(rules.take(17) =~= rules);
    string_of(&out)
}

pub open spec fn override_file(path: Seq<char>, raw: Seq<char>) -> ConfigFileView {
    ConfigFileView {
        path: Some(path),
        operation: Some(DpuFlavorConfigFilesOperation::Override),
        permissions: Some(CONFIG_FILE_PERMISSIONS@),
        raw: Some(raw),
    }
}

/// The five config files every flavor carries.
pub open spec fn base_config_files() -> Seq<ConfigFileView> {
    seq![
        override_file(ACLTOOL_CONF_PATH@, ACLTOOL_CONF@),
        override_file(DHCP_RULES_PATH@, dhcp_rules()),
        override_file(MLNX_BF_CONF_PATH@, MLNX_BF_CONF@),
        override_file(MLNX_OVS_CONF_PATH@, MLNX_OVS_CONF@),
        override_file(MLNX_SF_CONF_PATH@, Seq::empty()),
    ]
}

/// The `no_proxy` entries that count: trimmed, empty ones dropped.
pub open spec fn no_proxy_entries(no_proxy: Seq<Seq<char>>) -> Seq<Seq<char>> {
    no_proxy.map_values(|e: Seq<char>| trim_ws(e)).filter(|e: Seq<char>| e.len() > 0)
}

/// The containerd drop-in setting the proxy environment. When a `no_proxy`
/// list was given, its entries follow in ascending order without duplicates.
pub open spec fn proxy_drop_in(p: ProxyView) -> Seq<char> {
    let base = "[Service]\nEnvironment=\"HTTPS_PROXY="@ + p.https_proxy + "\"\nEnvironment=\"https_proxy="@
        + p.https_proxy + "\"\n"@;
    if p.no_proxy.len() == 0 {
        base
    } else {
        let np = join_with(sorted_of_set(no_proxy_entries(p.no_proxy).to_set()), ',');
        base + "Environment=\"NO_PROXY="@ + np + "\"\nEnvironment=\"no_proxy="@ + np + "\"\n"@
    }
}

/// The config files of a flavor, or the message of the proxy string that is refused.
pub open spec fn config_files_for(proxy: Option<ProxyView>) -> Result<Seq<ConfigFileView>, Seq<char>> {
    match proxy {
        None => Ok(base_config_files()),
        Some(p) => {
            if has_forbidden(p.https_proxy) {
                Err(proxy_error_message("https_proxy"@))
            } else if p.no_proxy.len() > 0 && exists|i: int|
                0 <= i < no_proxy_entries(p.no_proxy).len() && has_forbidden(
                    #[trigger] no_proxy_entries(p.no_proxy)[i],
                ) {
                Err(proxy_error_message("no_proxy entry"@))
            } else {
                Ok(base_config_files().push(override_file(PROXY_DROP_IN_PATH@, proxy_drop_in(p))))
            }
        },
    }
}

fn override_config_file(path: &str, raw: String) -> (f: DpuFlavorConfigFiles)
    ensures
        f@ == override_file(path@, raw@),
{
    DpuFlavorConfigFiles {
        path: Some(owned(path)),
        operation: Some(DpuFlavorConfigFilesOperation::Override),
        permissions: Some(owned(CONFIG_FILE_PERMISSIONS)),
        raw: Some(raw),
    }
}

/// The trimmed, non-empty `no_proxy` entries, in order.
fn collect_no_proxy_entries(no_proxy: &Vec<String>) -> (res: Vec<Vec<char>>)
    ensures
        views(res@) == no_proxy_entries(no_proxy.deep_view()),
{
    let ghost np = no_proxy.deep_view();
    let ghost trimmed = np.map_values(|e: Seq<char>| trim_ws(e));
    let ghost keep = |e: Seq<char>| e.len() > 0;
    let mut res: Vec<Vec<char>> = Vec::new();
    let mut i: usize = 0;
    assert(trimmed.take(0) =~= Seq::<Seq<char>>::empty());
    proof {
        reveal(Seq::filter);
    }
    assert(views(res@) =~= trimmed.take(0).filter(keep));
    while i < no_proxy.len()
        invariant
            i <= no_proxy.len(),
            np == no_proxy.deep_view(),
            trimmed == np.map_values(|e: Seq<char>| trim_ws(e)),
            keep == (|e: Seq<char>| e.len() > 0),
            views(res@) == trimmed.take(i as int).filter(keep),
        decreases no_proxy.len() - i,
    {
        let cs = chars_of(no_proxy[i].as_str());
        let t = trim_vec(&cs);
        assert(t@ == trimmed[i as int]);
        assert(trimmed.take(i + 1) =~= trimmed.take(i as int).push(trimmed[i as int]));
        proof {
            trimmed.take(i as int).lemma_filter_push(trimmed[i as int], keep);
        }
        if t.len() > 0 {
            let ghost before = views(res@);
            res.push(t);
            assert(views(res@) =~= before.push(trimmed[i as int]));
        }
        i = i + 1;
    }
    assert(trimmed.take(no_proxy.len() as int) =~= trimmed);
    res
}

/// The containerd proxy drop-in, or the refusal of a proxy string.
fn proxy_config_file(proxy: &DpfProxyDetails) -> (res: Result<DpuFlavorConfigFiles, DpfError>)
    ensures
        match res {
            Ok(f) => config_files_for(Some(proxy@)) == Ok::<Seq<ConfigFileView>, Seq<char>>(base_config_files().push(f@)),
            Err(DpfError::ConfigError(m)) => config_files_for(Some(proxy@)) == Err::<Seq<ConfigFileView>, Seq<char>>(m@),
        },
{
    let ghost p = proxy@;
    match validate_proxy_string(proxy.https_proxy.as_str(), "https_proxy") {
        Ok(()) => {},
        Err(e) => {
            proof {
                reveal_strlit("https_proxy");
            }
            return Err(e);
        },
    }
    let mut raw: Vec<char> = Vec::new();
    let https = chars_of(proxy.https_proxy.as_str());
    extend_chars(&mut raw, "[Service]\nEnvironment=\"HTTPS_PROXY=");
    extend_vec(&mut raw, &https);
    extend_chars(&mut raw, "\"\nEnvironment=\"https_proxy=");
    extend_vec(&mut raw, &https);
    extend_chars(&mut raw, "\"\n");
    if proxy.no_proxy.len() > 0 {
        let entries = collect_no_proxy_entries(&proxy.no_proxy);
        let ghost es = views(entries@);
        let mut i: usize = 0;
        while i < entries.len()
            invariant
                i <= entries.len(),
                es == views(entries@),
                es == no_proxy_entries(p.no_proxy),
                p == proxy@,
                !has_forbidden(p.https_proxy),
                p.no_proxy.len() > 0,
                forall|k: int| 0 <= k < i ==> !has_forbidden(#[trigger] es[k]),
            decreases entries.len() - i,
        {
            if has_forbidden_vec(&entries[i]) {
                let mut m: Vec<char> = Vec::new();
                extend_chars(&mut m, "proxy ");
                extend_chars(&mut m, "no_proxy entry");
                extend_chars(
                    &mut m,
                    " contains characters that are not allowed in a systemd Environment= value (quotes, newlines, or control characters)",
                );
                proof {
                    reveal_strlit("no_proxy entry");
                    assert(has_forbidden(es[i as int]));
                }
                return Err(DpfError::ConfigError(string_of(&m)));
            }
            i = i + 1;
        }
        let mut sorted: Vec<Vec<char>> = Vec::new();
        let mut j: usize = 0;
        while j < entries.len()
            invariant
                j <= entries.len(),
                es == views(entries@),
                strictly_sorted(views(sorted@)),
                views(sorted@).to_set() == es.take(j as int).to_set(),
            decreases entries.len() - j,
        {
            let e = entries[j].clone();
            insert_sorted_unique(&mut sorted, e);
            assert(es.take(j + 1) =~= es.take(j as int).push(es[j as int]));
            proof {
                es.take(j as int).lemma_push_to_set_commute(es[j as int]);
            }
            j = j + 1;
        }
        assert(es.take(entries.len() as int) =~= es);
        proof {
            lemma_sorted_of_set(views(sorted@));
        }
        let np = join_vec(&sorted, ',');
        extend_chars(&mut raw, "Environment=\"NO_PROXY=");
        extend_vec(&mut raw, &np);
        extend_chars(&mut raw, "\"\nEnvironment=\"no_proxy=");
        extend_vec(&mut raw, &np);
        extend_chars(&mut raw, "\"\n");
    }
    assert(raw@ =~= proxy_drop_in(p));
    Ok(override_config_file(PROXY_DROP_IN_PATH, string_of(&raw)))
}

/// The base set of config files, plus the containerd proxy drop-in when a
/// proxy is set; refuses proxy strings that would break the drop-in.
pub fn get_config_files(proxy: &Option<DpfProxyDetails>) -> (res: Result<Vec<DpuFlavorConfigFiles>, DpfError>)
    ensures
        match res {
            Ok(files) => config_files_for(proxy_view(*proxy)) == Ok::<Seq<ConfigFileView>, Seq<char>>(file_views(files@)),
            Err(DpfError::ConfigError(m)) => config_files_for(proxy_view(*proxy)) == Err::<Seq<ConfigFileView>, Seq<char>>(m@),
        },
        proxy is None ==> res is Ok,
        res matches Ok(files) ==> forall|i: int|
            0 <= i < files@.len() ==> {
                &&& (#[trigger] files@[i])@.path == Some(MLNX_BF_CONF_PATH@) ==> files@[i]@.raw == Some(MLNX_BF_CONF@)
                &&& files@[i]@.path == Some(MLNX_OVS_CONF_PATH@) ==> files@[i]@.raw == Some(MLNX_OVS_CONF@)
            },
{
    proof {
        lemma_config_files_pair_paths_with_contents(proxy_view(*proxy));
    }
    let mut files: Vec<DpuFlavorConfigFiles> = Vec::new();
    files.push(override_config_file(ACLTOOL_CONF_PATH, owned(ACLTOOL_CONF)));
    files.push(override_config_file(DHCP_RULES_PATH, dhcp_acl_rules()));
    files.push(override_config_file(MLNX_BF_CONF_PATH, owned(MLNX_BF_CONF)));
    files.push(override_config_file(MLNX_OVS_CONF_PATH, owned(MLNX_OVS_CONF)));
    files.push(override_config_file(MLNX_SF_CONF_PATH, String::new()));
    assert(file_views(files@) =~= base_config_files());
    match proxy {
        None => {
            assert forall|i: int| 0 <= i < files@.len() implies (#[trigger] files@[i])@ == file_views(files@)[i] by {}
            Ok(files)
        },
        Some(p) => {
            let f = proxy_config_file(p)?;
            let ghost before = files@;
            files.push(f);
            assert(file_views(files@) =~= file_views(before).push(f@));
            assert forall|i: int| 0 <= i < files@.len() implies (#[trigger] files@[i])@ == file_views(files@)[i] by {}
            Ok(files)
        },
    }
}


/// Settings passed to BlueField boot configuration.
pub open spec fn bfcfg_parameters() -> Seq<Seq<char>> {
    seq!["UPDATE_ATF_UEFI=yes"@, "UPDATE_DPU_OS=yes"@, "WITH_NIC_FW_UPDATE=yes"@]
}

/// The nvconfig parameters applied to every DPU.
pub open spec fn nvconfig_parameters() -> Seq<Seq<char>> {
    seq![
        "PF_BAR2_ENABLE=0"@,
        "PER_PF_NUM_SF=1"@,
        "PF_TOTAL_SF=30"@,
        "PF_SF_BAR_SIZE=10"@,
        "NUM_PF_MSIX_VALID=0"@,
        "PF_NUM_PF_MSIX_VALID=1"@,
        "PF_NUM_PF_MSIX=228"@,
        "INTERNAL_CPU_MODEL=1"@,
        "INTERNAL_CPU_OFFLOAD_ENGINE=0"@,
        "SRIOV_EN=1"@,
        "LAG_RESOURCE_ALLOCATION=1"@,
        "NUM_OF_VFS=16"@,
        "HIDE_PORT2_PF=True"@,
        "NUM_OF_PF=1"@,
        "LINK_TYPE_P1=2"@,
        "LINK_TYPE_P2=2"@,
    ]
}

pub open spec fn default_nvconfig() -> NvconfigView {
    NvconfigView {
        device: Some(DpuFlavorNvconfigDevice::KopiumVariant0),
        parameters: Some(nvconfig_parameters()),
    }
}

fn push_owned(v: &mut Vec<String>, s: &str)
    ensures
        final(v).deep_view() == old(v).deep_view().push(s@),
{
    let ghost before = v.deep_view();
    v.push(owned(s));
    assert(v.deep_view() =~= before.push(s@));
}

/// The nvconfig for every DPU (device `*`).
pub fn get_default_nvconfig() -> (n: DpuFlavorNvconfig)
    ensures
        n@ == default_nvconfig(),
{
    let mut p: Vec<String> = Vec::new();
    push_owned(&mut p, "PF_BAR2_ENABLE=0");
    push_owned(&mut p, "PER_PF_NUM_SF=1");
    push_owned(&mut p, "PF_TOTAL_SF=30");
    push_owned(&mut p, "PF_SF_BAR_SIZE=10");
    push_owned(&mut p, "NUM_PF_MSIX_VALID=0");
    push_owned(&mut p, "PF_NUM_PF_MSIX_VALID=1");
    push_owned(&mut p, "PF_NUM_PF_MSIX=228");
    push_owned(&mut p, "INTERNAL_CPU_MODEL=1");
    push_owned(&mut p, "INTERNAL_CPU_OFFLOAD_ENGINE=0");
    push_owned(&mut p, "SRIOV_EN=1");
    push_owned(&mut p, "LAG_RESOURCE_ALLOCATION=1");
    push_owned(&mut p, "NUM_OF_VFS=16");
    push_owned(&mut p, "HIDE_PORT2_PF=True");
    push_owned(&mut p, "NUM_OF_PF=1");
    push_owned(&mut p, "LINK_TYPE_P1=2");
    push_owned(&mut p, "LINK_TYPE_P2=2");
    assert(p.deep_view() =~= nvconfig_parameters());
    DpuFlavorNvconfig { device: Some(DpuFlavorNvconfigDevice::KopiumVariant0), parameters: Some(p) }
}

/// The default flavor in `namespace`, or the message of a refused proxy
/// string. The name is left unset.
pub open spec fn default_flavor_spec(namespace: Seq<char>, proxy: Option<ProxyView>) -> Result<FlavorView, Seq<char>> {
    match config_files_for(proxy) {
        Ok(files) => Ok(
            FlavorView {
                name: None,
                namespace: Some(namespace),
                dpu_mode: Some(DpuFlavorDpuMode::ZeroTrust),
                bfcfg_parameters: Some(bfcfg_parameters()),
                config_files: Some(files),
                nvconfig: Some(seq![default_nvconfig()]),
                ovs_script: Some(Some(OVS_DEFAULTS@)),
            },
        ),
        Err(m) => Err(m),
    }
}

/// Builds the default DPUFlavor spec. If `proxy` is set, a containerd proxy
/// drop-in config file is appended so the DPU can pull images through it.
/// Refuses (`ConfigError`) proxy strings holding quotes, newlines or other
/// control characters. `metadata.name` is left unset: callers set it,
/// typically from [`DPUFlavor::unique_name`].
pub fn default_flavor(namespace: &str, proxy: &Option<DpfProxyDetails>) -> (res: Result<DPUFlavor, DpfError>)
    ensures
        match res {
            Ok(f) => default_flavor_spec(namespace@, proxy_view(*proxy)) == Ok::<FlavorView, Seq<char>>(f@),
            Err(DpfError::ConfigError(m)) => default_flavor_spec(namespace@, proxy_view(*proxy)) == Err::<FlavorView, Seq<char>>(m@),
        },
{
    let mut bfcfg: Vec<String> = Vec::new();
    push_owned(&mut bfcfg, "UPDATE_ATF_UEFI=yes");
    push_owned(&mut bfcfg, "UPDATE_DPU_OS=yes");
    push_owned(&mut bfcfg, "WITH_NIC_FW_UPDATE=yes");
    assert(bfcfg.deep_view() =~= bfcfg_parameters());
    let files = get_config_files(proxy)?;
    let mut nvconfig: Vec<DpuFlavorNvconfig> = Vec::new();
    nvconfig.push(get_default_nvconfig());
    assert(nvconfig_views(nvconfig@) =~= seq![default_nvconfig()]);
    let f = DPUFlavor {
        metadata: ObjectMeta { name: None, namespace: Some(owned(namespace)) },
        spec: DpuFlavorSpec {
            dpu_mode: Some(DpuFlavorDpuMode::ZeroTrust),
            bfcfg_parameters: Some(bfcfg),
            config_files: Some(files),
            nvconfig: Some(nvconfig),
            ovs: Some(DpuFlavorOvs { raw_config_script: Some(get_default_ovs_defaults()) }),
        },
    };
    Ok(f)
}

/// Each config file of a flavor carries its own path's content, whatever the
/// proxy: the file at `/etc/mellanox/mlnx-bf.conf` holds the BlueField
/// settings, the one at `/etc/mellanox/mlnx-ovs.conf` the OVS settings, the
/// ACL tool's supervisor entry holds its program, the DHCP rules file its
/// rules and the SF file nothing. Each of these paths occurs exactly once,
/// every file overrides with permissions `0644`, and the proxy drop-in
/// occurs exactly when a proxy is set.
pub proof fn lemma_config_files_pair_paths_with_contents(proxy: Option<ProxyView>)
    ensures
        config_files_for(proxy) matches Ok(fs) ==> {
            &&& forall|i: int|
                0 <= i < fs.len() && (#[trigger] fs[i]).path == Some(MLNX_BF_CONF_PATH@) ==> fs[i].raw == Some(
                    MLNX_BF_CONF@,
                )
            &&& forall|i: int|
                0 <= i < fs.len() && (#[trigger] fs[i]).path == Some(MLNX_OVS_CONF_PATH@) ==> fs[i].raw == Some(
                    MLNX_OVS_CONF@,
                )
            &&& forall|i: int|
                0 <= i < fs.len() && (#[trigger] fs[i]).path == Some(ACLTOOL_CONF_PATH@) ==> fs[i].raw == Some(
                    ACLTOOL_CONF@,
                )
            &&& forall|i: int|
                0 <= i < fs.len() && (#[trigger] fs[i]).path == Some(DHCP_RULES_PATH@) ==> fs[i].raw == Some(
                    dhcp_rules(),
                )
            &&& forall|i: int|
                0 <= i < fs.len() && (#[trigger] fs[i]).path == Some(MLNX_SF_CONF_PATH@) ==> fs[i].raw == Some(
                    Seq::<char>::empty(),
                )
            &&& forall|i: int, j: int|
                0 <= i < j < fs.len() ==> (#[trigger] fs[i]).path != (#[trigger] fs[j]).path
            &&& forall|i: int|
                0 <= i < fs.len() ==> (#[trigger] fs[i]).operation == Some(DpuFlavorConfigFilesOperation::Override)
                    && fs[i].permissions == Some(CONFIG_FILE_PERMISSIONS@)
            &&& fs.len() == if proxy is Some { 6int } else { 5int }
            &&& fs[0].path == Some(ACLTOOL_CONF_PATH@)
            &&& fs[1].path == Some(DHCP_RULES_PATH@)
            &&& fs[2].path == Some(MLNX_BF_CONF_PATH@)
            &&& fs[3].path == Some(MLNX_OVS_CONF_PATH@)
            &&& fs[4].path == Some(MLNX_SF_CONF_PATH@)
            &&& proxy is Some ==> fs[5].path == Some(PROXY_DROP_IN_PATH@)
        },
        proxy is None ==> config_files_for(proxy) is Ok,
{
    reveal_strlit("/var/lib/hbn/etc/supervisor/conf.d/acltool.conf");
    reveal_strlit("/var/lib/hbn/etc/cumulus/acl/policy.d/10-dhcp.rules");
    reveal_strlit("/etc/mellanox/mlnx-bf.conf");
    reveal_strlit("/etc/mellanox/mlnx-ovs.conf");
    reveal_strlit("/etc/mellanox/mlnx-sf.conf");
    reveal_strlit("/etc/systemd/system/containerd.service.d/socks-proxy.conf");
    let paths = seq![
        ACLTOOL_CONF_PATH@,
        DHCP_RULES_PATH@,
        MLNX_BF_CONF_PATH@,
        MLNX_OVS_CONF_PATH@,
        MLNX_SF_CONF_PATH@,
        PROXY_DROP_IN_PATH@,
    ];
    assert(ACLTOOL_CONF_PATH@.len() == 47);
    assert(DHCP_RULES_PATH@.len() == 51);
    assert(MLNX_BF_CONF_PATH@.len() == 26);
    assert(MLNX_OVS_CONF_PATH@.len() == 27);
    assert(MLNX_SF_CONF_PATH@.len() == 26);
    assert(PROXY_DROP_IN_PATH@.len() == 57);
    assert(MLNX_BF_CONF_PATH@[19] != MLNX_SF_CONF_PATH@[19]);
    assert forall|i: int, j: int| 0 <= i < j < 6 implies #[trigger] paths[i] != #[trigger] paths[j] by {
        if paths[i].len() == paths[j].len() {
            assert(i == 2 && j == 4);
            assert(paths[i][19] != paths[j][19]);
        }
    }
    match config_files_for(proxy) {
        Ok(fs) => {
            let b = base_config_files();
            assert(b.len() == 5);
            assert forall|i: int| 0 <= i < fs.len() implies (#[trigger] fs[i]).path == Some(paths[i]) by {
                if i < 5 {
                    assert(fs[i] == b[i]);
                }
            }
            assert forall|i: int, j: int| 0 <= i < j < fs.len() implies (#[trigger] fs[i]).path != (
            #[trigger] fs[j]).path by {
                assert(fs[i].path == Some(paths[i]));
                assert(fs[j].path == Some(paths[j]));
            }
            assert forall|i: int| 0 <= i < fs.len() && (#[trigger] fs[i]).path == Some(MLNX_BF_CONF_PATH@) implies fs[i].raw
                == Some(MLNX_BF_CONF@) by {
                assert(fs[i].path == Some(paths[i]));
                assert(i == 2);
            }
            assert forall|i: int| 0 <= i < fs.len() && (#[trigger] fs[i]).path == Some(MLNX_OVS_CONF_PATH@) implies fs[i].raw
                == Some(MLNX_OVS_CONF@) by {
                assert(fs[i].path == Some(paths[i]));
                assert(i == 3);
            }
            assert forall|i: int| 0 <= i < fs.len() && (#[trigger] fs[i]).path == Some(ACLTOOL_CONF_PATH@) implies fs[i].raw
                == Some(ACLTOOL_CONF@) by {
                assert(fs[i].path == Some(paths[i]));
                assert(i == 0);
            }
            assert forall|i: int| 0 <= i < fs.len() && (#[trigger] fs[i]).path == Some(DHCP_RULES_PATH@) implies fs[i].raw
                == Some(dhcp_rules()) by {
                assert(fs[i].path == Some(paths[i]));
                assert(i == 1);
            }
            assert forall|i: int| 0 <= i < fs.len() && (#[trigger] fs[i]).path == Some(MLNX_SF_CONF_PATH@) implies fs[i].raw
                == Some(Seq::<char>::empty()) by {
                assert(fs[i].path == Some(paths[i]));
                assert(i == 4);
            }
        },
        Err(_) => {},
    }
}

/// The order of the `no_proxy` entries, their repetition and surrounding
/// whitespace do not change the flavor: only the set of entries counts.
pub proof fn lemma_no_proxy_order_irrelevant(namespace: Seq<char>, p1: ProxyView, p2: ProxyView)
    requires
        p1.https_proxy == p2.https_proxy,
        (p1.no_proxy.len() == 0) == (p2.no_proxy.len() == 0),
        no_proxy_entries(p1.no_proxy).to_set() == no_proxy_entries(p2.no_proxy).to_set(),
    ensures
        default_flavor_spec(namespace, Some(p1)) == default_flavor_spec(namespace, Some(p2)),
{
    let e1 = no_proxy_entries(p1.no_proxy);
    let e2 = no_proxy_entries(p2.no_proxy);
    let bad1 = exists|i: int| 0 <= i < e1.len() && has_forbidden(#[trigger] e1[i]);
    let bad2 = exists|i: int| 0 <= i < e2.len() && has_forbidden(#[trigger] e2[i]);
    assert(bad1 == bad2) by {
        if bad1 {
            let i = choose|i: int| 0 <= i < e1.len() && has_forbidden(#[trigger] e1[i]);
            assert(e1.to_set().contains(e1[i]));
            let k = choose|k: int| 0 <= k < e2.len() && e2[k] == e1[i];
            assert(has_forbidden(e2[k]));
        }
        if bad2 {
            let i = choose|i: int| 0 <= i < e2.len() && has_forbidden(#[trigger] e2[i]);
            assert(e2.to_set().contains(e2[i]));
            let k = choose|k: int| 0 <= k < e1.len() && e1[k] == e2[i];
            assert(has_forbidden(e1[k]));
        }
    }
    assert(proxy_drop_in(p1) == proxy_drop_in(p2));
}

/// The SHA-256 digest of `data` (32 bytes).
pub uninterp spec fn sha256(data: Seq<u8>) -> Seq<u8>;

/// `sha2::Sha256::digest`: the SHA-256 digest of `data`, which is 32 bytes long.
#[verifier::external_body]
fn sha256_digest(data: &[u8]) -> (d: Vec<u8>)
    ensures
        d@ == sha256(data@),
        d@.len() == 32,
{
    Sha256::digest(data).to_vec()
}

/// The two lower-case hexadecimal digits of a byte, high nibble first.
pub open spec fn hex_pair(b: u8) -> Seq<char> {
    seq![hex_digit_lower(b as int / 16), hex_digit_lower(b as int % 16)]
}

/// Lower-case hexadecimal, two digits per byte, high nibble first.
pub open spec fn hex_lower(data: Seq<u8>) -> Seq<char> {
    data.map_values(|b: u8| hex_pair(b)).flatten()
}

/// Whether `c` is a lower-case hexadecimal digit.
pub open spec fn is_lower_hex(c: char) -> bool {
    ('0' <= c && c <= '9') || ('a' <= c && c <= 'f')
}

proof fn lemma_hex_digit_lower(n: int)
    requires
        0 <= n < 16,
    ensures
        is_lower_hex(hex_digit_lower(n)),
{
    if n < 10 {
        assert(((48 + n) as char) as int == 48 + n);
    } else {
        assert(((87 + n) as char) as int == 87 + n);
    }
}

/// The hexadecimal rendering has two lower-case hex digits per byte.
proof fn lemma_hex_lower_shape(data: Seq<u8>)
    ensures
        hex_lower(data).len() == 2 * data.len(),
        forall|i: int| 0 <= i < hex_lower(data).len() ==> is_lower_hex(#[trigger] hex_lower(data)[i]),
    decreases data.len(),
{
    if data.len() > 0 {
        let m = data.map_values(|b: u8| hex_pair(b));
        let rest = data.drop_first();
        assert(m.drop_first() =~= rest.map_values(|b: u8| hex_pair(b)));
        lemma_hex_lower_shape(rest);
        lemma_hex_digit_lower(data[0] as int / 16);
        lemma_hex_digit_lower(data[0] as int % 16);
        assert(hex_lower(data) == m.first() + hex_lower(rest));
        assert forall|i: int| 0 <= i < hex_lower(data).len() implies is_lower_hex(#[trigger] hex_lower(data)[i]) by {
            if i >= 2 {
                assert(hex_lower(data)[i] == hex_lower(rest)[i - 2]);
            }
        }
    }
}

/// `hex::encode`: the lower-case hexadecimal rendering of `data`, two digits
/// per byte, high nibble first (the `0123456789abcdef` table of the crate).
#[verifier::external_body]
fn hex_encode(data: &[u8]) -> (s: String)
    ensures
        s@ == hex_lower(data@),
{
    hex::encode(data)
}

/// The flavor name derived from the serialized spec.
pub open spec fn unique_name_of(spec_json: Seq<char>, default_flavor_name: Seq<char>) -> Seq<char> {
    default_flavor_name + seq!['-'] + hex_lower(sha256(vstd::utf8::encode_utf8(spec_json)).take(8))
}

impl DPUFlavor {
    /// `"{default_flavor_name}-{hash}"`, where the hash is the first 8 bytes
    /// (16 hex digits) of the SHA-256 digest of the JSON-serialized spec. The
    /// name changes whenever the spec changes.
    pub fn unique_name(spec_json: &str, default_flavor_name: &str) -> (name: String)
        ensures
            name@ == unique_name_of(spec_json@, default_flavor_name@),
            name@.len() == default_flavor_name@.len() + 17,
            name@[default_flavor_name@.len() as int] == '-',
            forall|i: int| default_flavor_name@.len() < i < name@.len() ==> is_lower_hex(#[trigger] name@[i]),
    {
        let digest = sha256_digest(spec_json.as_bytes());
        let mut short: Vec<u8> = Vec::new();
        let mut i: usize = 0;
        while i < 8
            invariant
                i <= 8,
                digest@.len() == 32,
                short@ == digest@.take(i as int),
            decreases 8 - i,
        {
            short.push(digest[i]);
            assert(digest@.take(i + 1) =~= digest@.take(i as int).push(digest@[i as int]));
            i = i + 1;
        }
        let hex = hex_encode(short.as_slice());
        proof {
            lemma_hex_lower_shape(short@);
        }
        let mut out: Vec<char> = Vec::new();
        extend_chars(&mut out, default_flavor_name);
        out.push('-');
        extend_chars(&mut out, hex.as_str());
        assert(out@ =~= unique_name_of(spec_json@, default_flavor_name@));
        string_of(&out)
    }
}

} // verus!
