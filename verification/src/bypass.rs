//! The China bypass of proxied flows: the DNS and destination-IP rules that
//! send Chinese traffic of a flow around its proxy, the Geo sources those
//! rules rely on, and the status report of those sources.
//!
//! The rule and Geo services themselves are reached by the caller; the
//! functions here decide what to read, what to write and what to report.
use vstd::prelude::*;

use sha2::Digest;

use crate::flow::{FlowConfig, FlowConfigView, FlowTargetView, WeightedFlowTargetView};
use crate::proxy::{opt_view, ProxyBypassRuleSourceKind, ProxyError, ProxyMode};
use crate::text::{dec_text, has_prefix, push_decimal, starts_with, str_equal, string_of};

verus! {

/// The name of the Geo sources that the bypass creates and keeps.
pub open spec fn geo_source_name() -> Seq<char> {
    "proxy-default"@
}

/// The Geo key of Chinese sites and addresses.
pub open spec fn geo_cn_key() -> Seq<char> {
    "CN"@
}

/// Where the Geo site list is downloaded from.
pub open spec fn geo_site_source_url() -> Seq<char> {
    "https://github.com/v2fly/domain-list-community/releases/latest/download/dlc.dat"@
}

/// Where the Geo IP list is downloaded from.
pub open spec fn geo_ip_source_url() -> Seq<char> {
    "https://github.com/v2fly/geoip/releases/latest/download/geoip.dat"@
}

fn geo_source_name_str() -> (r: &'static str)
    ensures
        r@ == geo_source_name(),
{
    "proxy-default"
}

fn geo_cn_key_str() -> (r: &'static str)
    ensures
        r@ == geo_cn_key(),
{
    "CN"
}

fn geo_site_source_url_str() -> (r: &'static str)
    ensures
        r@ == geo_site_source_url(),
{
    "https://github.com/v2fly/domain-list-community/releases/latest/download/dlc.dat"
}

fn geo_ip_source_url_str() -> (r: &'static str)
    ensures
        r@ == geo_ip_source_url(),
{
    "https://github.com/v2fly/geoip/releases/latest/download/geoip.dat"
}

/// The two kinds of rules that the bypass generates for a flow.
#[derive(Clone, Copy, Debug, PartialEq, Eq, Structural)]
pub enum GeneratedRuleKind {
    /// A DNS rule: Chinese domains resolve through the direct upstream.
    Dns,
    /// A destination-IP rule: Chinese addresses leave directly.
    Ip,
}

/// The word of each kind in the seed of its rule ids.
pub open spec fn kind_word(kind: GeneratedRuleKind) -> Seq<char> {
    match kind {
        GeneratedRuleKind::Dns => "dns"@,
        GeneratedRuleKind::Ip => "ip"@,
    }
}

/// The prefix that marks a rule of each kind as generated: the name of a DNS
/// rule, the remark of a destination-IP rule.
pub open spec fn generated_prefix(kind: GeneratedRuleKind) -> Seq<char> {
    match kind {
        GeneratedRuleKind::Dns => "__landscape_proxy_bypass_china_dns__"@,
        GeneratedRuleKind::Ip => "__landscape_proxy_bypass_china_ip__"@,
    }
}

fn kind_word_str(kind: GeneratedRuleKind) -> (r: &'static str)
    ensures
        r@ == kind_word(kind),
{
    match kind {
        GeneratedRuleKind::Dns => "dns",
        GeneratedRuleKind::Ip => "ip",
    }
}

fn generated_prefix_str(kind: GeneratedRuleKind) -> (r: &'static str)
    ensures
        r@ == generated_prefix(kind),
{
    match kind {
        GeneratedRuleKind::Dns => "__landscape_proxy_bypass_china_dns__",
        GeneratedRuleKind::Ip => "__landscape_proxy_bypass_china_ip__",
    }
}

/// The name (DNS) or remark (destination IP) of the rule generated for a flow.
pub open spec fn generated_label(kind: GeneratedRuleKind, flow_id: u32) -> Seq<char> {
    generated_prefix(kind) + " flow="@ + dec_text(flow_id as nat)
}

/// The text whose SHA-256 digest seeds the id of a generated rule.
pub open spec fn rule_seed_text(kind: GeneratedRuleKind, flow_id: u32) -> Seq<char> {
    "landscape-proxy-bypass-"@ + kind_word(kind) + "-"@ + dec_text(flow_id as nat)
}

/// The SHA-256 digest of `data`, as `sha2::Sha256` computes it.
pub uninterp spec fn sha256_digest(data: Seq<u8>) -> Seq<u8>;

/// `sha2::Sha256::digest`. The result is named by `sha256_digest`; the
/// crate's output size for SHA-256 is 32 bytes.
#[verifier::external_body]
fn sha256(data: &[u8]) -> (r: Vec<u8>)
    ensures
        r@ == sha256_digest(data@),
        r@.len() == 32,
{
    sha2::Sha256::digest(data).to_vec()
}

/// The big-endian value of a byte sequence.
pub open spec fn be_value(s: Seq<u8>) -> nat
    decreases s.len(),
{
    if s.len() == 0 {
        0
    } else {
        be_value(s.drop_last()) * 256 + s.last() as nat
    }
}

/// `256` to the power `n`.
pub open spec fn pow256(n: nat) -> nat
    decreases n,
{
    if n == 0 {
        1
    } else {
        256 * pow256((n - 1) as nat)
    }
}

/// The first 16 bytes of a digest with the version nibble set to 4 and the
/// variant bits set to RFC 4122: the bytes of a version-4 UUID.
pub open spec fn uuid_bytes_of_digest(d: Seq<u8>) -> Seq<u8> {
    d.subrange(0, 16).update(6, (d[6] & 0x0f) | 0x40).update(8, (d[8] & 0x3f) | 0x80)
}

/// The UUID (as its 128-bit big-endian value) derived from a digest.
pub open spec fn uuid_of_digest(d: Seq<u8>) -> u128 {
    be_value(uuid_bytes_of_digest(d)) as u128
}

/// The id of the rule of `kind` generated for a flow: the same for the same
/// flow every time, so that a rewrite replaces the earlier rule.
pub open spec fn generated_rule_id(kind: GeneratedRuleKind, flow_id: u32) -> u128 {
    uuid_of_digest(sha256_digest(vstd::utf8::encode_utf8(rule_seed_text(kind, flow_id))))
}

proof fn lemma_pow256_step(n: nat)
    ensures
        pow256(n + 1) == 256 * pow256(n),
{
}

proof fn lemma_pow256_mono(i: nat, j: nat)
    requires
        i <= j,
    ensures
        pow256(i) <= pow256(j),
    decreases j - i,
{
    if i < j {
        lemma_pow256_mono(i, (j - 1) as nat);
        lemma_pow256_step((j - 1) as nat);
    }
}

proof fn lemma_be_value_bound(s: Seq<u8>)
    ensures
        be_value(s) < pow256(s.len()),
    decreases s.len(),
{
    if s.len() > 0 {
        lemma_be_value_bound(s.drop_last());
        let p = pow256((s.len() - 1) as nat);
        let v = be_value(s.drop_last());
        let b = s.last() as nat;
        lemma_pow256_step((s.len() - 1) as nat);
        assert(v * 256 + b < 256 * p) by (nonlinear_arith)
            requires
                v < p,
                b < 256,
        ;
    }
}

/// The UUID value derived from the first 16 bytes of a digest.
fn uuid_from_digest(d: &Vec<u8>) -> (r: u128)
    requires
        d@.len() >= 16,
    ensures
        r == uuid_of_digest(d@),
{
    let ghost ub = uuid_bytes_of_digest(d@);
    proof {
        reveal_with_fuel(pow256, 17);
        lemma_pow256_mono(16, 16);
        assert(pow256(16) == 0x1_0000_0000_0000_0000_0000_0000_0000_0000nat);
    }
    let mut acc: u128 = 0;
    let mut i: usize = 0;
    while i < 16
        invariant
            i <= 16,
            d@.len() >= 16,
            ub == uuid_bytes_of_digest(d@),
            ub.len() == 16,
            acc as nat == be_value(ub.subrange(0, i as int)),
            pow256(16) == 0x1_0000_0000_0000_0000_0000_0000_0000_0000nat,
        decreases 16 - i,
    {
        let b: u8 = if i == 6 {
            (d[6] & 0x0f) | 0x40
        } else if i == 8 {
            (d[8] & 0x3f) | 0x80
        } else {
            d[i]
        };
        assert(b == ub[i as int]);
        let ghost prefix = ub.subrange(0, i as int);
        let ghost next = ub.subrange(0, i + 1);
        assert(next.drop_last() =~= prefix);
        proof {
            lemma_be_value_bound(prefix);
            lemma_pow256_step(i as nat);
            lemma_pow256_mono((i + 1) as nat, 16);
            assert((acc as nat) * 256 + (b as nat) < pow256((i + 1) as nat)) by (nonlinear_arith)
                requires
                    (acc as nat) < pow256(i as nat),
                    (b as nat) < 256,
                    pow256((i + 1) as nat) == 256 * pow256(i as nat),
            ;
        }
        acc = acc * 256 + b as u128;
        i = i + 1;
    }
    assert(ub.subrange(0, 16) =~= ub);
    acc
}

/// The seed text of a generated rule id.
fn rule_seed(kind: GeneratedRuleKind, flow_id: u32) -> (r: String)
    ensures
        r@ == rule_seed_text(kind, flow_id),
{
    let mut s = string_of("landscape-proxy-bypass-");
    s.append(kind_word_str(kind));
    s.append("-");
    push_decimal(&mut s, flow_id as u64);
    s
}

/// The id of the rule of `kind` generated for the flow `flow_id`: a
/// version-4 UUID taken from the SHA-256 digest of its seed text.
pub fn deterministic_uuid(kind: GeneratedRuleKind, flow_id: u32) -> (r: u128)
    ensures
        r == generated_rule_id(kind, flow_id),
{
    let seed = rule_seed(kind, flow_id);
    let bytes = seed.as_str().as_bytes_vec();
    let digest = sha256(bytes.as_slice());
    uuid_from_digest(&digest)
}

/// Whether a flow sends a share of its traffic (a positive weight) through a
/// proxy in the China bypass mode.
pub open spec fn has_bypass_target(targets: Seq<WeightedFlowTargetView>) -> bool {
    exists|i: int|
        0 <= i < targets.len() && (#[trigger] targets[i]).weight > 0 && (targets[i].target matches FlowTargetView::Proxy { mode, .. } && mode == ProxyMode::BypassChina)
}

/// Whether the bypass rules are wanted for a flow: it is enabled and has a
/// bypass target.
pub open spec fn wants_bypass(flow: FlowConfigView) -> bool {
    flow.enable && has_bypass_target(flow.flow_targets)
}

/// Whether the flow has a proxy target in the China bypass mode with a
/// positive weight.
pub fn flow_has_bypass_proxy_target(flow: &FlowConfig) -> (r: bool)
    ensures
        r == has_bypass_target(flow@.flow_targets),
{
    let ghost ts = flow@.flow_targets;
    let mut i: usize = 0;
    while i < flow.flow_targets.len()
        invariant
            i <= flow.flow_targets.len(),
            ts == flow@.flow_targets,
            ts.len() == flow.flow_targets.len(),
            forall|j: int| 0 <= j < i ==> !((#[trigger] ts[j]).weight > 0 && (ts[j].target matches FlowTargetView::Proxy { mode, .. } && mode == ProxyMode::BypassChina)),
        decreases flow.flow_targets.len() - i,
    {
        let t = &flow.flow_targets[i];
        assert(ts[i as int] == t@);
        let hit = match &t.target {
            crate::flow::FlowTarget::Proxy { mode: ProxyMode::BypassChina, .. } => t.weight > 0,
            _ => false,
        };
        if hit {
            return true;
        }
        i = i + 1;
    }
    false
}

/// Whether any of the flows wants the bypass rules, so that the Geo data
/// must be present before the flows are written.
pub open spec fn any_wants_bypass(flows: Seq<FlowConfigView>) -> bool {
    exists|i: int| 0 <= i < flows.len() && wants_bypass(#[trigger] flows[i])
}

/// The index of the rules generated for a flow: spread over a fixed band
/// by the flow id.
pub open spec fn rule_index_of(flow_id: u32) -> u32 {
    (1000 + flow_id % 8000) as u32
}

/// The index of the rules generated for the flow `flow_id`.
pub fn auto_rule_index(flow_id: u32) -> (r: u32)
    ensures
        r == rule_index_of(flow_id),
        1000 <= r < 9000,
{
    1000u32.saturating_add(flow_id % 8000)
}

/// The text of a generated rule's name or remark.
fn generated_label_string(kind: GeneratedRuleKind, flow_id: u32) -> (r: String)
    ensures
        r@ == generated_label(kind, flow_id),
{
    let mut s = string_of(generated_prefix_str(kind));
    s.append(" flow=");
    push_decimal(&mut s, flow_id as u64);
    s
}

/// A key into the Geo data: the source's name and the key within it.
#[derive(Debug)]
pub struct GeoConfigKey {
    pub name: String,
    pub key: String,
    pub inverse: bool,
    pub attribute_key: Option<String>,
}

/// Whether a Geo key selects the Chinese entries of the bypass source.
pub open spec fn is_cn_geo_key(k: GeoConfigKey) -> bool {
    &&& k.name@ == geo_source_name()
    &&& k.key@ == geo_cn_key()
    &&& !k.inverse
    &&& k.attribute_key is None
}

/// The Geo key of the Chinese entries of the bypass source.
pub fn cn_geo_key() -> (r: GeoConfigKey)
    ensures
        is_cn_geo_key(r),
{
    GeoConfigKey {
        name: string_of(geo_source_name_str()),
        key: string_of(geo_cn_key_str()),
        inverse: false,
        attribute_key: None,
    }
}

/// The key of a Geo cache entry.
#[derive(Debug)]
pub struct GeoFileCacheKey {
    pub name: String,
    pub key: String,
}

/// The cache key of the Chinese entries of the bypass source.
pub fn geo_cn_cache_key() -> (r: GeoFileCacheKey)
    ensures
        r.name@ == geo_source_name(),
        r.key@ == geo_cn_key(),
{
    GeoFileCacheKey { name: string_of(geo_source_name_str()), key: string_of(geo_cn_key_str()) }
}

/// The DNS rule generated for a flow: Chinese domains resolve through the
/// given upstream and their traffic leaves directly. (Its filter and bind
/// settings are the defaults, its mark is the direct mark.)
#[derive(Debug)]
pub struct GeneratedDnsRule {
    pub id: u128,
    pub name: String,
    pub index: u32,
    pub enable: bool,
    pub upstream_id: u128,
    pub source: GeoConfigKey,
    pub flow_id: u32,
}

/// The destination-IP rule generated for a flow: Chinese addresses leave
/// directly, and the rule overrides DNS marks. (Its mark is the direct mark.)
#[derive(Debug)]
pub struct GeneratedIpRule {
    pub id: u128,
    pub index: u32,
    pub enable: bool,
    pub source: GeoConfigKey,
    pub remark: String,
    pub flow_id: u32,
    pub override_dns: bool,
}

/// The DNS rule generated for the flow `flow_id`, resolving through `upstream_id`.
pub fn generated_dns_rule(flow_id: u32, upstream_id: u128) -> (r: GeneratedDnsRule)
    ensures
        r.id == generated_rule_id(GeneratedRuleKind::Dns, flow_id),
        r.name@ == generated_label(GeneratedRuleKind::Dns, flow_id),
        r.index == rule_index_of(flow_id),
        r.enable,
        r.upstream_id == upstream_id,
        is_cn_geo_key(r.source),
        r.flow_id == flow_id,
{
    GeneratedDnsRule {
        id: deterministic_uuid(GeneratedRuleKind::Dns, flow_id),
        name: generated_label_string(GeneratedRuleKind::Dns, flow_id),
        index: auto_rule_index(flow_id),
        enable: true,
        upstream_id,
        source: cn_geo_key(),
        flow_id,
    }
}

/// The destination-IP rule generated for the flow `flow_id`.
pub fn generated_ip_rule(flow_id: u32) -> (r: GeneratedIpRule)
    ensures
        r.id == generated_rule_id(GeneratedRuleKind::Ip, flow_id),
        r.remark@ == generated_label(GeneratedRuleKind::Ip, flow_id),
        r.index == rule_index_of(flow_id),
        r.enable,
        is_cn_geo_key(r.source),
        r.flow_id == flow_id,
        r.override_dns,
{
    GeneratedIpRule {
        id: deterministic_uuid(GeneratedRuleKind::Ip, flow_id),
        index: auto_rule_index(flow_id),
        enable: true,
        source: cn_geo_key(),
        remark: generated_label_string(GeneratedRuleKind::Ip, flow_id),
        flow_id,
        override_dns: true,
    }
}

/// An existing rule of a flow as the bypass sees it: its id and its label
/// (the name of a DNS rule, the remark of a destination-IP rule).
#[derive(Debug)]
pub struct RuleLabel {
    pub id: u128,
    pub label: String,
}

/// The ids of the rules whose label marks them as generated for `kind`, in order.
pub open spec fn generated_ids(rules: Seq<RuleLabel>, kind: GeneratedRuleKind) -> Seq<u128>
    decreases rules.len(),
{
    if rules.len() == 0 {
        Seq::empty()
    } else {
        let rest = generated_ids(rules.drop_last(), kind);
        if has_prefix(rules.last().label@, generated_prefix(kind)) {
            rest.push(rules.last().id)
        } else {
            rest
        }
    }
}

/// The ids of the generated rules among a flow's rules of `kind`: those the
/// bypass deletes before it writes the flow's rules anew.
pub fn generated_rule_ids(rules: &Vec<RuleLabel>, kind: GeneratedRuleKind) -> (r: Vec<u128>)
    ensures
        r@ == generated_ids(rules@, kind),
{
    let prefix = generated_prefix_str(kind);
    let mut out: Vec<u128> = Vec::new();
    let mut i: usize = 0;
    while i < rules.len()
        invariant
            i <= rules.len(),
            prefix@ == generated_prefix(kind),
            out@ == generated_ids(rules@.subrange(0, i as int), kind),
        decreases rules.len() - i,
    {
        let ghost before = rules@.subrange(0, i as int);
        assert(rules@.subrange(0, i + 1).drop_last() =~= before);
        if starts_with(rules[i].label.as_str(), prefix) {
            out.push(rules[i].id);
        }
        i = i + 1;
    }
    assert(rules@.subrange(0, rules@.len() as int) =~= rules@);
    out
}

/// Which DNS upstream the generated DNS rules use: the first configured one,
/// or a new default upstream (`default_id`) that must then be written.
pub fn choose_dns_upstream(existing: &Vec<u128>, default_id: u128) -> (r: (u128, bool))
    ensures
        existing@.len() > 0 ==> r == (existing@[0], false),
        existing@.len() == 0 ==> r == (default_id, true),
{
    if existing.len() > 0 {
        (existing[0], false)
    } else {
        (default_id, true)
    }
}

/// Whether the Geo data must be refreshed before the bypass can rely on it:
/// one of the two caches lacks the Chinese entries.
pub fn geo_cache_needs_refresh(site_cached: bool, ip_cached: bool) -> (r: bool)
    ensures
        r == (!site_cached || !ip_cached),
{
    !site_cached || !ip_cached
}

/// The verdict on the Geo data after the refresh: both caches hold the
/// Chinese entries, or the bypass cannot be set up.
pub fn geo_cache_verdict(site_cached: bool, ip_cached: bool) -> (r: Result<(), ProxyError>)
    ensures
        r is Ok <==> (site_cached && ip_cached),
        r matches Err(e) ==> e is BypassGeoCacheMissing,
{
    if !site_cached || !ip_cached {
        Err(ProxyError::BypassGeoCacheMissing)
    } else {
        Ok(())
    }
}

/// Which Geo sources a refresh request covers: (site list, IP list).
pub fn refresh_targets(kind: Option<ProxyBypassRuleSourceKind>) -> (r: (bool, bool))
    ensures
        r == (match kind {
            Some(ProxyBypassRuleSourceKind::Domain) => (true, false),
            Some(ProxyBypassRuleSourceKind::Ip) => (false, true),
            None => (true, true),
        }),
{
    match kind {
        Some(ProxyBypassRuleSourceKind::Domain) => (true, false),
        Some(ProxyBypassRuleSourceKind::Ip) => (false, true),
        None => (true, true),
    }
}

/// Whether any of the flows wants the bypass rules.
pub fn flows_need_geo(flows: &Vec<FlowConfig>) -> (r: bool)
    ensures
        r == any_wants_bypass(flows@.map_values(|f: FlowConfig| f@)),
{
    let ghost vs = flows@.map_values(|f: FlowConfig| f@);
    let mut i: usize = 0;
    while i < flows.len()
        invariant
            i <= flows.len(),
            vs == flows@.map_values(|f: FlowConfig| f@),
            vs.len() == flows.len(),
            forall|j: int| 0 <= j < i ==> !wants_bypass(#[trigger] vs[j]),
        decreases flows.len() - i,
    {
        assert(vs[i as int] == flows[i as int]@);
        if flows[i].enable && flow_has_bypass_proxy_target(&flows[i]) {
            return true;
        }
        i = i + 1;
    }
    false
}

/// Where a Geo site list comes from. Times are `f64` timestamps carried as
/// their IEEE-754 bit patterns.
#[derive(Debug)]
pub enum GeoSiteSource {
    Url { url: String, next_update_at: u64, geo_keys: Vec<String> },
    AdguardHome { url: String, next_update_at: u64 },
    Direct,
}

/// A configured Geo site source.
#[derive(Debug)]
pub struct GeoSiteSourceConfig {
    pub id: u128,
    pub update_at: u64,
    pub name: String,
    pub enable: bool,
    pub source: GeoSiteSource,
}

/// The file format of a downloaded Geo IP list.
#[derive(Clone, Copy, Debug, PartialEq, Eq, Structural)]
pub enum GeoIpFileFormat {
    Dat,
    Txt,
}

/// Where a Geo IP list comes from.
#[derive(Debug)]
pub enum GeoIpSource {
    Url { url: String, next_update_at: u64, format: GeoIpFileFormat, txt_key: Option<String> },
    Direct,
}

/// A configured Geo IP source.
#[derive(Debug)]
pub struct GeoIpSourceConfig {
    pub id: u128,
    pub update_at: u64,
    pub name: String,
    pub enable: bool,
    pub source: GeoIpSource,
}

/// Whether a site source is the one the bypass needs: the site list URL
/// with the single key `CN`. (When it is to be next updated does not matter.)
pub open spec fn site_source_fits(s: GeoSiteSource) -> bool {
    s matches GeoSiteSource::Url { url, geo_keys, .. } && url@ == geo_site_source_url() && geo_keys@.len() == 1 && geo_keys@[0]@ == geo_cn_key()
}

/// Whether a site source is the one the bypass writes: as `site_source_fits`,
/// due for an update at once.
pub open spec fn site_source_written(s: GeoSiteSource) -> bool {
    &&& site_source_fits(s)
    &&& s matches GeoSiteSource::Url { next_update_at, .. } && next_update_at == 0
}

/// Whether an IP source is the one the bypass needs: the IP list URL in the
/// `dat` format, with no text key.
pub open spec fn ip_source_fits(s: GeoIpSource) -> bool {
    s matches GeoIpSource::Url { url, format, txt_key, .. } && url@ == geo_ip_source_url() && format == GeoIpFileFormat::Dat && txt_key is None
}

/// Whether an IP source is the one the bypass writes.
pub open spec fn ip_source_written(s: GeoIpSource) -> bool {
    &&& ip_source_fits(s)
    &&& s matches GeoIpSource::Url { next_update_at, .. } && next_update_at == 0
}

fn site_source_is_fit(s: &GeoSiteSource) -> (r: bool)
    ensures
        r == site_source_fits(*s),
{
    match s {
        GeoSiteSource::Url { url, geo_keys, .. } => {
            str_equal(url.as_str(), geo_site_source_url_str()) && geo_keys.len() == 1
                && str_equal(geo_keys[0].as_str(), geo_cn_key_str())
        },
        _ => false,
    }
}

fn ip_source_is_fit(s: &GeoIpSource) -> (r: bool)
    ensures
        r == ip_source_fits(*s),
{
    match s {
        GeoIpSource::Url { url, format, txt_key, .. } => {
            str_equal(url.as_str(), geo_ip_source_url_str()) && *format == GeoIpFileFormat::Dat
                && txt_key.is_none()
        },
        _ => false,
    }
}

fn bypass_site_source() -> (r: GeoSiteSource)
    ensures
        site_source_written(r),
{
    let mut keys: Vec<String> = Vec::new();
    keys.push(string_of(geo_cn_key_str()));
    GeoSiteSource::Url { url: string_of(geo_site_source_url_str()), next_update_at: 0, geo_keys: keys }
}

fn bypass_ip_source() -> (r: GeoIpSource)
    ensures
        ip_source_written(r),
{
    GeoIpSource::Url {
        url: string_of(geo_ip_source_url_str()),
        next_update_at: 0,
        format: GeoIpFileFormat::Dat,
        txt_key: None,
    }
}

/// The names of a list of site sources.
pub open spec fn site_names(configs: Seq<GeoSiteSourceConfig>) -> Seq<Seq<char>> {
    configs.map_values(|c: GeoSiteSourceConfig| c.name@)
}

/// The names of a list of IP sources.
pub open spec fn ip_names(configs: Seq<GeoIpSourceConfig>) -> Seq<Seq<char>> {
    configs.map_values(|c: GeoIpSourceConfig| c.name@)
}

/// `i` is the position of the last entry named `name`.
pub open spec fn is_last_named(names: Seq<Seq<char>>, name: Seq<char>, i: int) -> bool {
    &&& 0 <= i < names.len()
    &&& names[i] == name
    &&& forall|j: int| i < j < names.len() ==> names[j] != name
}

/// `i` is the position of the first entry named `name`.
pub open spec fn is_first_named(names: Seq<Seq<char>>, name: Seq<char>, i: int) -> bool {
    &&& 0 <= i < names.len()
    &&& names[i] == name
    &&& forall|j: int| 0 <= j < i ==> names[j] != name
}

/// No entry is named `name`.
pub open spec fn none_named(names: Seq<Seq<char>>, name: Seq<char>) -> bool {
    forall|j: int| 0 <= j < names.len() ==> names[j] != name
}

/// The position of the last site source named like the bypass source.
fn last_site_source(configs: &Vec<GeoSiteSourceConfig>) -> (r: Option<usize>)
    ensures
        r matches Some(i) ==> is_last_named(site_names(configs@), geo_source_name(), i as int),
        r is None ==> none_named(site_names(configs@), geo_source_name()),
{
    let ghost ns = site_names(configs@);
    let name = geo_source_name_str();
    let mut k: usize = configs.len();
    while k > 0
        invariant
            k <= configs.len(),
            ns == site_names(configs@),
            ns.len() == configs.len(),
            name@ == geo_source_name(),
            forall|j: int| k <= j < ns.len() ==> ns[j] != name@,
        decreases k,
    {
        assert(ns[k - 1] == configs@[k - 1].name@);
        if str_equal(configs[k - 1].name.as_str(), name) {
            return Some(k - 1);
        }
        k = k - 1;
    }
    None
}

/// The position of the first site source named like the bypass source.
fn first_site_source(configs: &Vec<GeoSiteSourceConfig>) -> (r: Option<usize>)
    ensures
        r matches Some(i) ==> is_first_named(site_names(configs@), geo_source_name(), i as int),
        r is None ==> none_named(site_names(configs@), geo_source_name()),
{
    let ghost ns = site_names(configs@);
    let name = geo_source_name_str();
    let mut k: usize = 0;
    while k < configs.len()
        invariant
            k <= configs.len(),
            ns == site_names(configs@),
            ns.len() == configs.len(),
            name@ == geo_source_name(),
            forall|j: int| 0 <= j < k ==> ns[j] != name@,
        decreases configs.len() - k,
    {
        assert(ns[k as int] == configs@[k as int].name@);
        if str_equal(configs[k].name.as_str(), name) {
            return Some(k);
        }
        k = k + 1;
    }
    None
}

/// The position of the last IP source named like the bypass source.
fn last_ip_source(configs: &Vec<GeoIpSourceConfig>) -> (r: Option<usize>)
    ensures
        r matches Some(i) ==> is_last_named(ip_names(configs@), geo_source_name(), i as int),
        r is None ==> none_named(ip_names(configs@), geo_source_name()),
{
    let ghost ns = ip_names(configs@);
    let name = geo_source_name_str();
    let mut k: usize = configs.len();
    while k > 0
        invariant
            k <= configs.len(),
            ns == ip_names(configs@),
            ns.len() == configs.len(),
            name@ == geo_source_name(),
            forall|j: int| k <= j < ns.len() ==> ns[j] != name@,
        decreases k,
    {
        assert(ns[k - 1] == configs@[k - 1].name@);
        if str_equal(configs[k - 1].name.as_str(), name) {
            return Some(k - 1);
        }
        k = k - 1;
    }
    None
}

/// The position of the first IP source named like the bypass source.
fn first_ip_source(configs: &Vec<GeoIpSourceConfig>) -> (r: Option<usize>)
    ensures
        r matches Some(i) ==> is_first_named(ip_names(configs@), geo_source_name(), i as int),
        r is None ==> none_named(ip_names(configs@), geo_source_name()),
{
    let ghost ns = ip_names(configs@);
    let name = geo_source_name_str();
    let mut k: usize = 0;
    while k < configs.len()
        invariant
            k <= configs.len(),
            ns == ip_names(configs@),
            ns.len() == configs.len(),
            name@ == geo_source_name(),
            forall|j: int| 0 <= j < k ==> ns[j] != name@,
        decreases configs.len() - k,
    {
        assert(ns[k as int] == configs@[k as int].name@);
        if str_equal(configs[k].name.as_str(), name) {
            return Some(k);
        }
        k = k + 1;
    }
    None
}

/// What to write for the bypass's site source, given the site sources named
/// like it: a new source where there is none; where there is one, the last
/// of them with the bypass's list put back (`None` where it already fits).
pub fn ensure_geo_site_source(configs: &Vec<GeoSiteSourceConfig>, new_id: u128, now: u64) -> (r:
    Option<GeoSiteSourceConfig>)
    ensures
        none_named(site_names(configs@), geo_source_name()) ==> (r matches Some(c) && c.id
            == new_id && c.update_at == now && c.name@ == geo_source_name() && c.enable
            && site_source_written(c.source)),
        forall|i: int|
            #[trigger] is_last_named(site_names(configs@), geo_source_name(), i) ==> {
                if site_source_fits(configs@[i].source) {
                    r is None
                } else {
                    r matches Some(c) && c.id == configs@[i].id && c.update_at == now && c.name@
                        == configs@[i].name@ && c.enable == configs@[i].enable
                        && site_source_written(c.source)
                }
            },
{
    match last_site_source(configs) {
        None => Some(
            GeoSiteSourceConfig {
                id: new_id,
                update_at: now,
                name: string_of(geo_source_name_str()),
                enable: true,
                source: bypass_site_source(),
            },
        ),
        Some(i) => {
            let c = &configs[i];
            if site_source_is_fit(&c.source) {
                None
            } else {
                Some(
                    GeoSiteSourceConfig {
                        id: c.id,
                        update_at: now,
                        name: c.name.clone(),
                        enable: c.enable,
                        source: bypass_site_source(),
                    },
                )
            }
        },
    }
}

/// What to write for the bypass's IP source, given the IP sources named like
/// it, in the same way as for the site source.
pub fn ensure_geo_ip_source(configs: &Vec<GeoIpSourceConfig>, new_id: u128, now: u64) -> (r: Option<
    GeoIpSourceConfig,
>)
    ensures
        none_named(ip_names(configs@), geo_source_name()) ==> (r matches Some(c) && c.id
            == new_id && c.update_at == now && c.name@ == geo_source_name() && c.enable
            && ip_source_written(c.source)),
        forall|i: int|
            #[trigger] is_last_named(ip_names(configs@), geo_source_name(), i) ==> {
                if ip_source_fits(configs@[i].source) {
                    r is None
                } else {
                    r matches Some(c) && c.id == configs@[i].id && c.update_at == now && c.name@
                        == configs@[i].name@ && c.enable == configs@[i].enable
                        && ip_source_written(c.source)
                }
            },
{
    match last_ip_source(configs) {
        None => Some(
            GeoIpSourceConfig {
                id: new_id,
                update_at: now,
                name: string_of(geo_source_name_str()),
                enable: true,
                source: bypass_ip_source(),
            },
        ),
        Some(i) => {
            let c = &configs[i];
            if ip_source_is_fit(&c.source) {
                None
            } else {
                Some(
                    GeoIpSourceConfig {
                        id: c.id,
                        update_at: now,
                        name: c.name.clone(),
                        enable: c.enable,
                        source: bypass_ip_source(),
                    },
                )
            }
        },
    }
}

/// The refresh state of a Geo source, as its service keeps it.
#[derive(Debug)]
pub struct GeoRefreshRuntimeStatus {
    pub last_success_at: Option<u64>,
    pub last_error: Option<String>,
}

/// The report on one rule source of the bypass.
#[derive(Debug)]
pub struct ProxyBypassRuleSourceStatus {
    pub kind: ProxyBypassRuleSourceKind,
    pub name: String,
    pub key: String,
    pub url: Option<String>,
    pub next_update_at: Option<u64>,
    pub cache_exists: bool,
    pub item_count: usize,
    pub last_success_at: Option<u64>,
    pub last_error: Option<String>,
}

/// The report on both rule sources of the bypass.
#[derive(Debug)]
pub struct ProxyBypassRuleSourcesStatus {
    pub domain: ProxyBypassRuleSourceStatus,
    pub ip: ProxyBypassRuleSourceStatus,
}

/// The download link of a site source and when it is next due, where it has one.
pub open spec fn site_source_link(s: GeoSiteSource) -> (Option<Seq<char>>, Option<u64>) {
    match s {
        GeoSiteSource::Url { url, next_update_at, .. } => (Some(url@), Some(next_update_at)),
        GeoSiteSource::AdguardHome { url, next_update_at } => (Some(url@), Some(next_update_at)),
        GeoSiteSource::Direct => (None, None),
    }
}

/// The download link of an IP source and when it is next due, where it has one.
pub open spec fn ip_source_link(s: GeoIpSource) -> (Option<Seq<char>>, Option<u64>) {
    match s {
        GeoIpSource::Url { url, next_update_at, .. } => (Some(url@), Some(next_update_at)),
        GeoIpSource::Direct => (None, None),
    }
}

/// The parts of a report that do not depend on the kind of source: the
/// bypass's names, the cache, the refresh state.
pub open spec fn status_common(
    r: ProxyBypassRuleSourceStatus,
    cache_len: Option<usize>,
    refresh: GeoRefreshRuntimeStatus,
) -> bool {
    &&& r.name@ == geo_source_name()
    &&& r.key@ == geo_cn_key()
    &&& r.cache_exists == cache_len is Some
    &&& r.item_count == (match cache_len {
        Some(n) => n,
        None => 0,
    })
    &&& r.last_success_at == refresh.last_success_at
    &&& opt_view(r.last_error) == opt_view(refresh.last_error)
}

/// The report on the domain source, from the site sources named like the
/// bypass source (the first of them counts), the number of cached Chinese
/// domains (`None` without a cache entry) and the refresh state.
pub fn domain_rule_source_status(
    configs: &Vec<GeoSiteSourceConfig>,
    cache_len: Option<usize>,
    refresh: GeoRefreshRuntimeStatus,
) -> (r: ProxyBypassRuleSourceStatus)
    ensures
        r.kind == ProxyBypassRuleSourceKind::Domain,
        status_common(r, cache_len, refresh),
        none_named(site_names(configs@), geo_source_name()) ==> r.url is None && r.next_update_at
            is None,
        forall|i: int|
            #[trigger] is_first_named(site_names(configs@), geo_source_name(), i) ==> (opt_view(
                r.url,
            ), r.next_update_at) == site_source_link(configs@[i].source),
{
    let (url, next_update_at) = match first_site_source(configs) {
        None => (None, None),
        Some(i) => match &configs[i].source {
            GeoSiteSource::Url { url, next_update_at, .. } => (Some(url.clone()), Some(*next_update_at)),
            GeoSiteSource::AdguardHome { url, next_update_at } => (
                Some(url.clone()),
                Some(*next_update_at),
            ),
            GeoSiteSource::Direct => (None, None),
        },
    };
    let item_count: usize = match cache_len {
        Some(n) => n,
        None => 0,
    };
    ProxyBypassRuleSourceStatus {
        kind: ProxyBypassRuleSourceKind::Domain,
        name: string_of(geo_source_name_str()),
        key: string_of(geo_cn_key_str()),
        url,
        next_update_at,
        cache_exists: cache_len.is_some(),
        item_count,
        last_success_at: refresh.last_success_at,
        last_error: refresh.last_error,
    }
}

/// The report on the IP source, in the same way as for the domain source.
pub fn ip_rule_source_status(
    configs: &Vec<GeoIpSourceConfig>,
    cache_len: Option<usize>,
    refresh: GeoRefreshRuntimeStatus,
) -> (r: ProxyBypassRuleSourceStatus)
    ensures
        r.kind == ProxyBypassRuleSourceKind::Ip,
        status_common(r, cache_len, refresh),
        none_named(ip_names(configs@), geo_source_name()) ==> r.url is None && r.next_update_at
            is None,
        forall|i: int|
            #[trigger] is_first_named(ip_names(configs@), geo_source_name(), i) ==> (opt_view(
                r.url,
            ), r.next_update_at) == ip_source_link(configs@[i].source),
{
    let (url, next_update_at) = match first_ip_source(configs) {
        None => (None, None),
        Some(i) => match &configs[i].source {
            GeoIpSource::Url { url, next_update_at, .. } => (Some(url.clone()), Some(*next_update_at)),
            GeoIpSource::Direct => (None, None),
        },
    };
    let item_count: usize = match cache_len {
        Some(n) => n,
        None => 0,
    };
    ProxyBypassRuleSourceStatus {
        kind: ProxyBypassRuleSourceKind::Ip,
        name: string_of(geo_source_name_str()),
        key: string_of(geo_cn_key_str()),
        url,
        next_update_at,
        cache_exists: cache_len.is_some(),
        item_count,
        last_success_at: refresh.last_success_at,
        last_error: refresh.last_error,
    }
}

/// What the bypass does to a flow's rules when it syncs the flow: the
/// generated rules it deletes, and whether it then writes them anew.
#[derive(Debug)]
pub struct FlowRulePlan {
    pub remove_dns: Vec<u128>,
    pub remove_ip: Vec<u128>,
    pub write: bool,
}

/// The China bypass of proxied flows. The rule and Geo services it works
/// through are reached by the caller, who performs what the bypass decides.
#[derive(Debug)]
pub struct ProxyBypassService {}

impl ProxyBypassService {
    /// The bypass.
    pub fn new() -> (r: Self)
        ensures
            r == (ProxyBypassService {}),
    {
        ProxyBypassService {}
    }

    /// Whether the Geo data must be ready before the flow is used: the flow
    /// is enabled and has a bypass target.
    pub fn flow_needs_geo(&self, flow: &FlowConfig) -> (r: bool)
        ensures
            r == wants_bypass(flow@),
    {
        flow.enable && flow_has_bypass_proxy_target(flow)
    }

    /// The sync of one flow, given its DNS and destination-IP rules: every
    /// generated rule goes, and the flow's rules are written anew exactly
    /// when the flow wants the bypass.
    pub fn sync_plan(&self, flow: &FlowConfig, dns_rules: &Vec<RuleLabel>, ip_rules: &Vec<RuleLabel>) -> (r:
        FlowRulePlan)
        ensures
            r.remove_dns@ == generated_ids(dns_rules@, GeneratedRuleKind::Dns),
            r.remove_ip@ == generated_ids(ip_rules@, GeneratedRuleKind::Ip),
            r.write == wants_bypass(flow@),
    {
        FlowRulePlan {
            remove_dns: generated_rule_ids(dns_rules, GeneratedRuleKind::Dns),
            remove_ip: generated_rule_ids(ip_rules, GeneratedRuleKind::Ip),
            write: self.flow_needs_geo(flow),
        }
    }
}

/// The rule that the bypass writes for a flow carries the mark of a
/// generated rule, so the next sync of the flow deletes it before writing it
/// again (with the same id).
pub proof fn lemma_written_rule_is_generated(kind: GeneratedRuleKind, flow_id: u32)
    ensures
        has_prefix(generated_label(kind, flow_id), generated_prefix(kind)),
{
    let p = generated_prefix(kind);
    assert(generated_label(kind, flow_id).subrange(0, p.len() as int) =~= p);
}

/// The generated rules that a sync deletes are exactly the rules whose label
/// carries the mark: every such rule is deleted, and no other rule is.
pub proof fn lemma_generated_ids_exact(rules: Seq<RuleLabel>, kind: GeneratedRuleKind)
    ensures
        forall|i: int|
            0 <= i < rules.len() && has_prefix((#[trigger] rules[i]).label@, generated_prefix(kind))
                ==> generated_ids(rules, kind).contains(rules[i].id),
        forall|x: u128|
            #[trigger] generated_ids(rules, kind).contains(x) ==> exists|i: int|
                0 <= i < rules.len() && (#[trigger] rules[i]).id == x && has_prefix(
                    rules[i].label@,
                    generated_prefix(kind),
                ),
    decreases rules.len(),
{
    if rules.len() > 0 {
        let init = rules.drop_last();
        lemma_generated_ids_exact(init, kind);
        let rest = generated_ids(init, kind);
        let last = rules.last();
        assert forall|i: int|
            0 <= i < rules.len() && has_prefix((#[trigger] rules[i]).label@, generated_prefix(kind))
                implies generated_ids(rules, kind).contains(rules[i].id) by {
            if i < rules.len() - 1 {
                assert(init[i] == rules[i]);
                let k = choose|k: int| 0 <= k < rest.len() && rest[k] == rules[i].id;
                if has_prefix(last.label@, generated_prefix(kind)) {
                    assert(rest.push(last.id)[k] == rules[i].id);
                }
            } else {
                assert(rest.push(last.id)[rest.len() as int] == last.id);
            }
        }
        assert forall|x: u128|
            #[trigger] generated_ids(rules, kind).contains(x) implies exists|i: int|
                0 <= i < rules.len() && (#[trigger] rules[i]).id == x && has_prefix(
                    rules[i].label@,
                    generated_prefix(kind),
                ) by {
            let g = generated_ids(rules, kind);
            let k = choose|k: int| 0 <= k < g.len() && g[k] == x;
            if has_prefix(last.label@, generated_prefix(kind)) && k == rest.len() {
                assert(rules[rules.len() - 1] == last);
            } else {
                assert(rest[k] == x);
                assert(rest.contains(x));
                let i = choose|i: int| 0 <= i < init.len() && (#[trigger] init[i]).id == x && has_prefix(
                    init[i].label@,
                    generated_prefix(kind),
                );
                assert(rules[i] == init[i]);
            }
        }
    }
}

/// A Geo source as the bypass writes it is one it keeps: ensuring the
/// sources again right after writing them writes nothing.
pub proof fn lemma_written_sources_are_kept(site: GeoSiteSource, ip: GeoIpSource)
    ensures
        site_source_written(site) ==> site_source_fits(site),
        ip_source_written(ip) ==> ip_source_fits(ip),
{
}

} // verus!
