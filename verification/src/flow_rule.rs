//! The rules of the flow store: resolving entry rules against enrolled
//! devices, finding conflicts and duplicates among them, and the filters by
//! which flows are looked up by target.
use vstd::prelude::*;
use std::collections::HashMap;
use std::collections::HashSet;

use crate::flow::{
    EnrolledDevice, FlowConfig, FlowConfigView, FlowEntryMatchMode, FlowEntryRule, FlowTarget,
    FlowTargetView, ResolvedFlowEntryMatchMode, ResolvedFlowEntryRule, RuntimeFlowConfig,
};
use crate::ids::{
    container_name_text, format_uuid_hyphenated, proxy_container_prefix, node_id_of_container_text, proxy_container_name,
    proxy_node_id_from_container_name, proxy_runtime_container_text, uuid_hyphenated_text,
};
use crate::netaddr::{ip_text, ip_to_string, mac_text, mac_to_string};
use crate::text::{has_prefix, str_equal, string_of};

verus! {

broadcast use vstd::std_specs::hash::group_hash_axioms;

/// The enrolled devices, by id.
pub type DevicesById = HashMap<u128, EnrolledDevice>;

/// The errors of the flow store.
#[derive(Debug)]
pub enum LdError {
    ConfigError(String),
}

/// The ids of the devices that the match modes name.
pub open spec fn device_ids_of(modes: Seq<FlowEntryMatchMode>) -> Set<u128> {
    Set::new(
        |id: u128|
            exists|i: int|
                0 <= i < modes.len() && modes[i] == (FlowEntryMatchMode::Device { device_id: id }),
    )
}

/// The first device that a match mode names and that is not enrolled.
pub open spec fn first_missing_device(modes: Seq<FlowEntryMatchMode>, known: Set<u128>) -> Option<
    u128,
>
    decreases modes.len(),
{
    if modes.len() == 0 {
        None
    } else {
        match modes[0] {
            FlowEntryMatchMode::Device { device_id } => if !known.contains(device_id) {
                Some(device_id)
            } else {
                first_missing_device(modes.drop_first(), known)
            },
            _ => first_missing_device(modes.drop_first(), known),
        }
    }
}

/// A match mode with an enrolled device replaced by that device's MAC address;
/// `None` for a device that is not enrolled.
pub open spec fn resolve_mode(mode: FlowEntryMatchMode, devices: Map<u128, EnrolledDevice>) -> Option<
    FlowEntryMatchMode,
> {
    match mode {
        FlowEntryMatchMode::Device { device_id } => if devices.contains_key(device_id) {
            Some(FlowEntryMatchMode::Mac { mac_addr: devices[device_id].mac })
        } else {
            None
        },
        m => Some(m),
    }
}

/// A match mode that names no device, as a resolved match mode.
pub open spec fn as_resolved(mode: FlowEntryMatchMode) -> Option<ResolvedFlowEntryMatchMode> {
    match mode {
        FlowEntryMatchMode::Mac { mac_addr } => Some(ResolvedFlowEntryMatchMode::Mac { mac_addr }),
        FlowEntryMatchMode::Ip { ip, prefix_len } => Some(
            ResolvedFlowEntryMatchMode::Ip { ip, prefix_len },
        ),
        FlowEntryMatchMode::Device { .. } => None,
    }
}

/// An entry rule with its mode resolved against the enrolled devices.
pub open spec fn resolve_rule(rule: FlowEntryRule, devices: Map<u128, EnrolledDevice>) -> Option<
    ResolvedFlowEntryRule,
> {
    match resolve_mode(rule.mode, devices) {
        Some(m) => match as_resolved(m) {
            Some(r) => Some(ResolvedFlowEntryRule { qos: rule.qos, mode: r }),
            None => None,
        },
        None => None,
    }
}

/// The entry rules that resolve, resolved, in order.
pub open spec fn resolve_rules(rules: Seq<FlowEntryRule>, devices: Map<u128, EnrolledDevice>) -> Seq<
    ResolvedFlowEntryRule,
>
    decreases rules.len(),
{
    if rules.len() == 0 {
        Seq::empty()
    } else {
        let rest = resolve_rules(rules.drop_last(), devices);
        match resolve_rule(rules.last(), devices) {
            Some(r) => rest.push(r),
            None => rest,
        }
    }
}

/// The unresolved mode of the first pair whose resolved mode an earlier pair
/// already had.
pub open spec fn first_duplicate(pairs: Seq<(FlowEntryMatchMode, ResolvedFlowEntryMatchMode)>) -> Option<
    FlowEntryMatchMode,
>
    decreases pairs.len(),
{
    if pairs.len() == 0 {
        None
    } else {
        match first_duplicate(pairs.drop_last()) {
            Some(m) => Some(m),
            None => if exists|j: int|
                0 <= j < pairs.len() - 1 && (#[trigger] pairs[j]).1 == pairs.last().1 {
                Some(pairs.last().0)
            } else {
                None
            },
        }
    }
}

/// The target through which a route reaches a flow target: a proxy node is
/// reached through its container's network namespace.
pub open spec fn route_target(t: FlowTargetView) -> FlowTargetView {
    match t {
        FlowTargetView::Proxy { node_id, .. } => FlowTargetView::Netns {
            container_name: container_name_text(node_id),
        },
        other => other,
    }
}

/// The ids of the devices that the match modes name.
pub fn collect_device_ids(modes: &[FlowEntryMatchMode]) -> (r: HashSet<u128>)
    ensures
        r@ == device_ids_of(modes@),
{
    let mut ids: HashSet<u128> = HashSet::new();
    let mut i: usize = 0;
    while i < modes.len()
        invariant
            i <= modes@.len(),
            ids@ == device_ids_of(modes@.subrange(0, i as int)),
        decreases modes.len() - i,
    {
        let ghost before = ids@;
        match modes[i] {
            FlowEntryMatchMode::Device { device_id } => {
                ids.insert(device_id);
            },
            _ => {},
        }
        proof {
            let next = modes@.subrange(0, i + 1);
            let prev = modes@.subrange(0, i as int);
            assert forall|id: u128| #[trigger] ids@.contains(id) == device_ids_of(next).contains(
                id,
            ) by {
                if device_ids_of(next).contains(id) {
                    let k = choose|k: int|
                        0 <= k < next.len() && next[k] == (FlowEntryMatchMode::Device {
                            device_id: id,
                        });
                    if k < i {
                        assert(prev[k] == next[k]);
                    }
                }
                if before.contains(id) {
                    let k = choose|k: int|
                        0 <= k < prev.len() && prev[k] == (FlowEntryMatchMode::Device {
                            device_id: id,
                        });
                    assert(next[k] == prev[k]);
                }
                if ids@.contains(id) && !before.contains(id) {
                    assert(next[i as int] == modes@[i as int]);
                }
            }
            assert(ids@ =~= device_ids_of(next));
        }
        i = i + 1;
    }
    assert(modes@.subrange(0, modes@.len() as int) =~= modes@);
    ids
}

/// The ids of the devices that the entry rules of the flows name.
pub fn device_ids_for_configs(configs: &[FlowConfig]) -> (r: HashSet<u128>)
    ensures
        forall|id: u128|
            r@.contains(id) <==> exists|c: int, k: int|
                0 <= c < configs@.len() && 0 <= k < configs@[c].flow_match_rules@.len()
                    && (#[trigger] configs@[c].flow_match_rules@[k]).mode == (
                FlowEntryMatchMode::Device { device_id: id }),
{
    let mut ids: HashSet<u128> = HashSet::new();
    let mut c: usize = 0;
    while c < configs.len()
        invariant
            c <= configs@.len(),
            forall|id: u128|
                ids@.contains(id) <==> exists|c1: int, k: int|
                    0 <= c1 < c && 0 <= k < configs@[c1].flow_match_rules@.len()
                        && (#[trigger] configs@[c1].flow_match_rules@[k]).mode == (
                    FlowEntryMatchMode::Device { device_id: id }),
        decreases configs.len() - c,
    {
        let rules = &configs[c].flow_match_rules;
        let mut k: usize = 0;
        while k < rules.len()
            invariant
                c < configs@.len(),
                rules@ == configs@[c as int].flow_match_rules@,
                k <= rules@.len(),
                forall|id: u128|
                    ids@.contains(id) <==> (exists|c1: int, k1: int|
                        0 <= c1 < c && 0 <= k1 < configs@[c1].flow_match_rules@.len()
                            && (#[trigger] configs@[c1].flow_match_rules@[k1]).mode == (
                        FlowEntryMatchMode::Device { device_id: id })) || (exists|k1: int|
                        0 <= k1 < k && (#[trigger] rules@[k1]).mode == (
                        FlowEntryMatchMode::Device { device_id: id })),
            decreases rules.len() - k,
        {
            match rules[k].mode {
                FlowEntryMatchMode::Device { device_id } => {
                    ids.insert(device_id);
                },
                _ => {},
            }
            k = k + 1;
        }
        proof {
            assert forall|id: u128|
                ids@.contains(id) <==> exists|c1: int, k1: int|
                    0 <= c1 < c + 1 && 0 <= k1 < configs@[c1].flow_match_rules@.len()
                        && (#[trigger] configs@[c1].flow_match_rules@[k1]).mode == (
                    FlowEntryMatchMode::Device { device_id: id }) by {
                if exists|k1: int|
                    0 <= k1 < k && (#[trigger] rules@[k1]).mode == (FlowEntryMatchMode::Device {
                        device_id: id,
                    }) {
                    let k1 = choose|k1: int|
                        0 <= k1 < k && (#[trigger] rules@[k1]).mode == (
                        FlowEntryMatchMode::Device { device_id: id });
                    assert(configs@[c as int].flow_match_rules@[k1] == rules@[k1]);
                }
                if exists|c1: int, k1: int|
                    0 <= c1 < c + 1 && 0 <= k1 < configs@[c1].flow_match_rules@.len()
                        && (#[trigger] configs@[c1].flow_match_rules@[k1]).mode == (
                    FlowEntryMatchMode::Device { device_id: id }) {
                    let (c1, k1) = choose|c1: int, k1: int|
                        0 <= c1 < c + 1 && 0 <= k1 < configs@[c1].flow_match_rules@.len()
                            && (#[trigger] configs@[c1].flow_match_rules@[k1]).mode == (
                        FlowEntryMatchMode::Device { device_id: id });
                    if c1 == c {
                        assert(rules@[k1] == configs@[c1].flow_match_rules@[k1]);
                    }
                }
            }
        }
        c = c + 1;
    }
    ids
}

/// The first device that a match mode names and that is not enrolled.
pub fn find_missing_device_id(modes: &[FlowEntryMatchMode], devices: &DevicesById) -> (r: Option<
    u128,
>)
    ensures
        r == first_missing_device(modes@, devices@.dom()),
{
    let mut i: usize = 0;
    assert(modes@.subrange(0, modes@.len() as int) =~= modes@);
    while i < modes.len()
        invariant
            i <= modes@.len(),
            first_missing_device(modes@, devices@.dom()) == first_missing_device(
                modes@.subrange(i as int, modes@.len() as int),
                devices@.dom(),
            ),
        decreases modes.len() - i,
    {
        let ghost rest = modes@.subrange(i as int, modes@.len() as int);
        assert(rest.drop_first() =~= modes@.subrange(i + 1, modes@.len() as int));
        assert(rest[0] == modes@[i as int]);
        match modes[i] {
            FlowEntryMatchMode::Device { device_id } => {
                if !devices.contains_key(&device_id) {
                    return Some(device_id);
                }
            },
            _ => {},
        }
        i = i + 1;
    }
    None
}

/// An entry rule with its mode resolved; `None` for a device that is not enrolled.
pub fn resolve_flow_entry_rule(rule: FlowEntryRule, devices: &DevicesById) -> (r: Option<
    ResolvedFlowEntryRule,
>)
    ensures
        r == resolve_rule(rule, devices@),
{
    match rule.mode {
        FlowEntryMatchMode::Device { device_id } => {
            match devices.get(&device_id) {
                Some(device) => Some(
                    ResolvedFlowEntryRule {
                        qos: rule.qos,
                        mode: ResolvedFlowEntryMatchMode::Mac { mac_addr: device.mac },
                    },
                ),
                None => None,
            }
        },
        FlowEntryMatchMode::Mac { mac_addr } => Some(
            ResolvedFlowEntryRule { qos: rule.qos, mode: ResolvedFlowEntryMatchMode::Mac { mac_addr } },
        ),
        FlowEntryMatchMode::Ip { ip, prefix_len } => Some(
            ResolvedFlowEntryRule {
                qos: rule.qos,
                mode: ResolvedFlowEntryMatchMode::Ip { ip, prefix_len },
            },
        ),
    }
}

/// A match mode with an enrolled device replaced by its MAC address; `None`
/// for a device that is not enrolled.
pub fn resolve_flow_entry_mode(mode: FlowEntryMatchMode, devices: &DevicesById) -> (r: Option<
    FlowEntryMatchMode,
>)
    ensures
        r == resolve_mode(mode, devices@),
{
    match mode {
        FlowEntryMatchMode::Device { device_id } => {
            match devices.get(&device_id) {
                Some(device) => Some(FlowEntryMatchMode::Mac { mac_addr: device.mac }),
                None => None,
            }
        },
        mode => Some(mode),
    }
}

/// A match mode that names no device, as a resolved match mode.
pub fn into_resolved_match_mode(mode: FlowEntryMatchMode) -> (r: Option<ResolvedFlowEntryMatchMode>)
    ensures
        r == as_resolved(mode),
{
    match mode {
        FlowEntryMatchMode::Mac { mac_addr } => Some(ResolvedFlowEntryMatchMode::Mac { mac_addr }),
        FlowEntryMatchMode::Ip { ip, prefix_len } => Some(
            ResolvedFlowEntryMatchMode::Ip { ip, prefix_len },
        ),
        FlowEntryMatchMode::Device { .. } => None,
    }
}

/// The unresolved mode of the first pair whose resolved mode an earlier pair
/// already had.
pub fn find_duplicate_resolved_modes(
    resolved_modes: &[(FlowEntryMatchMode, ResolvedFlowEntryMatchMode)],
) -> (r: Option<FlowEntryMatchMode>)
    ensures
        r == first_duplicate(resolved_modes@),
{
    let mut i: usize = 0;
    while i < resolved_modes.len()
        invariant
            i <= resolved_modes@.len(),
            first_duplicate(resolved_modes@.subrange(0, i as int)) is None,
        decreases resolved_modes.len() - i,
    {
        let ghost pre = resolved_modes@.subrange(0, i as int);
        let ghost next = resolved_modes@.subrange(0, i + 1);
        assert(next.drop_last() =~= pre);
        let mut j: usize = 0;
        while j < i
            invariant
                j <= i < resolved_modes@.len(),
                next == resolved_modes@.subrange(0, i + 1),
                first_duplicate(next.drop_last()) is None,
                forall|k: int| 0 <= k < j ==> (#[trigger] next[k]).1 != next.last().1,
            decreases i - j,
        {
            if resolved_modes[j].1 == resolved_modes[i].1 {
                assert(next[j as int] == resolved_modes@[j as int]);
                assert(0 <= j < next.len() - 1 && next[j as int].1 == next.last().1);
                assert(next.last() == resolved_modes@[i as int]);
                assert(first_duplicate(next) == Some(next.last().0));
                proof {
                    lemma_first_duplicate_prefix(resolved_modes@, i as int);
                }
                return Some(resolved_modes[i].0);
            }
            assert(next[j as int] == resolved_modes@[j as int]);
            j = j + 1;
        }
        i = i + 1;
    }
    assert(resolved_modes@.subrange(0, resolved_modes@.len() as int) =~= resolved_modes@);
    None
}

/// Once a prefix holds a duplicate, the whole sequence reports it.
proof fn lemma_first_duplicate_prefix(
    s: Seq<(FlowEntryMatchMode, ResolvedFlowEntryMatchMode)>,
    i: int,
)
    requires
        0 <= i < s.len(),
        first_duplicate(s.subrange(0, i + 1)) is Some,
    ensures
        first_duplicate(s) == first_duplicate(s.subrange(0, i + 1)),
    decreases s.len(),
{
    if i + 1 < s.len() {
        assert(s.drop_last().subrange(0, i + 1) =~= s.subrange(0, i + 1));
        lemma_first_duplicate_prefix(s.drop_last(), i);
    } else {
        assert(s.subrange(0, i + 1) =~= s);
    }
}

/// The target through which a route reaches `target`.
pub fn resolve_flow_target_for_route(target: &FlowTarget) -> (r: FlowTarget)
    ensures
        r@ == route_target(target@),
{
    match target {
        FlowTarget::Proxy { node_id, .. } => FlowTarget::Netns {
            container_name: proxy_container_name(*node_id),
        },
        target => target.clone(),
    }
}

/// The flows to run and their resolved entry rules: the enabled flows, in
/// order, each with the entry rules that resolve.
pub open spec fn runtime_configs_of(configs: Seq<FlowConfigView>, devices: Map<u128, EnrolledDevice>) -> Seq<
    (u32, Seq<ResolvedFlowEntryRule>),
>
    decreases configs.len(),
{
    if configs.len() == 0 {
        Seq::empty()
    } else {
        let rest = runtime_configs_of(configs.drop_last(), devices);
        let c = configs.last();
        if c.enable {
            rest.push((c.flow_id, resolve_rules(c.flow_match_rules, devices)))
        } else {
            rest
        }
    }
}

/// The abstract value of a flow as the data plane runs it.
pub open spec fn runtime_view(r: RuntimeFlowConfig) -> (u32, Seq<ResolvedFlowEntryRule>) {
    (r.flow_id, r.flow_match_rules@)
}

/// Whether flow `c`, other than `exclude_id`, has an entry rule that resolves
/// to `target`.
pub open spec fn flow_conflicts(
    c: FlowConfigView,
    exclude_id: u128,
    target: FlowEntryMatchMode,
    devices: Map<u128, EnrolledDevice>,
) -> bool {
    &&& c.id != exclude_id
    &&& exists|k: int|
        0 <= k < c.flow_match_rules.len() && resolve_mode(
            (#[trigger] c.flow_match_rules[k]).mode,
            devices,
        ) == Some(target)
}

/// The index of the first flow that conflicts with `target`.
pub open spec fn first_conflict(
    configs: Seq<FlowConfigView>,
    exclude_id: u128,
    target: FlowEntryMatchMode,
    devices: Map<u128, EnrolledDevice>,
) -> Option<int>
    decreases configs.len(),
{
    if configs.len() == 0 {
        None
    } else if flow_conflicts(configs[0], exclude_id, target, devices) {
        Some(0)
    } else {
        match first_conflict(configs.drop_first(), exclude_id, target, devices) {
            Some(i) => Some(i + 1),
            None => None,
        }
    }
}

/// The views of a sequence of flows.
pub open spec fn configs_view(s: Seq<FlowConfig>) -> Seq<FlowConfigView> {
    s.map_values(|c: FlowConfig| c@)
}

/// The first match mode, with the first flow, whose resolution another flow
/// already resolves to: the index of the mode and the index of the flow.
pub open spec fn first_mode_conflict(
    modes: Seq<FlowEntryMatchMode>,
    configs: Seq<FlowConfigView>,
    exclude_id: u128,
    devices: Map<u128, EnrolledDevice>,
) -> Option<(int, int)>
    decreases modes.len(),
{
    if modes.len() == 0 {
        None
    } else {
        let hit = match resolve_mode(modes[0], devices) {
            Some(t) => first_conflict(configs, exclude_id, t, devices),
            None => None,
        };
        match hit {
            Some(c) => Some((0, c)),
            None => match first_mode_conflict(modes.drop_first(), configs, exclude_id, devices) {
                Some((m, c)) => Some((m + 1, c)),
                None => None,
            },
        }
    }
}

/// The message of the error for a device that is not enrolled.
pub open spec fn missing_device_text(id: u128) -> Seq<char> {
    "flow device target "@ + uuid_hyphenated_text(id) + " not found"@
}

/// The match modes paired with what they resolve to.
pub open spec fn resolved_pairs(modes: Seq<FlowEntryMatchMode>, devices: Map<u128, EnrolledDevice>) -> Seq<
    (FlowEntryMatchMode, ResolvedFlowEntryMatchMode),
>
    decreases modes.len(),
{
    if modes.len() == 0 {
        Seq::empty()
    } else {
        let rest = resolved_pairs(modes.drop_last(), devices);
        match resolve_mode(modes.last(), devices) {
            Some(m) => match as_resolved(m) {
                Some(r) => rest.push((modes.last(), r)),
                None => rest,
            },
            None => rest,
        }
    }
}

/// The error for a device that is not enrolled.
fn missing_device_error(id: u128) -> (e: LdError)
    ensures
        e matches LdError::ConfigError(m) && m@ == missing_device_text(id),
{
    let mut s = string_of("flow device target ");
    s.append(format_uuid_hyphenated(id).as_str());
    s.append(" not found");
    LdError::ConfigError(s)
}

/// The enabled flows, in order, each with those of its entry rules that resolve.
pub fn runtime_configs(configs: &[FlowConfig], devices: &DevicesById) -> (r: Vec<RuntimeFlowConfig>)
    ensures
        r@.map_values(|x: RuntimeFlowConfig| runtime_view(x)) == runtime_configs_of(
            configs_view(configs@),
            devices@,
        ),
{
    let mut result: Vec<RuntimeFlowConfig> = Vec::new();
    let mut i: usize = 0;
    while i < configs.len()
        invariant
            i <= configs@.len(),
            result@.map_values(|x: RuntimeFlowConfig| runtime_view(x)) == runtime_configs_of(
                configs_view(configs@.subrange(0, i as int)),
                devices@,
            ),
        decreases configs.len() - i,
    {
        let ghost prev = configs_view(configs@.subrange(0, i as int));
        let ghost next = configs_view(configs@.subrange(0, i + 1));
        assert(next.drop_last() =~= prev);
        assert(next.last() == configs@[i as int]@);
        let config = &configs[i];
        if config.enable {
            let rules = &config.flow_match_rules;
            let mut resolved: Vec<ResolvedFlowEntryRule> = Vec::new();
            let mut k: usize = 0;
            while k < rules.len()
                invariant
                    k <= rules@.len(),
                    resolved@ == resolve_rules(rules@.subrange(0, k as int), devices@),
                decreases rules.len() - k,
            {
                assert(rules@.subrange(0, k + 1).drop_last() =~= rules@.subrange(0, k as int));
                match resolve_flow_entry_rule(rules[k], devices) {
                    Some(r) => resolved.push(r),
                    None => {},
                }
                k = k + 1;
            }
            assert(rules@.subrange(0, rules@.len() as int) =~= rules@);
            let ghost before = result@;
            result.push(RuntimeFlowConfig { flow_id: config.flow_id, flow_match_rules: resolved });
            assert(result@.map_values(|x: RuntimeFlowConfig| runtime_view(x)) =~= before.map_values(
                |x: RuntimeFlowConfig| runtime_view(x),
            ).push(runtime_view(result@.last())));
        }
        i = i + 1;
    }
    assert(configs@.subrange(0, configs@.len() as int) =~= configs@);
    result
}

/// Whether flow `c`, other than `exclude_id`, has an entry rule that resolves to `target`.
fn config_conflicts(c: &FlowConfig, exclude_id: u128, target: FlowEntryMatchMode, devices: &DevicesById) -> (r:
    bool)
    ensures
        r == flow_conflicts(c@, exclude_id, target, devices@),
{
    if c.id == exclude_id {
        return false;
    }
    let rules = &c.flow_match_rules;
    let mut k: usize = 0;
    while k < rules.len()
        invariant
            k <= rules@.len(),
            rules@ == c@.flow_match_rules,
            c.id != exclude_id,
            forall|j: int| 0 <= j < k ==> resolve_mode(#[trigger] rules@[j].mode, devices@) != Some(target),
        decreases rules.len() - k,
    {
        match resolve_flow_entry_mode(rules[k].mode, devices) {
            Some(m) => {
                if m == target {
                    assert(rules@[k as int] == c@.flow_match_rules[k as int]);
                    assert(resolve_mode(c@.flow_match_rules[k as int].mode, devices@) == Some(target));
                    return true;
                }
            },
            None => {},
        }
        k = k + 1;
    }
    false
}

/// The first flow, other than `exclude_id`, with an entry rule that resolves
/// to what `target` resolves to, as an index.
fn first_conflict_index(
    configs: &[FlowConfig],
    exclude_id: u128,
    target: FlowEntryMatchMode,
    devices: &DevicesById,
) -> (r: Option<usize>)
    ensures
        r matches Some(k) ==> k < configs@.len() && first_conflict(
            configs_view(configs@),
            exclude_id,
            target,
            devices@,
        ) == Some(k as int),
        r is None ==> first_conflict(configs_view(configs@), exclude_id, target, devices@) is None,
{
    let ghost cv = configs_view(configs@);
    let mut i: usize = 0;
    while i < configs.len()
        invariant
            i <= configs@.len(),
            cv == configs_view(configs@),
            forall|j: int| 0 <= j < i ==> !flow_conflicts(#[trigger] cv[j], exclude_id, target, devices@),
        decreases configs.len() - i,
    {
        if config_conflicts(&configs[i], exclude_id, target, devices) {
            proof {
                lemma_first_conflict_at(cv, exclude_id, target, devices@, i as int);
            }
            return Some(i);
        }
        i = i + 1;
    }
    proof {
        lemma_first_conflict_none(cv, exclude_id, target, devices@);
    }
    None
}

/// The first conflict is the first index whose flow conflicts.
proof fn lemma_first_conflict_at(
    cv: Seq<FlowConfigView>,
    exclude_id: u128,
    target: FlowEntryMatchMode,
    devices: Map<u128, EnrolledDevice>,
    i: int,
)
    requires
        0 <= i < cv.len(),
        flow_conflicts(cv[i], exclude_id, target, devices),
        forall|j: int| 0 <= j < i ==> !flow_conflicts(#[trigger] cv[j], exclude_id, target, devices),
    ensures
        first_conflict(cv, exclude_id, target, devices) == Some(i),
    decreases i,
{
    if i > 0 {
        assert(!flow_conflicts(cv[0], exclude_id, target, devices));
        let d = cv.drop_first();
        assert forall|j: int| 0 <= j < i - 1 implies !flow_conflicts(#[trigger] d[j], exclude_id, target, devices) by {
            assert(d[j] == cv[j + 1]);
        }
        lemma_first_conflict_at(d, exclude_id, target, devices, i - 1);
    }
}

/// No flow conflicts, so there is no first conflict.
proof fn lemma_first_conflict_none(
    cv: Seq<FlowConfigView>,
    exclude_id: u128,
    target: FlowEntryMatchMode,
    devices: Map<u128, EnrolledDevice>,
)
    requires
        forall|j: int| 0 <= j < cv.len() ==> !flow_conflicts(#[trigger] cv[j], exclude_id, target, devices),
    ensures
        first_conflict(cv, exclude_id, target, devices) is None,
    decreases cv.len(),
{
    if cv.len() > 0 {
        assert(!flow_conflicts(cv[0], exclude_id, target, devices));
        let d = cv.drop_first();
        assert forall|j: int| 0 <= j < d.len() implies !flow_conflicts(#[trigger] d[j], exclude_id, target, devices) by {
            assert(d[j] == cv[j + 1]);
        }
        lemma_first_conflict_none(d, exclude_id, target, devices);
    }
}

/// The first flow other than `exclude_id` with an entry rule that resolves to
/// what `mode` resolves to; `None` when `mode` names a device that is not
/// enrolled. The devices hold those of all flows and the one `mode` names.
pub fn find_resolved_conflict_by_entry_mode(
    configs: &[FlowConfig],
    devices: &DevicesById,
    exclude_id: u128,
    mode: &FlowEntryMatchMode,
) -> (r: Option<FlowConfig>)
    ensures
        match resolve_mode(*mode, devices@) {
            None => r is None,
            Some(target) => match first_conflict(configs_view(configs@), exclude_id, target, devices@) {
                Some(i) => r is Some && r.unwrap()@ == configs@[i]@,
                None => r is None,
            },
        },
{
    let target = match resolve_flow_entry_mode(*mode, devices) {
        Some(t) => t,
        None => return None,
    };
    match first_conflict_index(configs, exclude_id, target, devices) {
        Some(i) => Some(configs[i].clone()),
        None => None,
    }
}

/// For the first of `modes`, in order, that another flow already resolves to,
/// that mode and the first such flow; an error when one of `modes` names a
/// device that is not enrolled.
pub fn find_resolved_conflict_for_modes(
    configs: &[FlowConfig],
    devices: &DevicesById,
    exclude_id: u128,
    modes: &[FlowEntryMatchMode],
) -> (r: Result<Option<(FlowEntryMatchMode, FlowConfig)>, LdError>)
    ensures
        match first_missing_device(modes@, devices@.dom()) {
            Some(id) => r matches Err(LdError::ConfigError(m)) && m@ == missing_device_text(id),
            None => match first_mode_conflict(modes@, configs_view(configs@), exclude_id, devices@) {
                Some((m, c)) => r matches Ok(Some((mode, config))) && mode == modes@[m]
                    && config@ == configs@[c]@,
                None => r matches Ok(None),
            },
        },
{
    if let Some(device_id) = find_missing_device_id(modes, devices) {
        return Err(missing_device_error(device_id));
    }
    let ghost cv = configs_view(configs@);
    let mut i: usize = 0;
    assert(modes@.subrange(0, modes@.len() as int) =~= modes@);
    while i < modes.len()
        invariant
            i <= modes@.len(),
            cv == configs_view(configs@),
            first_missing_device(modes@, devices@.dom()) is None,
            first_mode_conflict(modes@, cv, exclude_id, devices@) == match first_mode_conflict(
                modes@.subrange(i as int, modes@.len() as int),
                cv,
                exclude_id,
                devices@,
            ) {
                Some((m, c)) => Some((m + i, c)),
                None => None,
            },
        decreases modes.len() - i,
    {
        let ghost rest = modes@.subrange(i as int, modes@.len() as int);
        assert(rest.drop_first() =~= modes@.subrange(i + 1, modes@.len() as int));
        assert(rest[0] == modes@[i as int]);
        if let Some(resolved) = resolve_flow_entry_mode(modes[i], devices) {
            if let Some(c) = first_conflict_index(configs, exclude_id, resolved, devices) {
                assert(first_conflict(cv, exclude_id, resolved, devices@) == Some(c as int));
                assert(first_mode_conflict(rest, cv, exclude_id, devices@) == Some((0int, c as int)));
                let found = configs[c].clone();
                return Ok(Some((modes[i], found)));
            }
        }
        i = i + 1;
    }
    Ok(None)
}

/// The match modes paired with what they resolve to; an error when one names
/// a device that is not enrolled.
pub fn resolve_modes(modes: &[FlowEntryMatchMode], devices: &DevicesById) -> (r: Result<
    Vec<(FlowEntryMatchMode, ResolvedFlowEntryMatchMode)>,
    LdError,
>)
    ensures
        match first_missing_device(modes@, devices@.dom()) {
            Some(id) => r matches Err(LdError::ConfigError(m)) && m@ == missing_device_text(id),
            None => r matches Ok(v) && v@ == resolved_pairs(modes@, devices@),
        },
{
    if let Some(device_id) = find_missing_device_id(modes, devices) {
        return Err(missing_device_error(device_id));
    }
    let mut pairs: Vec<(FlowEntryMatchMode, ResolvedFlowEntryMatchMode)> = Vec::new();
    let mut i: usize = 0;
    while i < modes.len()
        invariant
            i <= modes@.len(),
            pairs@ == resolved_pairs(modes@.subrange(0, i as int), devices@),
        decreases modes.len() - i,
    {
        assert(modes@.subrange(0, i + 1).drop_last() =~= modes@.subrange(0, i as int));
        if let Some(resolved) = resolve_flow_entry_mode(modes[i], devices) {
            if let Some(r) = into_resolved_match_mode(resolved) {
                pairs.push((modes[i], r));
            }
        }
        i = i + 1;
    }
    assert(modes@.subrange(0, modes@.len() as int) =~= modes@);
    Ok(pairs)
}

/// Whether every device that `modes` name is enrolled; the error names the
/// first that is not.
pub fn validate_modes_resolvable(modes: &[FlowEntryMatchMode], devices: &DevicesById) -> (r: Result<
    (),
    LdError,
>)
    ensures
        match first_missing_device(modes@, devices@.dom()) {
            Some(id) => r matches Err(LdError::ConfigError(m)) && m@ == missing_device_text(id),
            None => r is Ok,
        },
{
    if let Some(device_id) = find_missing_device_id(modes, devices) {
        return Err(missing_device_error(device_id));
    }
    Ok(())
}

/// A value bound to a placeholder of an SQL condition.
#[derive(Debug, PartialEq, Eq)]
pub enum SqlValue {
    String(String),
    Int(i32),
}

/// The abstract value of an SQL value.
pub enum SqlValueView {
    String(Seq<char>),
    Int(i32),
}

impl View for SqlValue {
    type V = SqlValueView;

    open spec fn view(&self) -> SqlValueView {
        match self {
            SqlValue::String(s) => SqlValueView::String(s@),
            SqlValue::Int(i) => SqlValueView::Int(*i),
        }
    }
}

/// The views of a sequence of SQL values.
pub open spec fn sql_values_view(s: Seq<SqlValue>) -> Seq<SqlValueView> {
    s.map_values(|v: SqlValue| v@)
}

/// Matches a target that is the interface named by the one parameter.
pub open spec fn sql_interface_target() -> Seq<char> {
    "json_extract(json_each.value, '$.target.t') = 'interface' AND json_extract(json_each.value, '$.target.name') = ?"@
}

/// Matches a target that is the network namespace named by the one parameter.
pub open spec fn sql_netns_target() -> Seq<char> {
    "json_extract(json_each.value, '$.target.t') = 'netns' AND json_extract(json_each.value, '$.target.container_name') = ?"@
}

/// Matches a target that is the proxy node named by the one parameter.
pub open spec fn sql_proxy_target() -> Seq<char> {
    "json_extract(json_each.value, '$.target.t') = 'proxy' AND json_extract(json_each.value, '$.target.node_id') = ?"@
}

/// Matches the namespace named by the first parameter or the proxy node named
/// by the second.
pub open spec fn sql_netns_or_node_target() -> Seq<char> {
    "(\n                        (\n                            json_extract(json_each.value, '$.target.t') = 'netns'\n                            AND json_extract(json_each.value, '$.target.container_name') = ?\n                        )\n                        OR\n                        (\n                            json_extract(json_each.value, '$.target.t') = 'proxy'\n                            AND json_extract(json_each.value, '$.target.node_id') = ?\n                        )\n                    )"@
}

/// Matches the namespace named by the one parameter or any proxy target.
pub open spec fn sql_netns_or_any_proxy_target() -> Seq<char> {
    "(\n                        (\n                            json_extract(json_each.value, '$.target.t') = 'netns'\n                            AND json_extract(json_each.value, '$.target.container_name') = ?\n                        )\n                        OR\n                        (\n                            json_extract(json_each.value, '$.target.t') = 'proxy'\n                        )\n                    )"@
}

/// The condition, and its parameters, under which a stored flow target
/// matches `t`: a proxy node's container also matches the flows that target
/// that node, and the shared runtime container matches every proxy target.
pub open spec fn target_condition(t: FlowTargetView) -> (Seq<char>, Seq<SqlValueView>) {
    match t {
        FlowTargetView::Interface { name } => (
            sql_interface_target(),
            seq![SqlValueView::String(name)],
        ),
        FlowTargetView::Netns { container_name } => match node_id_of_container_text(
            container_name,
        ) {
            Some(node_id) => (
                sql_netns_or_node_target(),
                seq![
                    SqlValueView::String(container_name),
                    SqlValueView::String(uuid_hyphenated_text(node_id)),
                ],
            ),
            None => if container_name == proxy_runtime_container_text() {
                (sql_netns_or_any_proxy_target(), seq![SqlValueView::String(container_name)])
            } else {
                (sql_netns_target(), seq![SqlValueView::String(container_name)])
            },
        },
        FlowTargetView::Proxy { node_id, .. } => (
            sql_proxy_target(),
            seq![SqlValueView::String(uuid_hyphenated_text(node_id))],
        ),
    }
}

/// The filter on the flow table that selects the flows with a target that
/// matches the condition `cond`.
pub open spec fn target_filter(cond: Seq<char>) -> Seq<char> {
    "EXISTS (\n            SELECT 1 FROM json_each(packet_handle_iface_name)\n            WHERE "@ + cond + "\n        )"@
}

/// The condition, and its parameters, under which a stored flow target matches `t`.
pub fn build_target_match_condition(t: FlowTarget) -> (r: (String, Vec<SqlValue>))
    ensures
        (r.0@, sql_values_view(r.1@)) == target_condition(t@),
{
    match t {
        FlowTarget::Interface { name } => {
            let mut params: Vec<SqlValue> = Vec::new();
            params.push(SqlValue::String(name));
            assert(sql_values_view(params@) =~= target_condition(t@).1);
            (string_of("json_extract(json_each.value, '$.target.t') = 'interface' AND json_extract(json_each.value, '$.target.name') = ?"), params)
        },
        FlowTarget::Netns { container_name } => {
            let mut params: Vec<SqlValue> = Vec::new();
            if let Some(node_id) = proxy_node_id_from_container_name(container_name.as_str()) {
                params.push(SqlValue::String(container_name));
                params.push(SqlValue::String(format_uuid_hyphenated(node_id)));
                assert(sql_values_view(params@) =~= target_condition(t@).1);
                (string_of("(\n                        (\n                            json_extract(json_each.value, '$.target.t') = 'netns'\n                            AND json_extract(json_each.value, '$.target.container_name') = ?\n                        )\n                        OR\n                        (\n                            json_extract(json_each.value, '$.target.t') = 'proxy'\n                            AND json_extract(json_each.value, '$.target.node_id') = ?\n                        )\n                    )"), params)
            } else if str_equal(container_name.as_str(), crate::ids::proxy_runtime_container_name()) {
                params.push(SqlValue::String(container_name));
                assert(sql_values_view(params@) =~= target_condition(t@).1);
                (string_of("(\n                        (\n                            json_extract(json_each.value, '$.target.t') = 'netns'\n                            AND json_extract(json_each.value, '$.target.container_name') = ?\n                        )\n                        OR\n                        (\n                            json_extract(json_each.value, '$.target.t') = 'proxy'\n                        )\n                    )"), params)
            } else {
                params.push(SqlValue::String(container_name));
                assert(sql_values_view(params@) =~= target_condition(t@).1);
                (string_of("json_extract(json_each.value, '$.target.t') = 'netns' AND json_extract(json_each.value, '$.target.container_name') = ?"), params)
            }
        },
        FlowTarget::Proxy { node_id, .. } => {
            let mut params: Vec<SqlValue> = Vec::new();
            params.push(SqlValue::String(format_uuid_hyphenated(node_id)));
            assert(sql_values_view(params@) =~= target_condition(t@).1);
            (string_of("json_extract(json_each.value, '$.target.t') = 'proxy' AND json_extract(json_each.value, '$.target.node_id') = ?"), params)
        },
    }
}

/// The filter on the flow table, and its parameters, that selects the flows
/// with a target that matches `t`.
pub fn target_filter_sql(t: FlowTarget) -> (r: (String, Vec<SqlValue>))
    ensures
        r.0@ == target_filter(target_condition(t@).0),
        sql_values_view(r.1@) == target_condition(t@).1,
{
    let (cond, params) = build_target_match_condition(t);
    let mut sql = string_of("EXISTS (\n            SELECT 1 FROM json_each(packet_handle_iface_name)\n            WHERE ");
    sql.append(cond.as_str());
    sql.append("\n        )");
    (sql, params)
}

/// Matches an entry rule on the MAC address given by the one parameter.
pub open spec fn sql_mac_entry() -> Seq<char> {
    "json_extract(json_each.value, '$.mode.t') = 'mac' AND json_extract(json_each.value, '$.mode.mac_addr') = ?"@
}

/// Matches an entry rule on the IP address and prefix length given by the
/// two parameters.
pub open spec fn sql_ip_entry() -> Seq<char> {
    "json_extract(json_each.value, '$.mode.t') = 'ip' AND json_extract(json_each.value, '$.mode.ip') = ? AND json_extract(json_each.value, '$.mode.prefix_len') = ?"@
}

/// Matches an entry rule on the enrolled device given by the one parameter.
pub open spec fn sql_device_entry() -> Seq<char> {
    "json_extract(json_each.value, '$.mode.t') = 'device' AND json_extract(json_each.value, '$.mode.device_id') = ?"@
}

/// The condition, and its parameters, under which a stored entry rule has
/// the match mode `mode`: the address in its text form, the prefix length as
/// an integer, the device by its hyphenated id.
pub open spec fn entry_condition(mode: FlowEntryMatchMode) -> (Seq<char>, Seq<SqlValueView>) {
    match mode {
        FlowEntryMatchMode::Mac { mac_addr } => (
            sql_mac_entry(),
            seq![SqlValueView::String(mac_text(mac_addr))],
        ),
        FlowEntryMatchMode::Ip { ip, prefix_len } => (
            sql_ip_entry(),
            seq![SqlValueView::String(ip_text(ip)), SqlValueView::Int(prefix_len as i32)],
        ),
        FlowEntryMatchMode::Device { device_id } => (
            sql_device_entry(),
            seq![SqlValueView::String(uuid_hyphenated_text(device_id))],
        ),
    }
}

/// The filter on the flow table that selects the flows with an entry rule
/// that matches the condition `cond`.
pub open spec fn entry_filter(cond: Seq<char>) -> Seq<char> {
    "EXISTS (\n            SELECT 1 FROM json_each(flow_match_rules)\n            WHERE "@ + cond + "\n        )"@
}

/// The filter on the flow table, and its parameters, that selects the flows
/// with an entry rule of the match mode `mode` (the lookup behind the
/// conflict check of a flow's entry rules).
pub fn entry_mode_filter_sql(mode: &FlowEntryMatchMode) -> (r: (String, Vec<SqlValue>))
    ensures
        r.0@ == entry_filter(entry_condition(*mode).0),
        sql_values_view(r.1@) == entry_condition(*mode).1,
{
    let mut params: Vec<SqlValue> = Vec::new();
    let cond = match mode {
        FlowEntryMatchMode::Mac { mac_addr } => {
            params.push(SqlValue::String(mac_to_string(*mac_addr)));
            "json_extract(json_each.value, '$.mode.t') = 'mac' AND json_extract(json_each.value, '$.mode.mac_addr') = ?"
        },
        FlowEntryMatchMode::Ip { ip, prefix_len } => {
            params.push(SqlValue::String(ip_to_string(*ip)));
            params.push(SqlValue::Int(*prefix_len as i32));
            "json_extract(json_each.value, '$.mode.t') = 'ip' AND json_extract(json_each.value, '$.mode.ip') = ? AND json_extract(json_each.value, '$.mode.prefix_len') = ?"
        },
        FlowEntryMatchMode::Device { device_id } => {
            params.push(SqlValue::String(format_uuid_hyphenated(*device_id)));
            "json_extract(json_each.value, '$.mode.t') = 'device' AND json_extract(json_each.value, '$.mode.device_id') = ?"
        },
    };
    assert(sql_values_view(params@) =~= entry_condition(*mode).1);
    let mut sql = string_of("EXISTS (\n            SELECT 1 FROM json_each(flow_match_rules)\n            WHERE ");
    sql.append(cond);
    sql.append("\n        )");
    (sql, params)
}

/// The shared runtime container, looked up as a namespace target, matches
/// the flows that name it and every flow with a proxy target.
pub proof fn lemma_runtime_container_matches_every_proxy()
    ensures
        target_condition(FlowTargetView::Netns { container_name: proxy_runtime_container_text() })
            == (sql_netns_or_any_proxy_target(), seq![
            SqlValueView::String(proxy_runtime_container_text()),
        ]),
{
    crate::ids::lemma_runtime_container_is_no_node();
}

/// A proxy node's own container, looked up as a namespace target, matches
/// the flows that name it and the flows whose proxy target is that node.
pub proof fn lemma_node_container_matches_its_node(node_id: u128)
    ensures
        target_condition(FlowTargetView::Netns { container_name: container_name_text(node_id) })
            == (sql_netns_or_node_target(), seq![
            SqlValueView::String(container_name_text(node_id)),
            SqlValueView::String(uuid_hyphenated_text(node_id)),
        ]),
{
    crate::ids::lemma_container_name_roundtrip(node_id);
}

/// Any other container matches only the flows that name it as their namespace.
pub proof fn lemma_plain_container_matches_only_itself(name: Seq<char>)
    requires
        !has_prefix(name, proxy_container_prefix()),
        name != proxy_runtime_container_text(),
    ensures
        target_condition(FlowTargetView::Netns { container_name: name }) == (sql_netns_target(), seq![
            SqlValueView::String(name),
        ]),
{
}

/// Resolving entry rules goes rule by rule and keeps their order: a MAC or
/// IP rule stays as it is; a device rule becomes a MAC rule on the enrolled
/// device's MAC, or is dropped when the device is not enrolled; and every
/// rule that stays keeps its QoS.
pub proof fn lemma_resolve_rules_step(
    rules: Seq<FlowEntryRule>,
    r: FlowEntryRule,
    devices: Map<u128, EnrolledDevice>,
)
    ensures
        resolve_rules(Seq::empty(), devices) == Seq::<ResolvedFlowEntryRule>::empty(),
        resolve_rules(rules.push(r), devices) == resolve_rules(rules, devices) + match r.mode {
            FlowEntryMatchMode::Mac { mac_addr } => seq![
                ResolvedFlowEntryRule { qos: r.qos, mode: ResolvedFlowEntryMatchMode::Mac { mac_addr } },
            ],
            FlowEntryMatchMode::Ip { ip, prefix_len } => seq![
                ResolvedFlowEntryRule {
                    qos: r.qos,
                    mode: ResolvedFlowEntryMatchMode::Ip { ip, prefix_len },
                },
            ],
            FlowEntryMatchMode::Device { device_id } => if devices.contains_key(device_id) {
                seq![
                    ResolvedFlowEntryRule {
                        qos: r.qos,
                        mode: ResolvedFlowEntryMatchMode::Mac { mac_addr: devices[device_id].mac },
                    },
                ]
            } else {
                Seq::<ResolvedFlowEntryRule>::empty()
            },
        },
{
    assert(rules.push(r).drop_last() =~= rules);
    let base = resolve_rules(rules, devices);
    assert(base + Seq::<ResolvedFlowEntryRule>::empty() =~= base);
    match r.mode {
        FlowEntryMatchMode::Mac { mac_addr } => {
            assert(base.push(ResolvedFlowEntryRule { qos: r.qos, mode: ResolvedFlowEntryMatchMode::Mac { mac_addr } }) =~= base + seq![
                ResolvedFlowEntryRule { qos: r.qos, mode: ResolvedFlowEntryMatchMode::Mac { mac_addr } },
            ]);
        },
        FlowEntryMatchMode::Ip { ip, prefix_len } => {
            assert(base.push(ResolvedFlowEntryRule { qos: r.qos, mode: ResolvedFlowEntryMatchMode::Ip { ip, prefix_len } }) =~= base + seq![
                ResolvedFlowEntryRule { qos: r.qos, mode: ResolvedFlowEntryMatchMode::Ip { ip, prefix_len } },
            ]);
        },
        FlowEntryMatchMode::Device { device_id } => {
            if devices.contains_key(device_id) {
                let m = devices[device_id].mac;
                assert(base.push(ResolvedFlowEntryRule { qos: r.qos, mode: ResolvedFlowEntryMatchMode::Mac { mac_addr: m } }) =~= base + seq![
                    ResolvedFlowEntryRule { qos: r.qos, mode: ResolvedFlowEntryMatchMode::Mac { mac_addr: m } },
                ]);
            }
        },
    }
}

/// The data plane runs the enabled flows, in order, each with its id and
/// its entry rules resolved.
pub proof fn lemma_runtime_configs_step(
    configs: Seq<FlowConfigView>,
    c: FlowConfigView,
    devices: Map<u128, EnrolledDevice>,
)
    ensures
        runtime_configs_of(Seq::empty(), devices).len() == 0,
        runtime_configs_of(configs.push(c), devices) == if c.enable {
            runtime_configs_of(configs, devices).push((c.flow_id, resolve_rules(c.flow_match_rules, devices)))
        } else {
            runtime_configs_of(configs, devices)
        },
{
    assert(configs.push(c).drop_last() =~= configs);
}

/// Each placeholder of an entry-rule condition is bound to the value of the
/// column just before it: the condition is the kind test followed by one
/// `column = ?` test per parameter, in the order of the parameters. So an IP
/// rule's first parameter is the address's text (for `$.mode.ip`) and its
/// second the prefix length (for `$.mode.prefix_len`); a MAC rule's one
/// parameter is the address's text, a device rule's the device's id.
pub proof fn lemma_entry_condition_binds_columns(mode: FlowEntryMatchMode)
    ensures
        match mode {
            FlowEntryMatchMode::Mac { mac_addr } => {
                &&& entry_condition(mode).0 == "json_extract(json_each.value, '$.mode.t') = 'mac' AND json_extract(json_each.value, '$.mode.mac_addr') = "@
                    + seq!['?']
                &&& entry_condition(mode).1 == seq![SqlValueView::String(mac_text(mac_addr))]
            },
            FlowEntryMatchMode::Ip { ip, prefix_len } => {
                &&& entry_condition(mode).0 == "json_extract(json_each.value, '$.mode.t') = 'ip' AND json_extract(json_each.value, '$.mode.ip') = "@
                    + seq!['?'] + " AND json_extract(json_each.value, '$.mode.prefix_len') = "@ + seq!['?']
                &&& entry_condition(mode).1 == seq![
                    SqlValueView::String(ip_text(ip)),
                    SqlValueView::Int(prefix_len as i32),
                ]
            },
            FlowEntryMatchMode::Device { device_id } => {
                &&& entry_condition(mode).0 == "json_extract(json_each.value, '$.mode.t') = 'device' AND json_extract(json_each.value, '$.mode.device_id') = "@
                    + seq!['?']
                &&& entry_condition(mode).1 == seq![SqlValueView::String(uuid_hyphenated_text(device_id))]
            },
        },
{
    reveal_strlit("json_extract(json_each.value, '$.mode.t') = 'mac' AND json_extract(json_each.value, '$.mode.mac_addr') = ?");
    reveal_strlit("json_extract(json_each.value, '$.mode.t') = 'mac' AND json_extract(json_each.value, '$.mode.mac_addr') = ");
    reveal_strlit("json_extract(json_each.value, '$.mode.t') = 'ip' AND json_extract(json_each.value, '$.mode.ip') = ? AND json_extract(json_each.value, '$.mode.prefix_len') = ?");
    reveal_strlit("json_extract(json_each.value, '$.mode.t') = 'ip' AND json_extract(json_each.value, '$.mode.ip') = ");
    reveal_strlit(" AND json_extract(json_each.value, '$.mode.prefix_len') = ");
    reveal_strlit("json_extract(json_each.value, '$.mode.t') = 'device' AND json_extract(json_each.value, '$.mode.device_id') = ?");
    reveal_strlit("json_extract(json_each.value, '$.mode.t') = 'device' AND json_extract(json_each.value, '$.mode.device_id') = ");
    assert(sql_mac_entry() =~= "json_extract(json_each.value, '$.mode.t') = 'mac' AND json_extract(json_each.value, '$.mode.mac_addr') = "@
        + seq!['?']);
    assert(sql_ip_entry() =~= "json_extract(json_each.value, '$.mode.t') = 'ip' AND json_extract(json_each.value, '$.mode.ip') = "@
        + seq!['?'] + " AND json_extract(json_each.value, '$.mode.prefix_len') = "@ + seq!['?']);
    assert(sql_device_entry() =~= "json_extract(json_each.value, '$.mode.t') = 'device' AND json_extract(json_each.value, '$.mode.device_id') = "@
        + seq!['?']);
}

/// Whether some entry rule of flow `c` resolves to `target`.
pub open spec fn has_rule_resolving_to(
    c: FlowConfigView,
    target: FlowEntryMatchMode,
    devices: Map<u128, EnrolledDevice>,
) -> bool {
    exists|k: int|
        0 <= k < c.flow_match_rules.len() && #[trigger] resolve_mode(c.flow_match_rules[k].mode, devices)
            == Some(target)
}

/// The conflict found for `target` is the first flow, other than the one
/// being edited, with an entry rule that resolves to `target`; none is
/// found exactly when every flow with such a rule is the one being edited.
pub proof fn lemma_first_conflict_is_first(
    configs: Seq<FlowConfigView>,
    exclude_id: u128,
    target: FlowEntryMatchMode,
    devices: Map<u128, EnrolledDevice>,
)
    ensures
        first_conflict(configs, exclude_id, target, devices) matches Some(i) ==> {
            &&& 0 <= i < configs.len()
            &&& configs[i].id != exclude_id
            &&& has_rule_resolving_to(configs[i], target, devices)
            &&& forall|j: int|
                0 <= j < i && (#[trigger] configs[j]).id != exclude_id ==> !has_rule_resolving_to(
                    configs[j],
                    target,
                    devices,
                )
        },
        first_conflict(configs, exclude_id, target, devices) is None <==> forall|j: int|
            0 <= j < configs.len() && (#[trigger] configs[j]).id != exclude_id ==> !has_rule_resolving_to(
                configs[j],
                target,
                devices,
            ),
    decreases configs.len(),
{
    if configs.len() > 0 {
        let rest = configs.drop_first();
        lemma_first_conflict_is_first(rest, exclude_id, target, devices);
        assert forall|j: int| 0 <= j < rest.len() implies #[trigger] rest[j] == configs[j + 1] by {}
        if !flow_conflicts(configs[0], exclude_id, target, devices) {
            assert forall|j: int|
                0 <= j < configs.len() && (#[trigger] configs[j]).id != exclude_id && (forall|l: int|
                    0 <= l < rest.len() && (#[trigger] rest[l]).id != exclude_id
                        ==> !has_rule_resolving_to(rest[l], target, devices)) implies !has_rule_resolving_to(
                configs[j],
                target,
                devices,
            ) by {
                if j > 0 {
                    assert(rest[j - 1] == configs[j]);
                }
            }
            if first_conflict(configs, exclude_id, target, devices) is None {
                assert forall|j: int|
                    0 <= j < configs.len() && (#[trigger] configs[j]).id != exclude_id implies !has_rule_resolving_to(
                    configs[j],
                    target,
                    devices,
                ) by {
                    if j > 0 {
                        assert(rest[j - 1] == configs[j]);
                    }
                }
            } else {
                let i = first_conflict(rest, exclude_id, target, devices)->Some_0;
                assert(rest[i] == configs[i + 1]);
                assert forall|j: int|
                    0 <= j < i + 1 && (#[trigger] configs[j]).id != exclude_id implies !has_rule_resolving_to(
                    configs[j],
                    target,
                    devices,
                ) by {
                    if j > 0 {
                        assert(rest[j - 1] == configs[j]);
                    }
                }
            }
        }
    }
}

/// Whether two of the pairs resolve to the same mode.
pub open spec fn has_repeated_resolution(pairs: Seq<(FlowEntryMatchMode, ResolvedFlowEntryMatchMode)>) -> bool {
    exists|i: int, j: int| 0 <= i < j < pairs.len() && #[trigger] pairs[i].1 == #[trigger] pairs[j].1
}

/// A duplicate is reported exactly when two of the modes resolve to the
/// same mode, and then it is the unresolved mode of a pair whose resolution
/// an earlier pair already had.
pub proof fn lemma_first_duplicate_is_repeat(pairs: Seq<(FlowEntryMatchMode, ResolvedFlowEntryMatchMode)>)
    ensures
        first_duplicate(pairs) is Some <==> has_repeated_resolution(pairs),
        first_duplicate(pairs) matches Some(m) ==> exists|i: int, j: int|
            0 <= i < j < pairs.len() && #[trigger] pairs[i].1 == #[trigger] pairs[j].1 && pairs[j].0 == m,
    decreases pairs.len(),
{
    if pairs.len() > 0 {
        let rest = pairs.drop_last();
        lemma_first_duplicate_is_repeat(rest);
        assert forall|j: int| 0 <= j < rest.len() implies #[trigger] rest[j] == pairs[j] by {}
        if has_repeated_resolution(rest) {
            let (i, j) = choose|i: int, j: int| 0 <= i < j < rest.len() && #[trigger] rest[i].1 == #[trigger] rest[j].1;
            assert(pairs[i] == rest[i] && pairs[j] == rest[j]);
        }
        if let Some(m) = first_duplicate(rest) {
            let (i, j) = choose|i: int, j: int|
                0 <= i < j < rest.len() && #[trigger] rest[i].1 == #[trigger] rest[j].1 && rest[j].0 == m;
            assert(pairs[i] == rest[i] && pairs[j] == rest[j]);
        }
        if has_repeated_resolution(pairs) && !has_repeated_resolution(rest) {
            let (i, j) = choose|i: int, j: int| 0 <= i < j < pairs.len() && #[trigger] pairs[i].1 == #[trigger] pairs[j].1;
            if j < pairs.len() - 1 {
                assert(rest[i] == pairs[i] && rest[j] == pairs[j]);
            } else {
                assert(0 <= i < pairs.len() - 1 && pairs[i].1 == pairs.last().1);
            }
        }
        if first_duplicate(rest) is None && first_duplicate(pairs) is Some {
            let i = choose|i: int| 0 <= i < pairs.len() - 1 && (#[trigger] pairs[i]).1 == pairs.last().1;
            assert(pairs[i].1 == pairs[pairs.len() - 1].1);
        }
    }
}

/// The first flow, other than `exclude_id`, that has an entry rule resolving
/// to what `mode` resolves to.
pub open spec fn conflict_of_mode(
    mode: FlowEntryMatchMode,
    configs: Seq<FlowConfigView>,
    exclude_id: u128,
    devices: Map<u128, EnrolledDevice>,
) -> Option<int> {
    match resolve_mode(mode, devices) {
        Some(t) => first_conflict(configs, exclude_id, t, devices),
        None => None,
    }
}

/// The conflict reported for a list of modes is that of the first mode, in
/// order, that has one; none is reported exactly when no mode has one.
pub proof fn lemma_first_mode_conflict_is_first(
    modes: Seq<FlowEntryMatchMode>,
    configs: Seq<FlowConfigView>,
    exclude_id: u128,
    devices: Map<u128, EnrolledDevice>,
)
    ensures
        first_mode_conflict(modes, configs, exclude_id, devices) matches Some((m, c)) ==> {
            &&& 0 <= m < modes.len()
            &&& conflict_of_mode(modes[m], configs, exclude_id, devices) == Some(c)
            &&& forall|l: int|
                0 <= l < m ==> conflict_of_mode(#[trigger] modes[l], configs, exclude_id, devices) is None
        },
        first_mode_conflict(modes, configs, exclude_id, devices) is None <==> forall|l: int|
            0 <= l < modes.len() ==> conflict_of_mode(#[trigger] modes[l], configs, exclude_id, devices)
                is None,
    decreases modes.len(),
{
    if modes.len() > 0 {
        let rest = modes.drop_first();
        lemma_first_mode_conflict_is_first(rest, configs, exclude_id, devices);
        assert forall|l: int| 0 <= l < rest.len() implies #[trigger] rest[l] == modes[l + 1] by {}
        if conflict_of_mode(modes[0], configs, exclude_id, devices) is None {
            assert forall|l: int|
                0 <= l < modes.len() && (forall|k: int|
                    0 <= k < rest.len() ==> conflict_of_mode(#[trigger] rest[k], configs, exclude_id, devices)
                        is None) implies conflict_of_mode(#[trigger] modes[l], configs, exclude_id, devices)
                is None by {
                if l > 0 {
                    assert(rest[l - 1] == modes[l]);
                }
            }
            if let Some((m, c)) = first_mode_conflict(rest, configs, exclude_id, devices) {
                assert(rest[m] == modes[m + 1]);
                assert forall|l: int|
                    0 <= l < m + 1 implies conflict_of_mode(#[trigger] modes[l], configs, exclude_id, devices)
                    is None by {
                    if l > 0 {
                        assert(rest[l - 1] == modes[l]);
                    }
                }
            }
        }
    }
}

} // verus!
