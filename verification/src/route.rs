//! The default routes of the router: the set of uplinks that may carry the
//! default route, and the `ip route` commands that install them as one
//! multipath (equal-cost multipath) default route per address family.
use vstd::prelude::*;

use crate::flow::IpAddr;
use crate::netaddr::{ipv4_text, ipv4_to_string, ipv6_text, ipv6_to_string};
use crate::text::{dec_text, decimal_string, string_of};

verus! {

/// How an uplink reaches the next hop of the default route.
#[derive(Clone, Copy, Debug, PartialEq, Eq, Hash, Structural)]
pub enum RouteType {
    Ipv6(u128),
    Ipv4(u32),
    PPP,
}

/// The next hop at an address.
pub open spec fn route_type_of(ip: IpAddr) -> RouteType {
    match ip {
        IpAddr::V4(a) => RouteType::Ipv4(a),
        IpAddr::V6(a) => RouteType::Ipv6(a),
    }
}

impl From<IpAddr> for RouteType {
    fn from(value: IpAddr) -> (r: Self) {
        match value {
            IpAddr::V4(a) => RouteType::Ipv4(a),
            IpAddr::V6(a) => RouteType::Ipv6(a),
        }
    }
}

impl vstd::std_specs::convert::FromSpecImpl<IpAddr> for RouteType {
    open spec fn obeys_from_spec() -> bool {
        true
    }

    open spec fn from_spec(value: IpAddr) -> RouteType {
        route_type_of(value)
    }
}

/// One uplink that may carry the default route, with its weight.
#[derive(Debug, PartialEq, Eq, Hash)]
pub struct RouteInfo {
    pub iface_name: String,
    pub weight: u32,
    pub route: RouteType,
}

/// The abstract value of an uplink.
pub struct RouteInfoView {
    pub iface_name: Seq<char>,
    pub weight: u32,
    pub route: RouteType,
}

impl View for RouteInfo {
    type V = RouteInfoView;

    open spec fn view(&self) -> RouteInfoView {
        RouteInfoView { iface_name: self.iface_name@, weight: self.weight, route: self.route }
    }
}

/// The views of a sequence of uplinks.
pub open spec fn infos_view(s: Seq<RouteInfo>) -> Seq<RouteInfoView> {
    s.map_values(|r: RouteInfo| r@)
}

/// Whether no uplink occurs twice.
pub open spec fn no_duplicates(s: Seq<RouteInfoView>) -> bool {
    forall|i: int, j: int| 0 <= i < j < s.len() ==> #[trigger] s[i] != #[trigger] s[j]
}

/// The `nexthop` arguments of the IPv4 default route, uplink by uplink.
pub open spec fn ipv4_nexthops(s: Seq<RouteInfoView>) -> Seq<Seq<char>>
    decreases s.len(),
{
    if s.len() == 0 {
        Seq::empty()
    } else {
        let rest = ipv4_nexthops(s.drop_last());
        let r = s.last();
        match r.route {
            RouteType::Ipv4(a) => rest + seq![
                "nexthop"@,
                "via"@,
                ipv4_text(a),
                "dev"@,
                r.iface_name,
                "weight"@,
                dec_text(r.weight as nat),
            ],
            RouteType::PPP => rest + seq![
                "nexthop"@,
                "dev"@,
                r.iface_name,
                "weight"@,
                dec_text(r.weight as nat),
            ],
            RouteType::Ipv6(_) => rest,
        }
    }
}

/// The `nexthop` arguments of the IPv6 default route, uplink by uplink.
pub open spec fn ipv6_nexthops(s: Seq<RouteInfoView>) -> Seq<Seq<char>>
    decreases s.len(),
{
    if s.len() == 0 {
        Seq::empty()
    } else {
        let rest = ipv6_nexthops(s.drop_last());
        let r = s.last();
        match r.route {
            RouteType::Ipv6(a) => rest + seq![
                "nexthop"@,
                "via"@,
                ipv6_text(a),
                "dev"@,
                r.iface_name,
                "weight"@,
                dec_text(r.weight as nat),
            ],
            _ => rest,
        }
    }
}

/// The arguments of the `ip` commands that install the default routes of the
/// uplinks: per address family, a multipath default route over its next
/// hops, or the removal of the default route when it has none.
pub open spec fn route_commands_of(s: Seq<RouteInfoView>) -> Seq<Seq<Seq<char>>> {
    let v4 = ipv4_nexthops(s);
    let v6 = ipv6_nexthops(s);
    seq![
        if s.len() > 0 && v4.len() > 0 {
            seq!["route"@, "add"@, "default"@] + v4
        } else {
            seq!["route"@, "del"@, "default"@]
        },
        if s.len() > 0 && v6.len() > 0 {
            seq!["-6"@, "route"@, "add"@, "default"@] + v6
        } else {
            seq!["-6"@, "route"@, "del"@, "default"@]
        },
    ]
}

/// The uplinks after adding `x`: unchanged when it is there already,
/// otherwise with `x` last.
pub open spec fn with_uplink(s: Seq<RouteInfoView>, x: RouteInfoView) -> Seq<RouteInfoView> {
    if s.contains(x) {
        s
    } else {
        s.push(x)
    }
}

/// The uplinks after removing those on the interface `name`, the others in order.
pub open spec fn without_iface(s: Seq<RouteInfoView>, name: Seq<char>) -> Seq<RouteInfoView> {
    s.filter(|x: RouteInfoView| x.iface_name != name)
}

/// Adding an uplink twice is adding it once.
pub proof fn lemma_add_uplink_idempotent(s: Seq<RouteInfoView>, x: RouteInfoView)
    ensures
        with_uplink(with_uplink(s, x), x) == with_uplink(s, x),
{
    if !s.contains(x) {
        assert(s.push(x)[s.len() as int] == x);
    }
}

/// After the uplinks of an interface are removed, none is left on it, and
/// every uplink on another interface is kept.
pub proof fn lemma_remove_iface_removes(s: Seq<RouteInfoView>, name: Seq<char>)
    ensures
        forall|i: int| 0 <= i < without_iface(s, name).len() ==> (#[trigger] without_iface(s, name)[i]).iface_name != name,
        forall|x: RouteInfoView| s.contains(x) && x.iface_name != name ==> #[trigger] without_iface(s, name).contains(x),
{
    let f = |x: RouteInfoView| x.iface_name != name;
    assert forall|i: int| 0 <= i < without_iface(s, name).len() implies (#[trigger] without_iface(s, name)[i]).iface_name != name by {
        s.lemma_filter_pred(f, i);
    }
    assert forall|x: RouteInfoView| s.contains(x) && x.iface_name != name implies #[trigger] without_iface(s, name).contains(x) by {
        let i = choose|i: int| 0 <= i < s.len() && s[i] == x;
        s.lemma_filter_contains(f, i);
    }
}

/// Adding an uplink on an interface that has none and then removing that
/// interface's uplinks gives back the uplinks as they were.
pub proof fn lemma_remove_undoes_add(s: Seq<RouteInfoView>, x: RouteInfoView)
    requires
        forall|i: int| 0 <= i < s.len() ==> (#[trigger] s[i]).iface_name != x.iface_name,
    ensures
        without_iface(with_uplink(s, x), x.iface_name) == s,
{
    let f = |y: RouteInfoView| y.iface_name != x.iface_name;
    assert(!s.contains(x)) by {
        if s.contains(x) {
            let i = choose|i: int| 0 <= i < s.len() && s[i] == x;
            assert(s[i].iface_name != x.iface_name);
        }
    }
    reveal_with_fuel(Seq::filter, 1);
    assert(s.push(x).drop_last() =~= s);
    lemma_filter_all_kept(s, f);
}

proof fn lemma_filter_all_kept(s: Seq<RouteInfoView>, f: spec_fn(RouteInfoView) -> bool)
    requires
        forall|i: int| 0 <= i < s.len() ==> f(#[trigger] s[i]),
    ensures
        s.filter(f) == s,
    decreases s.len(),
{
    reveal_with_fuel(Seq::filter, 1);
    if s.len() > 0 {
        assert forall|i: int| 0 <= i < s.drop_last().len() implies f(#[trigger] s.drop_last()[i]) by {
            assert(s.drop_last()[i] == s[i]);
        }
        lemma_filter_all_kept(s.drop_last(), f);
        assert(s.drop_last().push(s.last()) =~= s);
    } else {
        assert(s.filter(f) =~= s);
    }
}

/// The uplinks that may carry the default route, each once. They are kept
/// as a vector free of duplicates, in the order they were added: an uplink
/// holds a `String`, and a hashed set of such values has no specification
/// that a proof could use.
pub struct DefaultRouterManager {
    infos: Vec<RouteInfo>,
}

impl View for DefaultRouterManager {
    type V = Seq<RouteInfoView>;

    closed spec fn view(&self) -> Seq<RouteInfoView> {
        infos_view(self.infos@)
    }
}

/// The views of the argument lists.
pub open spec fn commands_view(c: Seq<Vec<String>>) -> Seq<Seq<Seq<char>>> {
    c.map_values(|v: Vec<String>| v@.map_values(|s: String| s@))
}

fn push_str(v: &mut Vec<String>, s: &str)
    ensures
        final(v)@.map_values(|x: String| x@) == old(v)@.map_values(|x: String| x@).push(s@),
{
    let ghost before = v@;
    v.push(string_of(s));
    assert(v@.map_values(|x: String| x@) =~= before.map_values(|x: String| x@).push(s@));
}

fn push_string(v: &mut Vec<String>, s: String)
    ensures
        final(v)@.map_values(|x: String| x@) == old(v)@.map_values(|x: String| x@).push(s@),
{
    let ghost before = v@;
    v.push(s);
    assert(v@.map_values(|x: String| x@) =~= before.map_values(|x: String| x@).push(s@));
}

impl DefaultRouterManager {
    /// The manager's invariant: no uplink occurs twice.
    pub closed spec fn wf(&self) -> bool {
        no_duplicates(self@)
    }

    /// A manager without uplinks.
    pub fn new() -> (r: Self)
        ensures
            r.wf(),
            r@ == Seq::<RouteInfoView>::empty(),
    {
        let r = DefaultRouterManager { infos: Vec::new() };
        assert(r@ =~= Seq::<RouteInfoView>::empty());
        r
    }

    /// Adds an uplink, unless it is there already, and returns the commands
    /// that install the default routes.
    pub fn add_route(&mut self, info: RouteInfo) -> (r: Vec<Vec<String>>)
        requires
            old(self).wf(),
        ensures
            final(self).wf(),
            final(self)@ == with_uplink(old(self)@, info@),
            commands_view(r@) == route_commands_of(final(self)@),
    {
        let ghost old_view = self@;
        let mut i: usize = 0;
        let mut present = false;
        while i < self.infos.len()
            invariant
                i <= self.infos@.len(),
                old_view == infos_view(self.infos@),
                present ==> old_view.contains(info@),
                !present ==> forall|k: int| 0 <= k < i ==> old_view[k] != info@,
            decreases self.infos.len() - i,
        {
            let same = self.infos[i].weight == info.weight && self.infos[i].route == info.route
                && crate::text::str_equal(self.infos[i].iface_name.as_str(), info.iface_name.as_str());
            if same {
                assert(old_view[i as int] == info@);
                present = true;
            }
            i = i + 1;
        }
        if !present {
            let ghost iv = info@;
            self.infos.push(info);
            assert(self@ =~= old_view.push(iv));
            assert(!old_view.contains(iv));
        }
        self.default_route_commands()
    }

    /// Removes every uplink on the interface `iface_name`, and returns the
    /// commands that install the default routes.
    pub fn del_route_by_iface(&mut self, iface_name: &str) -> (r: Vec<Vec<String>>)
        requires
            old(self).wf(),
        ensures
            final(self).wf(),
            final(self)@ == without_iface(old(self)@, iface_name@),
            commands_view(r@) == route_commands_of(final(self)@),
    {
        let ghost old_view = self@;
        let mut kept: Vec<RouteInfo> = Vec::new();
        let n = self.infos.len();
        let mut i: usize = 0;
        while i < n
            invariant
                n == self.infos@.len(),
                i <= n,
                infos_view(self.infos@) == old_view,
                no_duplicates(old_view),
                no_duplicates(infos_view(kept@)),
                forall|a: int| 0 <= a < kept@.len() ==> exists|k: int| 0 <= k < i && #[trigger] infos_view(kept@)[a] == old_view[k],
                infos_view(kept@) == old_view.subrange(0, i as int).filter(
                    |x: RouteInfoView| x.iface_name != iface_name@,
                ),
            decreases n - i,
        {
            proof {
                reveal_with_fuel(Seq::filter, 1);
                assert(old_view.subrange(0, i + 1).drop_last() =~= old_view.subrange(0, i as int));
                assert(old_view.subrange(0, i + 1).last() == self.infos@[i as int]@);
            }
            if !crate::text::str_equal(self.infos[i].iface_name.as_str(), iface_name) {
                let copy = RouteInfo {
                    iface_name: self.infos[i].iface_name.clone(),
                    weight: self.infos[i].weight,
                    route: self.infos[i].route,
                };
                let ghost before = kept@;
                let ghost cv = copy@;
                assert(cv == old_view[i as int]);
                kept.push(copy);
                proof {
                    let kv = infos_view(kept@);
                    assert(kv =~= infos_view(before).push(cv));
                    assert forall|a: int, b: int| 0 <= a < b < kv.len() implies #[trigger] kv[a] != #[trigger] kv[b] by {
                        if b == kv.len() - 1 {
                            let k = choose|k: int| 0 <= k < i && #[trigger] infos_view(before)[a] == old_view[k];
                            assert(old_view[k] != old_view[i as int]);
                        } else {
                            assert(infos_view(before)[a] != infos_view(before)[b]);
                        }
                    }
                    assert forall|a: int| 0 <= a < kv.len() implies exists|k: int| 0 <= k < i + 1 && #[trigger] kv[a] == old_view[k] by {
                        if a == kv.len() - 1 {
                            assert(kv[a] == old_view[i as int]);
                        } else {
                            let k = choose|k: int| 0 <= k < i && #[trigger] infos_view(before)[a] == old_view[k];
                            assert(kv[a] == old_view[k]);
                        }
                    }
                }
            }
            i = i + 1;
        }
        assert(old_view.subrange(0, n as int) =~= old_view);
        self.infos = kept;
        self.default_route_commands()
    }

    /// The arguments of the `ip` commands that install the default routes of
    /// the uplinks.
    pub fn default_route_commands(&self) -> (r: Vec<Vec<String>>)
        ensures
            commands_view(r@) == route_commands_of(self@),
    {
        let ghost sv = self@;
        let mut v4: Vec<String> = Vec::new();
        let mut v6: Vec<String> = Vec::new();
        let mut i: usize = 0;
        while i < self.infos.len()
            invariant
                i <= self.infos@.len(),
                sv == infos_view(self.infos@),
                v4@.map_values(|x: String| x@) == ipv4_nexthops(sv.subrange(0, i as int)),
                v6@.map_values(|x: String| x@) == ipv6_nexthops(sv.subrange(0, i as int)),
            decreases self.infos.len() - i,
        {
            proof {
                assert(sv.subrange(0, i + 1).drop_last() =~= sv.subrange(0, i as int));
                assert(sv.subrange(0, i + 1).last() == self.infos@[i as int]@);
            }
            let info = &self.infos[i];
            let ghost b4 = v4@.map_values(|x: String| x@);
            let ghost b6 = v6@.map_values(|x: String| x@);
            match info.route {
                RouteType::Ipv4(a) => {
                    push_str(&mut v4, "nexthop");
                    push_str(&mut v4, "via");
                    push_string(&mut v4, ipv4_to_string(a));
                    push_str(&mut v4, "dev");
                    push_string(&mut v4, info.iface_name.clone());
                    push_str(&mut v4, "weight");
                    push_string(&mut v4, decimal_string(info.weight as u64));
                    assert(v4@.map_values(|x: String| x@) =~= b4 + seq![
                        "nexthop"@,
                        "via"@,
                        ipv4_text(a),
                        "dev"@,
                        info.iface_name@,
                        "weight"@,
                        dec_text(info.weight as nat),
                    ]);
                },
                RouteType::PPP => {
                    push_str(&mut v4, "nexthop");
                    push_str(&mut v4, "dev");
                    push_string(&mut v4, info.iface_name.clone());
                    push_str(&mut v4, "weight");
                    push_string(&mut v4, decimal_string(info.weight as u64));
                    assert(v4@.map_values(|x: String| x@) =~= b4 + seq![
                        "nexthop"@,
                        "dev"@,
                        info.iface_name@,
                        "weight"@,
                        dec_text(info.weight as nat),
                    ]);
                },
                RouteType::Ipv6(a) => {
                    push_str(&mut v6, "nexthop");
                    push_str(&mut v6, "via");
                    push_string(&mut v6, ipv6_to_string(a));
                    push_str(&mut v6, "dev");
                    push_string(&mut v6, info.iface_name.clone());
                    push_str(&mut v6, "weight");
                    push_string(&mut v6, decimal_string(info.weight as u64));
                    assert(v6@.map_values(|x: String| x@) =~= b6 + seq![
                        "nexthop"@,
                        "via"@,
                        ipv6_text(a),
                        "dev"@,
                        info.iface_name@,
                        "weight"@,
                        dec_text(info.weight as nat),
                    ]);
                },
            }
            i = i + 1;
        }
        assert(sv.subrange(0, self.infos@.len() as int) =~= sv);
        let nonempty = self.infos.len() > 0;
        let mut cmd4: Vec<String> = Vec::new();
        if nonempty && v4.len() > 0 {
            push_str(&mut cmd4, "route");
            push_str(&mut cmd4, "add");
            push_str(&mut cmd4, "default");
            let mut k: usize = 0;
            let ghost head = cmd4@.map_values(|x: String| x@);
            while k < v4.len()
                invariant
                    k <= v4@.len(),
                    cmd4@.map_values(|x: String| x@) == head + v4@.map_values(|x: String| x@).subrange(0, k as int),
                decreases v4.len() - k,
            {
                push_string(&mut cmd4, v4[k].clone());
                assert(head + v4@.map_values(|x: String| x@).subrange(0, k + 1) =~= (head + v4@.map_values(|x: String| x@).subrange(0, k as int)).push(v4@[k as int]@));
                k = k + 1;
            }
            assert(v4@.map_values(|x: String| x@).subrange(0, v4@.len() as int) =~= v4@.map_values(|x: String| x@));
        } else {
            push_str(&mut cmd4, "route");
            push_str(&mut cmd4, "del");
            push_str(&mut cmd4, "default");
        }
        let mut cmd6: Vec<String> = Vec::new();
        if nonempty && v6.len() > 0 {
            push_str(&mut cmd6, "-6");
            push_str(&mut cmd6, "route");
            push_str(&mut cmd6, "add");
            push_str(&mut cmd6, "default");
            let mut k: usize = 0;
            let ghost head = cmd6@.map_values(|x: String| x@);
            while k < v6.len()
                invariant
                    k <= v6@.len(),
                    cmd6@.map_values(|x: String| x@) == head + v6@.map_values(|x: String| x@).subrange(0, k as int),
                decreases v6.len() - k,
            {
                push_string(&mut cmd6, v6[k].clone());
                assert(head + v6@.map_values(|x: String| x@).subrange(0, k + 1) =~= (head + v6@.map_values(|x: String| x@).subrange(0, k as int)).push(v6@[k as int]@));
                k = k + 1;
            }
            assert(v6@.map_values(|x: String| x@).subrange(0, v6@.len() as int) =~= v6@.map_values(|x: String| x@));
        } else {
            push_str(&mut cmd6, "-6");
            push_str(&mut cmd6, "route");
            push_str(&mut cmd6, "del");
            push_str(&mut cmd6, "default");
        }
        let ghost c4 = cmd4@.map_values(|x: String| x@);
        let ghost c6 = cmd6@.map_values(|x: String| x@);
        let mut cmds: Vec<Vec<String>> = Vec::new();
        cmds.push(cmd4);
        cmds.push(cmd6);
        assert(commands_view(cmds@) =~= seq![c4, c6]);
        assert(c4 =~= route_commands_of(sv)[0]);
        assert(c6 =~= route_commands_of(sv)[1]);
        assert(commands_view(cmds@) =~= route_commands_of(sv));
        cmds
    }

    /// The uplinks, in the order they were added.
    pub fn routes(&self) -> (r: &Vec<RouteInfo>)
        ensures
            infos_view(r@) == self@,
    {
        &self.infos
    }
}

/// The `nexthop` arguments that one uplink adds to the IPv4 default route.
pub open spec fn ipv4_group(r: RouteInfoView) -> Seq<Seq<char>> {
    match r.route {
        RouteType::Ipv4(a) => seq![
            "nexthop"@,
            "via"@,
            ipv4_text(a),
            "dev"@,
            r.iface_name,
            "weight"@,
            dec_text(r.weight as nat),
        ],
        RouteType::PPP => seq!["nexthop"@, "dev"@, r.iface_name, "weight"@, dec_text(r.weight as nat)],
        RouteType::Ipv6(_) => Seq::empty(),
    }
}

/// The `nexthop` arguments that one uplink adds to the IPv6 default route.
pub open spec fn ipv6_group(r: RouteInfoView) -> Seq<Seq<char>> {
    match r.route {
        RouteType::Ipv6(a) => seq![
            "nexthop"@,
            "via"@,
            ipv6_text(a),
            "dev"@,
            r.iface_name,
            "weight"@,
            dec_text(r.weight as nat),
        ],
        _ => Seq::empty(),
    }
}

/// Whether `part` stands in `whole` from some position on.
pub open spec fn occurs_in(part: Seq<Seq<char>>, whole: Seq<Seq<char>>) -> bool {
    exists|o: int| 0 <= o && o + part.len() <= whole.len() && #[trigger] whole.subrange(o, o + part.len()) == part
}

proof fn lemma_ipv4_groups_occur(s: Seq<RouteInfoView>)
    ensures
        forall|i: int| 0 <= i < s.len() ==> occurs_in(ipv4_group(#[trigger] s[i]), ipv4_nexthops(s)),
        ipv4_nexthops(s).len() == 0 <==> forall|i: int| 0 <= i < s.len() ==> (#[trigger] s[i]).route is Ipv6,
    decreases s.len(),
{
    if s.len() > 0 {
        let rest = s.drop_last();
        lemma_ipv4_groups_occur(rest);
        let v = ipv4_nexthops(s);
        let b = ipv4_nexthops(rest);
        assert(v == b + ipv4_group(s.last()));
        assert forall|i: int| 0 <= i < s.len() implies occurs_in(ipv4_group(#[trigger] s[i]), v) by {
            let g = ipv4_group(s[i]);
            if i < rest.len() {
                assert(rest[i] == s[i]);
                let o = choose|o: int| 0 <= o && o + g.len() <= b.len() && #[trigger] b.subrange(o, o + g.len()) == g;
                assert(v.subrange(o, o + g.len()) =~= g);
            } else {
                assert(v.subrange(b.len() as int, b.len() as int + g.len()) =~= g);
            }
        }
        if v.len() == 0 {
            assert forall|i: int| 0 <= i < s.len() implies (#[trigger] s[i]).route is Ipv6 by {
                if i < rest.len() {
                    assert(rest[i] == s[i]);
                }
            }
        } else if b.len() > 0 {
            let i = choose|i: int| 0 <= i < rest.len() && !((#[trigger] rest[i]).route is Ipv6);
            assert(rest[i] == s[i]);
        } else {
            assert(!(s[s.len() - 1].route is Ipv6));
        }
    }
}

proof fn lemma_ipv6_groups_occur(s: Seq<RouteInfoView>)
    ensures
        forall|i: int| 0 <= i < s.len() ==> occurs_in(ipv6_group(#[trigger] s[i]), ipv6_nexthops(s)),
        ipv6_nexthops(s).len() == 0 <==> forall|i: int| 0 <= i < s.len() ==> !((#[trigger] s[i]).route is Ipv6),
    decreases s.len(),
{
    if s.len() > 0 {
        let rest = s.drop_last();
        lemma_ipv6_groups_occur(rest);
        let v = ipv6_nexthops(s);
        let b = ipv6_nexthops(rest);
        assert(v == b + ipv6_group(s.last()));
        assert forall|i: int| 0 <= i < s.len() implies occurs_in(ipv6_group(#[trigger] s[i]), v) by {
            let g = ipv6_group(s[i]);
            if i < rest.len() {
                assert(rest[i] == s[i]);
                let o = choose|o: int| 0 <= o && o + g.len() <= b.len() && #[trigger] b.subrange(o, o + g.len()) == g;
                assert(v.subrange(o, o + g.len()) =~= g);
            } else {
                assert(v.subrange(b.len() as int, b.len() as int + g.len()) =~= g);
            }
        }
        if v.len() == 0 {
            assert forall|i: int| 0 <= i < s.len() implies !((#[trigger] s[i]).route is Ipv6) by {
                if i < rest.len() {
                    assert(rest[i] == s[i]);
                }
            }
        } else if b.len() > 0 {
            let i = choose|i: int| 0 <= i < rest.len() && (#[trigger] rest[i]).route is Ipv6;
            assert(rest[i] == s[i]);
        } else {
            assert(s[s.len() - 1].route is Ipv6);
        }
    }
}

/// Every uplink has its own next hop in the default route of its family: an
/// IPv4 uplink through its gateway on its interface, a PPP uplink directly
/// on its interface, an IPv6 uplink through its gateway, each with its
/// weight; the uplinks of the other family add nothing. A family whose
/// uplinks add no next hop has its default route removed.
pub proof fn lemma_every_uplink_routed(s: Seq<RouteInfoView>)
    ensures
        forall|i: int| 0 <= i < s.len() ==> occurs_in(ipv4_group(#[trigger] s[i]), ipv4_nexthops(s)),
        forall|i: int| 0 <= i < s.len() ==> occurs_in(ipv6_group(#[trigger] s[i]), ipv6_nexthops(s)),
        ipv4_nexthops(s).len() == 0 <==> forall|i: int| 0 <= i < s.len() ==> (#[trigger] s[i]).route is Ipv6,
        ipv6_nexthops(s).len() == 0 <==> forall|i: int| 0 <= i < s.len() ==> !((#[trigger] s[i]).route is Ipv6),
        route_commands_of(s)[0] == (if ipv4_nexthops(s).len() > 0 {
            seq!["route"@, "add"@, "default"@] + ipv4_nexthops(s)
        } else {
            seq!["route"@, "del"@, "default"@]
        }),
        route_commands_of(s)[1] == (if ipv6_nexthops(s).len() > 0 {
            seq!["-6"@, "route"@, "add"@, "default"@] + ipv6_nexthops(s)
        } else {
            seq!["-6"@, "route"@, "del"@, "default"@]
        }),
{
    lemma_ipv4_groups_occur(s);
    lemma_ipv6_groups_occur(s);
    if s.len() == 0 {
        assert(ipv4_nexthops(s).len() == 0);
        assert(ipv6_nexthops(s).len() == 0);
    }
}

} // verus!
