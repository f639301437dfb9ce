//! The sing-box configuration file: the runtime's configuration as JSON
//! text, laid out as `serde_json` writes it pretty-printed (keys in sorted
//! order, two spaces per level, `": "` after a key).
use vstd::prelude::*;

use crate::singbox::{
    Inbound, InboundKind, InboundView, NodeOutbound, NodeOutboundView, Outbound, OutboundSettings,
    OutboundView, RealityConfig, RealityView, RouteRule, RouteRuleView, SettingsView, SingBoxConfig,
    SingBoxView, TlsConfig, TlsView,
};
use crate::text::{dec_text, hex_char_value, hex_digit_char, hex_digit_str, push_decimal, string_of};

verus! {

/// The JSON escape of one character: quote, backslash and the control
/// characters are escaped, the short forms where JSON has them, `\u00XX`
/// (lowercase hexadecimal) otherwise; every other character stands as it is.
pub open spec fn escape_char(c: char) -> Seq<char> {
    let n = c as u32;
    if c == '"' {
        seq!['\\', '"']
    } else if c == '\\' {
        seq!['\\', '\\']
    } else if n == 8 {
        seq!['\\', 'b']
    } else if n == 9 {
        seq!['\\', 't']
    } else if n == 10 {
        seq!['\\', 'n']
    } else if n == 12 {
        seq!['\\', 'f']
    } else if n == 13 {
        seq!['\\', 'r']
    } else if n < 32 {
        seq!['\\', 'u', '0', '0', hex_digit_char((n / 16) as nat), hex_digit_char((n % 16) as nat)]
    } else {
        seq![c]
    }
}

/// The JSON escape of a text, character by character.
pub open spec fn escape_text(s: Seq<char>) -> Seq<char>
    decreases s.len(),
{
    if s.len() == 0 {
        Seq::empty()
    } else {
        escape_text(s.drop_last()) + escape_char(s.last())
    }
}

/// A JSON string.
pub open spec fn json_string(s: Seq<char>) -> Seq<char> {
    seq!['"'] + escape_text(s) + seq!['"']
}

/// The indentation of a level.
pub open spec fn indent(level: nat) -> Seq<char>
    decreases level,
{
    if level == 0 {
        Seq::empty()
    } else {
        indent((level - 1) as nat) + seq![' ', ' ']
    }
}

/// The members of a container at `level`, each on its own line one level in.
pub open spec fn json_members(items: Seq<Seq<char>>, level: nat) -> Seq<char>
    decreases items.len(),
{
    if items.len() == 0 {
        Seq::empty()
    } else {
        json_members(items.drop_last(), level) + (if items.len() == 1 {
            seq!['\n']
        } else {
            seq![',', '\n']
        }) + indent(level + 1) + items.last()
    }
}

/// A container (object or array) at `level` between `open` and `close`:
/// empty, or its members and the closing bracket on a line of its own.
pub open spec fn json_container(items: Seq<Seq<char>>, level: nat, open: char, close: char) -> Seq<
    char,
> {
    if items.len() == 0 {
        seq![open, close]
    } else {
        seq![open] + json_members(items, level) + seq!['\n'] + indent(level) + seq![close]
    }
}

/// An object at `level` with the given members (`"key": value`, in order).
pub open spec fn json_object(fields: Seq<Seq<char>>, level: nat) -> Seq<char> {
    json_container(fields, level, '{', '}')
}

/// An array at `level` with the given values.
pub open spec fn json_array(items: Seq<Seq<char>>, level: nat) -> Seq<char> {
    json_container(items, level, '[', ']')
}

/// An object member.
pub open spec fn json_field(key: Seq<char>, value: Seq<char>) -> Seq<char> {
    json_string(key) + ": "@ + value
}

/// A member with a string value, where there is one.
pub open spec fn opt_string_field(key: Seq<char>, value: Option<Seq<char>>) -> Seq<Seq<char>> {
    match value {
        Some(v) => seq![json_field(key, json_string(v))],
        None => Seq::empty(),
    }
}

/// Each text as a JSON string.
pub open spec fn quoted(items: Seq<Seq<char>>) -> Seq<Seq<char>> {
    items.map_values(|s: Seq<char>| json_string(s))
}

/// An array of strings at `level`.
pub open spec fn json_string_array(items: Seq<Seq<char>>, level: nat) -> Seq<char> {
    json_array(quoted(items), level)
}

/// The REALITY settings at `level`.
pub open spec fn reality_text(r: RealityView, level: nat) -> Seq<char> {
    json_object(
        seq![json_field("enabled"@, "true"@)] + opt_string_field("public_key"@, r.public_key)
            + opt_string_field("short_id"@, r.short_id),
        level,
    )
}

/// The TLS settings at `level`.
pub open spec fn tls_text(t: TlsView, level: nat) -> Seq<char> {
    json_object(
        seq![json_field("enabled"@, "true"@)] + (match t.reality {
            Some(r) => seq![json_field("reality"@, reality_text(r, level + 1))],
            None => Seq::empty(),
        }) + opt_string_field("server_name"@, t.server_name) + (match t.utls_fingerprint {
            Some(f) => seq![
                json_field(
                    "utls"@,
                    json_object(
                        seq![json_field("enabled"@, "true"@), json_field("fingerprint"@, json_string(f))],
                        level + 1,
                    ),
                ),
            ],
            None => Seq::empty(),
        }),
        level,
    )
}

/// The TLS member, where there are TLS settings.
pub open spec fn opt_tls_field(t: Option<TlsView>, level: nat) -> Seq<Seq<char>> {
    match t {
        Some(t) => seq![json_field("tls"@, tls_text(t, level + 1))],
        None => Seq::empty(),
    }
}

/// The members that every node outbound has.
pub open spec fn endpoint_fields(n: NodeOutboundView) -> Seq<Seq<char>> {
    seq![
        json_field("server"@, json_string(n.server)),
        json_field("server_port"@, dec_text(n.server_port as nat)),
        json_field("tag"@, json_string(n.tag)),
    ]
}

/// The members of a proxy node's outbound at `level`, in key order.
pub open spec fn node_fields(n: NodeOutboundView, level: nat) -> Seq<Seq<char>> {
    match n.settings {
        SettingsView::Vless { uuid, flow, tls } => opt_string_field("flow"@, flow) + endpoint_fields(
            n,
        ) + opt_tls_field(tls, level) + seq![
            json_field("type"@, json_string("vless"@)),
            json_field("uuid"@, json_string(uuid)),
        ],
        SettingsView::Vmess { uuid, alter_id, security, tls } => seq![
            json_field("alter_id"@, dec_text(alter_id as nat)),
        ] + opt_string_field("security"@, security) + endpoint_fields(n) + opt_tls_field(tls, level)
            + seq![
            json_field("type"@, json_string("vmess"@)),
            json_field("uuid"@, json_string(uuid)),
        ],
        SettingsView::Shadowsocks { method, password } => seq![
            json_field("method"@, json_string(method)),
            json_field("password"@, json_string(password)),
        ] + endpoint_fields(n) + seq![json_field("type"@, json_string("shadowsocks"@))],
        SettingsView::Socks { username, password } => opt_string_field("password"@, password)
            + endpoint_fields(n) + seq![json_field("type"@, json_string("socks"@))]
            + opt_string_field("username"@, username),
    }
}

/// The outbound of a proxy node at `level`.
pub open spec fn node_outbound_text(n: NodeOutboundView, level: nat) -> Seq<char> {
    json_object(node_fields(n, level), level)
}

/// An outbound at `level`.
pub open spec fn outbound_text(o: OutboundView, level: nat) -> Seq<char> {
    match o {
        OutboundView::Node(n) => node_outbound_text(n, level),
        OutboundView::Selector { tag, outbounds, default } => json_object(
            seq![
                json_field("default"@, json_string(default)),
                json_field("outbounds"@, json_string_array(outbounds, level + 1)),
                json_field("tag"@, json_string(tag)),
                json_field("type"@, json_string("selector"@)),
            ],
            level,
        ),
        OutboundView::Direct { tag } => json_object(
            seq![json_field("tag"@, json_string(tag)), json_field("type"@, json_string("direct"@))],
            level,
        ),
    }
}

/// The type name of an inbound kind.
pub open spec fn inbound_kind_text(k: InboundKind) -> Seq<char> {
    match k {
        InboundKind::Tproxy => "tproxy"@,
        InboundKind::Mixed => "mixed"@,
    }
}

/// An inbound at `level`.
pub open spec fn inbound_text(i: InboundView, level: nat) -> Seq<char> {
    json_object(
        seq![
            json_field("listen"@, json_string(i.listen)),
            json_field("listen_port"@, dec_text(i.listen_port as nat)),
            json_field("tag"@, json_string(i.tag)),
            json_field("type"@, json_string(inbound_kind_text(i.kind))),
        ],
        level,
    )
}

/// A routing rule at `level`.
pub open spec fn rule_text(r: RouteRuleView, level: nat) -> Seq<char> {
    json_object(
        seq![
            json_field("inbound"@, json_string_array(r.inbound, level + 1)),
            json_field("outbound"@, json_string(r.outbound)),
        ],
        level,
    )
}

/// The fixed logging section: level `info`, with timestamps.
pub open spec fn log_text(level: nat) -> Seq<char> {
    json_object(
        seq![json_field("level"@, json_string("info"@)), json_field("timestamp"@, "true"@)],
        level,
    )
}

/// The inbounds, each at `level`.
pub open spec fn inbound_texts(s: Seq<InboundView>, level: nat) -> Seq<Seq<char>> {
    s.map_values(|i: InboundView| inbound_text(i, level))
}

/// The outbounds, each at `level`.
pub open spec fn outbound_texts(s: Seq<OutboundView>, level: nat) -> Seq<Seq<char>> {
    s.map_values(|o: OutboundView| outbound_text(o, level))
}

/// The routing rules, each at `level`.
pub open spec fn rule_texts(s: Seq<RouteRuleView>, level: nat) -> Seq<Seq<char>> {
    s.map_values(|r: RouteRuleView| rule_text(r, level))
}

/// The routing section: the final outbound and the rules.
pub open spec fn route_text(c: SingBoxView) -> Seq<char> {
    json_object(
        seq![
            json_field("final"@, json_string(c.final_outbound)),
            json_field("rules"@, json_array(rule_texts(c.rules, 3), 2)),
        ],
        1,
    )
}

/// The configuration file's text.
pub open spec fn config_file_text(c: SingBoxView) -> Seq<char> {
    json_object(
        seq![
            json_field("inbounds"@, json_array(inbound_texts(c.inbounds, 2), 1)),
            json_field("log"@, log_text(1)),
            json_field("outbounds"@, json_array(outbound_texts(c.outbounds, 2), 1)),
            json_field("route"@, route_text(c)),
        ],
        0,
    )
}

/// The views of a list of strings.
pub open spec fn texts_view(s: Seq<String>) -> Seq<Seq<char>> {
    s.map_values(|x: String| x@)
}

/// Appends the JSON escape of the character at `i` of `s`.
fn push_escaped_char(out: &mut String, s: &str, i: usize)
    requires
        i < s@.len(),
    ensures
        final(out)@ == old(out)@ + escape_char(s@[i as int]),
{
    proof {
        reveal_strlit("\\\"");
        reveal_strlit("\\\\");
        reveal_strlit("\\b");
        reveal_strlit("\\t");
        reveal_strlit("\\n");
        reveal_strlit("\\f");
        reveal_strlit("\\r");
        reveal_strlit("\\u00");
    }
    let len = s.unicode_len();
    let c = s.get_char(i);
    let n = c as u32;
    if c == '"' {
        out.append("\\\"");
    } else if c == '\\' {
        out.append("\\\\");
    } else if n == 8 {
        out.append("\\b");
    } else if n == 9 {
        out.append("\\t");
    } else if n == 10 {
        out.append("\\n");
    } else if n == 12 {
        out.append("\\f");
    } else if n == 13 {
        out.append("\\r");
    } else if n < 32 {
        out.append("\\u00");
        out.append(hex_digit_str((n / 16) as u8));
        out.append(hex_digit_str((n % 16) as u8));
        assert(final(out)@ =~= old(out)@ + escape_char(s@[i as int]));
    } else {
        let one = s.substring_char(i, i + 1);
        assert(one@ =~= seq![c]);
        out.append(one);
    }
}

/// Appends `s` as a JSON string.
fn push_json_string(out: &mut String, s: &str)
    ensures
        final(out)@ == old(out)@ + json_string(s@),
{
    proof {
        reveal_strlit("\"");
    }
    let ghost start = out@;
    out.append("\"");
    let n = s.unicode_len();
    let mut i: usize = 0;
    while i < n
        invariant
            n == s@.len(),
            i <= n,
            out@ == start + seq!['"'] + escape_text(s@.subrange(0, i as int)),
        decreases n - i,
    {
        let ghost before = out@;
        push_escaped_char(out, s, i);
        assert(s@.subrange(0, i + 1).drop_last() =~= s@.subrange(0, i as int));
        assert(out@ =~= start + seq!['"'] + escape_text(s@.subrange(0, i + 1)));
        i = i + 1;
    }
    out.append("\"");
    assert(s@.subrange(0, n as int) =~= s@);
    assert(out@ =~= start + json_string(s@));
}

/// `s` as a JSON string.
fn json_string_text(s: &str) -> (r: String)
    ensures
        r@ == json_string(s@),
{
    let mut out = String::new();
    push_json_string(&mut out, s);
    assert(out@ =~= json_string(s@));
    out
}

/// Appends the indentation of `level`.
fn push_indent(out: &mut String, level: usize)
    ensures
        final(out)@ == old(out)@ + indent(level as nat),
{
    proof {
        reveal_strlit("  ");
    }
    let ghost start = out@;
    let mut j: usize = 0;
    assert(indent(0) =~= Seq::<char>::empty());
    while j < level
        invariant
            j <= level,
            out@ == start + indent(j as nat),
        decreases level - j,
    {
        let ghost before = out@;
        out.append("  ");
        proof {
            reveal_strlit("  ");
        }
        assert("  "@ =~= seq![' ', ' ']);
        assert(indent((j + 1) as nat) == indent(j as nat) + seq![' ', ' ']);
        assert(out@ =~= start + indent((j + 1) as nat));
        j = j + 1;
    }
}

/// A container at `level` with the given members: an object or an array.
fn json_container_text(items: &Vec<String>, level: usize, object: bool) -> (r: String)
    requires
        level < 1000,
    ensures
        r@ == json_container(
            texts_view(items@),
            level as nat,
            if object { '{' } else { '[' },
            if object { '}' } else { ']' },
        ),
{
    proof {
        reveal_strlit("{");
        reveal_strlit("}");
        reveal_strlit("[");
        reveal_strlit("]");
        reveal_strlit("\n");
        reveal_strlit(",\n");
    }
    let ghost open = if object { '{' } else { '[' };
    let ghost close = if object { '}' } else { ']' };
    let ghost v = texts_view(items@);
    let mut out = if object { string_of("{") } else { string_of("[") };
    let n = items.len();
    let mut i: usize = 0;
    assert(json_members(v.subrange(0, 0), level as nat) =~= Seq::<char>::empty());
    while i < n
        invariant
            n == items@.len(),
            v == texts_view(items@),
            level < 1000,
            i <= n,
            out@ == seq![open] + json_members(v.subrange(0, i as int), level as nat),
        decreases n - i,
    {
        let ghost before = out@;
        if i == 0 {
            out.append("\n");
        } else {
            out.append(",\n");
        }
        push_indent(&mut out, level + 1);
        out.append(items[i].as_str());
        proof {
            let sub = v.subrange(0, i + 1);
            assert(sub.drop_last() =~= v.subrange(0, i as int));
            assert(sub.last() == items@[i as int]@);
            reveal_strlit("\n");
            reveal_strlit(",\n");
            assert("\n"@ =~= seq!['\n']);
            assert(",\n"@ =~= seq![',', '\n']);
            let sep = if i == 0 { seq!['\n'] } else { seq![',', '\n'] };
            assert(json_members(sub, level as nat) == json_members(sub.drop_last(), level as nat) + sep
                + indent((level + 1) as nat) + sub.last());
        }
        assert(out@ =~= seq![open] + json_members(v.subrange(0, i + 1), level as nat));
        i = i + 1;
    }
    assert(v.subrange(0, n as int) =~= v);
    if n == 0 {
        if object {
            out.append("}");
        } else {
            out.append("]");
        }
        assert(out@ =~= seq![open, close]);
    } else {
        out.append("\n");
        push_indent(&mut out, level);
        if object {
            out.append("}");
        } else {
            out.append("]");
        }
    }
    out
}

/// Appends the member `"key": value` to a list of members.
fn push_field(fields: &mut Vec<String>, key: &str, value: &str)
    ensures
        texts_view(final(fields)@) == texts_view(old(fields)@).push(json_field(key@, value@)),
{
    proof {
        reveal_strlit(": ");
    }
    let mut f = json_string_text(key);
    f.append(": ");
    f.append(value);
    let ghost before = fields@;
    fields.push(f);
    assert(texts_view(fields@) =~= texts_view(before).push(json_field(key@, value@)));
}

/// Appends the member `"key": value` with a string value.
fn push_string_field(fields: &mut Vec<String>, key: &str, value: &str)
    ensures
        texts_view(final(fields)@) == texts_view(old(fields)@).push(
            json_field(key@, json_string(value@)),
        ),
{
    let v = json_string_text(value);
    push_field(fields, key, v.as_str());
}

/// Appends the member with a string value, where there is one.
fn push_opt_string_field(fields: &mut Vec<String>, key: &str, value: &Option<String>)
    ensures
        texts_view(final(fields)@) == texts_view(old(fields)@) + opt_string_field(
            key@,
            crate::proxy::opt_view(*value),
        ),
{
    let ghost before = texts_view(fields@);
    match value {
        Some(v) => {
            push_string_field(fields, key, v.as_str());
            assert(texts_view(fields@) =~= before + opt_string_field(key@, crate::proxy::opt_view(*value)));
        },
        None => {
            assert(before =~= before + opt_string_field(key@, crate::proxy::opt_view(*value)));
        },
    }
}

fn json_object_text(fields: &Vec<String>, level: usize) -> (r: String)
    requires
        level < 1000,
    ensures
        r@ == json_object(texts_view(fields@), level as nat),
{
    json_container_text(fields, level, true)
}

fn json_array_text(items: &Vec<String>, level: usize) -> (r: String)
    requires
        level < 1000,
    ensures
        r@ == json_array(texts_view(items@), level as nat),
{
    json_container_text(items, level, false)
}

fn reality_json(r: &RealityConfig, level: usize) -> (t: String)
    requires
        level < 1000,
    ensures
        t@ == reality_text(r@, level as nat),
{
    let mut fields: Vec<String> = Vec::new();
    push_field(&mut fields, "enabled", "true");
    push_opt_string_field(&mut fields, "public_key", &r.public_key);
    push_opt_string_field(&mut fields, "short_id", &r.short_id);
    assert(texts_view(fields@) =~= seq![json_field("enabled"@, "true"@)] + opt_string_field(
        "public_key"@,
        r@.public_key,
    ) + opt_string_field("short_id"@, r@.short_id));
    json_object_text(&fields, level)
}

fn tls_json(t: &TlsConfig, level: usize) -> (r: String)
    requires
        level < 990,
    ensures
        r@ == tls_text(t@, level as nat),
{
    let mut fields: Vec<String> = Vec::new();
    push_field(&mut fields, "enabled", "true");
    let ghost a = texts_view(fields@);
    match &t.reality {
        Some(re) => {
            let v = reality_json(re, level + 1);
            push_field(&mut fields, "reality", v.as_str());
        },
        None => {},
    }
    let ghost b = texts_view(fields@);
    assert(b =~= a + (match t@.reality {
        Some(r) => seq![json_field("reality"@, reality_text(r, (level + 1) as nat))],
        None => Seq::<Seq<char>>::empty(),
    }));
    push_opt_string_field(&mut fields, "server_name", &t.server_name);
    let ghost c = texts_view(fields@);
    match &t.utls_fingerprint {
        Some(f) => {
            let mut inner: Vec<String> = Vec::new();
            push_field(&mut inner, "enabled", "true");
            push_string_field(&mut inner, "fingerprint", f.as_str());
            let o = json_object_text(&inner, level + 1);
            assert(texts_view(inner@) =~= seq![json_field("enabled"@, "true"@), json_field("fingerprint"@, json_string(f@))]);
            push_field(&mut fields, "utls", o.as_str());
        },
        None => {},
    }
    assert(texts_view(fields@) =~= c + (match t@.utls_fingerprint {
        Some(f) => seq![
            json_field(
                "utls"@,
                json_object(
                    seq![json_field("enabled"@, "true"@), json_field("fingerprint"@, json_string(f))],
                    (level + 1) as nat,
                ),
            ),
        ],
        None => Seq::<Seq<char>>::empty(),
    }));
    assert(a =~= seq![json_field("enabled"@, "true"@)]);
    assert(texts_view(fields@) =~= seq![json_field("enabled"@, "true"@)] + (match t@.reality {
        Some(r) => seq![json_field("reality"@, reality_text(r, (level + 1) as nat))],
        None => Seq::<Seq<char>>::empty(),
    }) + opt_string_field("server_name"@, t@.server_name) + (match t@.utls_fingerprint {
        Some(f) => seq![
            json_field(
                "utls"@,
                json_object(
                    seq![json_field("enabled"@, "true"@), json_field("fingerprint"@, json_string(f))],
                    (level + 1) as nat,
                ),
            ),
        ],
        None => Seq::<Seq<char>>::empty(),
    }));
    json_object_text(&fields, level)
}

fn push_opt_tls_field(fields: &mut Vec<String>, t: &Option<TlsConfig>, level: usize)
    requires
        level < 980,
    ensures
        texts_view(final(fields)@) == texts_view(old(fields)@) + opt_tls_field(
            crate::singbox::tls_opt_view(*t),
            level as nat,
        ),
{
    let ghost before = texts_view(fields@);
    match t {
        Some(tc) => {
            let v = tls_json(tc, level + 1);
            push_field(fields, "tls", v.as_str());
            assert(texts_view(fields@) =~= before + opt_tls_field(crate::singbox::tls_opt_view(*t), level as nat));
        },
        None => {
            assert(before =~= before + opt_tls_field(crate::singbox::tls_opt_view(*t), level as nat));
        },
    }
}

fn push_endpoint_fields(fields: &mut Vec<String>, n: &NodeOutbound)
    ensures
        texts_view(final(fields)@) == texts_view(old(fields)@) + endpoint_fields(n@),
{
    let ghost before = texts_view(fields@);
    push_string_field(fields, "server", n.server.as_str());
    let mut port = String::new();
    push_decimal(&mut port, n.server_port as u64);
    push_field(fields, "server_port", port.as_str());
    push_string_field(fields, "tag", n.tag.as_str());
    assert(texts_view(fields@) =~= before + endpoint_fields(n@));
}

fn vless_fields(n: &NodeOutbound, uuid: &String, flow: &Option<String>, tls: &Option<TlsConfig>, level: usize) -> (r: Vec<String>)
    requires
        level < 980,
    ensures
        texts_view(r@) == opt_string_field("flow"@, crate::proxy::opt_view(*flow)) + endpoint_fields(n@)
            + opt_tls_field(crate::singbox::tls_opt_view(*tls), level as nat) + seq![
            json_field("type"@, json_string("vless"@)),
            json_field("uuid"@, json_string(uuid@)),
        ],
{
    let mut fields: Vec<String> = Vec::new();
    push_opt_string_field(&mut fields, "flow", flow);
    push_endpoint_fields(&mut fields, n);
    push_opt_tls_field(&mut fields, tls, level);
    let ghost a = texts_view(fields@);
    push_string_field(&mut fields, "type", "vless");
    push_string_field(&mut fields, "uuid", uuid.as_str());
    assert(texts_view(fields@) =~= a + seq![
        json_field("type"@, json_string("vless"@)),
        json_field("uuid"@, json_string(uuid@)),
    ]);
    fields
}

fn vmess_fields(
    n: &NodeOutbound,
    uuid: &String,
    alter_id: u16,
    security: &Option<String>,
    tls: &Option<TlsConfig>,
    level: usize,
) -> (r: Vec<String>)
    requires
        level < 980,
    ensures
        texts_view(r@) == seq![json_field("alter_id"@, dec_text(alter_id as nat))] + opt_string_field(
            "security"@,
            crate::proxy::opt_view(*security),
        ) + endpoint_fields(n@) + opt_tls_field(crate::singbox::tls_opt_view(*tls), level as nat)
            + seq![
            json_field("type"@, json_string("vmess"@)),
            json_field("uuid"@, json_string(uuid@)),
        ],
{
    let mut fields: Vec<String> = Vec::new();
    let mut a = String::new();
    push_decimal(&mut a, alter_id as u64);
    push_field(&mut fields, "alter_id", a.as_str());
    push_opt_string_field(&mut fields, "security", security);
    push_endpoint_fields(&mut fields, n);
    push_opt_tls_field(&mut fields, tls, level);
    let ghost b = texts_view(fields@);
    push_string_field(&mut fields, "type", "vmess");
    push_string_field(&mut fields, "uuid", uuid.as_str());
    assert(texts_view(fields@) =~= b + seq![
        json_field("type"@, json_string("vmess"@)),
        json_field("uuid"@, json_string(uuid@)),
    ]);
    fields
}

fn shadowsocks_fields(n: &NodeOutbound, method: &String, password: &String) -> (r: Vec<String>)
    ensures
        texts_view(r@) == seq![
            json_field("method"@, json_string(method@)),
            json_field("password"@, json_string(password@)),
        ] + endpoint_fields(n@) + seq![json_field("type"@, json_string("shadowsocks"@))],
{
    let mut fields: Vec<String> = Vec::new();
    push_string_field(&mut fields, "method", method.as_str());
    push_string_field(&mut fields, "password", password.as_str());
    push_endpoint_fields(&mut fields, n);
    let ghost b = texts_view(fields@);
    push_string_field(&mut fields, "type", "shadowsocks");
    assert(texts_view(fields@) =~= b + seq![json_field("type"@, json_string("shadowsocks"@))]);
    fields
}

fn socks_fields(n: &NodeOutbound, username: &Option<String>, password: &Option<String>) -> (r: Vec<String>)
    ensures
        texts_view(r@) == opt_string_field("password"@, crate::proxy::opt_view(*password))
            + endpoint_fields(n@) + seq![json_field("type"@, json_string("socks"@))]
            + opt_string_field("username"@, crate::proxy::opt_view(*username)),
{
    let mut fields: Vec<String> = Vec::new();
    push_opt_string_field(&mut fields, "password", password);
    push_endpoint_fields(&mut fields, n);
    push_string_field(&mut fields, "type", "socks");
    push_opt_string_field(&mut fields, "username", username);
    fields
}

fn node_outbound_json(n: &NodeOutbound, level: usize) -> (r: String)
    requires
        level < 980,
    ensures
        r@ == node_outbound_text(n@, level as nat),
{
    let fields = match &n.settings {
        OutboundSettings::Vless { uuid, flow, tls } => vless_fields(n, uuid, flow, tls, level),
        OutboundSettings::Vmess { uuid, alter_id, security, tls } => vmess_fields(
            n,
            uuid,
            *alter_id,
            security,
            tls,
            level,
        ),
        OutboundSettings::Shadowsocks { method, password } => shadowsocks_fields(n, method, password),
        OutboundSettings::Socks { username, password } => socks_fields(n, username, password),
    };
    assert(texts_view(fields@) == node_fields(n@, level as nat));
    json_object_text(&fields, level)
}

fn string_array_json(items: &Vec<String>, level: usize) -> (r: String)
    requires
        level < 1000,
    ensures
        r@ == json_string_array(texts_view(items@), level as nat),
{
    let ghost iv = texts_view(items@);
    let mut out: Vec<String> = Vec::new();
    let mut i: usize = 0;
    while i < items.len()
        invariant
            i <= items@.len(),
            iv == texts_view(items@),
            texts_view(out@) == quoted(iv.subrange(0, i as int)),
        decreases items.len() - i,
    {
        let ghost before = out@;
        assert(iv[i as int] == items@[i as int]@);
        let x = json_string_text(items[i].as_str());
        let ghost xv = x@;
        out.push(x);
        assert(texts_view(out@) =~= texts_view(before).push(xv));
        assert(quoted(iv.subrange(0, i + 1)) =~= quoted(iv.subrange(0, i as int)).push(json_string(iv[i as int])));
        i = i + 1;
    }
    assert(iv.subrange(0, items@.len() as int) =~= iv);
    json_array_text(&out, level)
}

fn outbound_json(o: &Outbound, level: usize) -> (r: String)
    requires
        level < 980,
    ensures
        r@ == outbound_text(o@, level as nat),
{
    match o {
        Outbound::Node(n) => node_outbound_json(n, level),
        Outbound::Selector { tag, outbounds, default } => {
            let mut fields: Vec<String> = Vec::new();
            push_string_field(&mut fields, "default", default.as_str());
            let list = string_array_json(outbounds, level + 1);
            push_field(&mut fields, "outbounds", list.as_str());
            push_string_field(&mut fields, "tag", tag.as_str());
            push_string_field(&mut fields, "type", "selector");
            assert(texts_view(fields@) =~= seq![
                json_field("default"@, json_string(default@)),
                json_field("outbounds"@, json_string_array(crate::singbox::strings_view(outbounds@), (level + 1) as nat)),
                json_field("tag"@, json_string(tag@)),
                json_field("type"@, json_string("selector"@)),
            ]);
            json_object_text(&fields, level)
        },
        Outbound::Direct { tag } => {
            let mut fields: Vec<String> = Vec::new();
            push_string_field(&mut fields, "tag", tag.as_str());
            push_string_field(&mut fields, "type", "direct");
            assert(texts_view(fields@) =~= seq![json_field("tag"@, json_string(tag@)), json_field("type"@, json_string("direct"@))]);
            json_object_text(&fields, level)
        },
    }
}

fn inbound_json(i: &Inbound, level: usize) -> (r: String)
    requires
        level < 1000,
    ensures
        r@ == inbound_text(i@, level as nat),
{
    let mut fields: Vec<String> = Vec::new();
    push_string_field(&mut fields, "listen", i.listen.as_str());
    let mut port = String::new();
    push_decimal(&mut port, i.listen_port as u64);
    push_field(&mut fields, "listen_port", port.as_str());
    push_string_field(&mut fields, "tag", i.tag.as_str());
    let kind = match i.kind {
        InboundKind::Tproxy => "tproxy",
        InboundKind::Mixed => "mixed",
    };
    push_string_field(&mut fields, "type", kind);
    assert(texts_view(fields@) =~= seq![
        json_field("listen"@, json_string(i@.listen)),
        json_field("listen_port"@, dec_text(i@.listen_port as nat)),
        json_field("tag"@, json_string(i@.tag)),
        json_field("type"@, json_string(inbound_kind_text(i@.kind))),
    ]);
    json_object_text(&fields, level)
}

fn rule_json(r: &RouteRule, level: usize) -> (t: String)
    requires
        level < 990,
    ensures
        t@ == rule_text(r@, level as nat),
{
    let mut fields: Vec<String> = Vec::new();
    let list = string_array_json(&r.inbound, level + 1);
    push_field(&mut fields, "inbound", list.as_str());
    push_string_field(&mut fields, "outbound", r.outbound.as_str());
    assert(texts_view(fields@) =~= seq![
        json_field("inbound"@, json_string_array(r@.inbound, (level + 1) as nat)),
        json_field("outbound"@, json_string(r@.outbound)),
    ]);
    json_object_text(&fields, level)
}

fn inbound_items(v: &Vec<Inbound>) -> (r: Vec<String>)
    ensures
        texts_view(r@) == inbound_texts(crate::singbox::inbounds_view(v@), 2),
{
    let ghost cv = crate::singbox::inbounds_view(v@);
    let mut items: Vec<String> = Vec::new();
    let mut i: usize = 0;
    while i < v.len()
        invariant
            i <= v@.len(),
            cv == crate::singbox::inbounds_view(v@),
            texts_view(items@) == inbound_texts(cv.subrange(0, i as int), 2),
        decreases v.len() - i,
    {
        assert(cv[i as int] == v@[i as int]@);
        let ghost before = items@;
        let x = inbound_json(&v[i], 2);
        let ghost xv = x@;
        items.push(x);
        assert(texts_view(items@) =~= texts_view(before).push(xv));
        assert(inbound_texts(cv.subrange(0, i + 1), 2) =~= inbound_texts(cv.subrange(0, i as int), 2).push(
            inbound_text(cv[i as int], 2),
        ));
        i = i + 1;
    }
    assert(cv.subrange(0, v@.len() as int) =~= cv);
    items
}

fn outbound_items(v: &Vec<Outbound>) -> (r: Vec<String>)
    ensures
        texts_view(r@) == outbound_texts(crate::singbox::outbounds_view(v@), 2),
{
    let ghost cv = crate::singbox::outbounds_view(v@);
    let mut items: Vec<String> = Vec::new();
    let mut i: usize = 0;
    while i < v.len()
        invariant
            i <= v@.len(),
            cv == crate::singbox::outbounds_view(v@),
            texts_view(items@) == outbound_texts(cv.subrange(0, i as int), 2),
        decreases v.len() - i,
    {
        assert(cv[i as int] == v@[i as int]@);
        let ghost before = items@;
        let x = outbound_json(&v[i], 2);
        let ghost xv = x@;
        items.push(x);
        assert(texts_view(items@) =~= texts_view(before).push(xv));
        assert(outbound_texts(cv.subrange(0, i + 1), 2) =~= outbound_texts(cv.subrange(0, i as int), 2).push(
            outbound_text(cv[i as int], 2),
        ));
        i = i + 1;
    }
    assert(cv.subrange(0, v@.len() as int) =~= cv);
    items
}

fn rule_items(v: &Vec<RouteRule>) -> (r: Vec<String>)
    ensures
        texts_view(r@) == rule_texts(crate::singbox::rules_view(v@), 3),
{
    let ghost cv = crate::singbox::rules_view(v@);
    let mut items: Vec<String> = Vec::new();
    let mut i: usize = 0;
    while i < v.len()
        invariant
            i <= v@.len(),
            cv == crate::singbox::rules_view(v@),
            texts_view(items@) == rule_texts(cv.subrange(0, i as int), 3),
        decreases v.len() - i,
    {
        assert(cv[i as int] == v@[i as int]@);
        let ghost before = items@;
        let x = rule_json(&v[i], 3);
        let ghost xv = x@;
        items.push(x);
        assert(texts_view(items@) =~= texts_view(before).push(xv));
        assert(rule_texts(cv.subrange(0, i + 1), 3) =~= rule_texts(cv.subrange(0, i as int), 3).push(
            rule_text(cv[i as int], 3),
        ));
        i = i + 1;
    }
    assert(cv.subrange(0, v@.len() as int) =~= cv);
    items
}

fn log_json() -> (r: String)
    ensures
        r@ == log_text(1),
{
    let mut log: Vec<String> = Vec::new();
    push_string_field(&mut log, "level", "info");
    push_field(&mut log, "timestamp", "true");
    assert(texts_view(log@) =~= seq![json_field("level"@, json_string("info"@)), json_field("timestamp"@, "true"@)]);
    json_object_text(&log, 1)
}

fn route_json(c: &SingBoxConfig) -> (r: String)
    ensures
        r@ == route_text(c@),
{
    let mut route: Vec<String> = Vec::new();
    push_string_field(&mut route, "final", c.final_outbound.as_str());
    let rules = rule_items(&c.rules);
    let rules_text = json_array_text(&rules, 2);
    push_field(&mut route, "rules", rules_text.as_str());
    assert(texts_view(route@) =~= seq![
        json_field("final"@, json_string(c@.final_outbound)),
        json_field("rules"@, json_array(rule_texts(c@.rules, 3), 2)),
    ]);
    json_object_text(&route, 1)
}

/// The sing-box configuration file for the runtime's configuration: the
/// inbounds, the fixed logging section (level `info`, with timestamps), the
/// outbounds, and the routing rules with the final outbound.
pub fn sing_box_config_file(c: &SingBoxConfig) -> (r: String)
    ensures
        r@ == config_file_text(c@),
{
    let mut top: Vec<String> = Vec::new();
    let inbounds = inbound_items(&c.inbounds);
    let inbounds_text = json_array_text(&inbounds, 1);
    push_field(&mut top, "inbounds", inbounds_text.as_str());
    let log = log_json();
    push_field(&mut top, "log", log.as_str());
    let outbounds = outbound_items(&c.outbounds);
    let outbounds_text = json_array_text(&outbounds, 1);
    push_field(&mut top, "outbounds", outbounds_text.as_str());
    let route = route_json(c);
    push_field(&mut top, "route", route.as_str());
    assert(texts_view(top@) =~= seq![
        json_field("inbounds"@, json_array(inbound_texts(c@.inbounds, 2), 1)),
        json_field("log"@, log_text(1)),
        json_field("outbounds"@, json_array(outbound_texts(c@.outbounds, 2), 1)),
        json_field("route"@, route_text(c@)),
    ]);
    json_object_text(&top, 0)
}

/// Whether `fields` has the member `key` with the value text `value`.
pub open spec fn has_member(fields: Seq<Seq<char>>, key: Seq<char>, value: Seq<char>) -> bool {
    fields.contains(json_field(key, value))
}

/// The endpoint members stand right after the first `skip` members.
proof fn lemma_endpoint_members_at(n: NodeOutboundView, f: Seq<Seq<char>>, skip: int)
    requires
        0 <= skip,
        skip + 3 <= f.len(),
        f.subrange(skip, skip + 3) == endpoint_fields(n),
    ensures
        has_member(f, "server"@, json_string(n.server)),
        has_member(f, "server_port"@, dec_text(n.server_port as nat)),
        has_member(f, "tag"@, json_string(n.tag)),
{
    let e = endpoint_fields(n);
    assert(f[skip] == e[0]);
    assert(f[skip + 1] == e[1]);
    assert(f[skip + 2] == e[2]);
}

#[verifier::spinoff_prover]
proof fn lemma_vless_members(n: NodeOutboundView, level: nat)
    requires
        n.settings is Vless,
    ensures
        has_member(node_fields(n, level), "server"@, json_string(n.server)),
        has_member(node_fields(n, level), "server_port"@, dec_text(n.server_port as nat)),
        has_member(node_fields(n, level), "tag"@, json_string(n.tag)),
        n.settings matches SettingsView::Vless { uuid, flow, tls } ==> {
            &&& has_member(node_fields(n, level), "type"@, json_string("vless"@))
            &&& has_member(node_fields(n, level), "uuid"@, json_string(uuid))
            &&& flow matches Some(f) ==> has_member(node_fields(n, level), "flow"@, json_string(f))
            &&& tls matches Some(t) ==> has_member(node_fields(n, level), "tls"@, tls_text(t, level + 1))
        },
{
    if let SettingsView::Vless { uuid, flow, tls } = n.settings {
        let a = opt_string_field("flow"@, flow);
        let t = opt_tls_field(tls, level);
        let rest = seq![
            json_field("type"@, json_string("vless"@)),
            json_field("uuid"@, json_string(uuid)),
        ];
        let f = node_fields(n, level);
        let al: int = a.len() as int;
        let tl: int = t.len() as int;
        assert(f == a + endpoint_fields(n) + t + rest);
        assert(f.subrange(al, al + 3) =~= endpoint_fields(n));
        lemma_endpoint_members_at(n, f, al);
        assert(f[al + 3 + tl] == rest[0]);
        assert(f[al + 3 + tl + 1] == rest[1]);
        if flow is Some {
            assert(f[0] == a[0]);
        }
        if tls is Some {
            assert(f[al + 3] == t[0]);
        }
    }
}

#[verifier::spinoff_prover]
proof fn lemma_vmess_members(n: NodeOutboundView, level: nat)
    requires
        n.settings is Vmess,
    ensures
        has_member(node_fields(n, level), "server"@, json_string(n.server)),
        has_member(node_fields(n, level), "server_port"@, dec_text(n.server_port as nat)),
        has_member(node_fields(n, level), "tag"@, json_string(n.tag)),
        n.settings matches SettingsView::Vmess { uuid, alter_id, security, tls } ==> {
            &&& has_member(node_fields(n, level), "type"@, json_string("vmess"@))
            &&& has_member(node_fields(n, level), "uuid"@, json_string(uuid))
            &&& has_member(node_fields(n, level), "alter_id"@, dec_text(alter_id as nat))
            &&& security matches Some(c) ==> has_member(node_fields(n, level), "security"@, json_string(c))
            &&& tls matches Some(t) ==> has_member(node_fields(n, level), "tls"@, tls_text(t, level + 1))
        },
{
    if let SettingsView::Vmess { uuid, alter_id, security, tls } = n.settings {
        let head = seq![json_field("alter_id"@, dec_text(alter_id as nat))];
        let a = opt_string_field("security"@, security);
        let t = opt_tls_field(tls, level);
        let rest = seq![
            json_field("type"@, json_string("vmess"@)),
            json_field("uuid"@, json_string(uuid)),
        ];
        let f = node_fields(n, level);
        let al: int = a.len() as int;
        let tl: int = t.len() as int;
        assert(f == head + a + endpoint_fields(n) + t + rest);
        assert(f.subrange(1 + al, 1 + al + 3) =~= endpoint_fields(n));
        lemma_endpoint_members_at(n, f, 1 + al);
        assert(f[0] == head[0]);
        assert(f[1 + al + 3 + tl] == rest[0]);
        assert(f[1 + al + 3 + tl + 1] == rest[1]);
        if security is Some {
            assert(f[1] == a[0]);
        }
        if tls is Some {
            assert(f[1 + al + 3] == t[0]);
        }
    }
}

#[verifier::spinoff_prover]
proof fn lemma_shadowsocks_members(n: NodeOutboundView, level: nat)
    requires
        n.settings is Shadowsocks,
    ensures
        has_member(node_fields(n, level), "server"@, json_string(n.server)),
        has_member(node_fields(n, level), "server_port"@, dec_text(n.server_port as nat)),
        has_member(node_fields(n, level), "tag"@, json_string(n.tag)),
        n.settings matches SettingsView::Shadowsocks { method, password } ==> {
            &&& has_member(node_fields(n, level), "type"@, json_string("shadowsocks"@))
            &&& has_member(node_fields(n, level), "method"@, json_string(method))
            &&& has_member(node_fields(n, level), "password"@, json_string(password))
        },
{
    if let SettingsView::Shadowsocks { method, password } = n.settings {
        let head = seq![
            json_field("method"@, json_string(method)),
            json_field("password"@, json_string(password)),
        ];
        let rest = seq![json_field("type"@, json_string("shadowsocks"@))];
        let f = node_fields(n, level);
        assert(f == head + endpoint_fields(n) + rest);
        assert(f.subrange(2, 5) =~= endpoint_fields(n));
        lemma_endpoint_members_at(n, f, 2);
        assert(f[0] == head[0]);
        assert(f[1] == head[1]);
        assert(f[5] == rest[0]);
    }
}

#[verifier::spinoff_prover]
proof fn lemma_socks_members(n: NodeOutboundView, level: nat)
    requires
        n.settings is Socks,
    ensures
        has_member(node_fields(n, level), "server"@, json_string(n.server)),
        has_member(node_fields(n, level), "server_port"@, dec_text(n.server_port as nat)),
        has_member(node_fields(n, level), "tag"@, json_string(n.tag)),
        n.settings matches SettingsView::Socks { username, password } ==> {
            &&& has_member(node_fields(n, level), "type"@, json_string("socks"@))
            &&& username matches Some(u) ==> has_member(node_fields(n, level), "username"@, json_string(u))
            &&& password matches Some(p) ==> has_member(node_fields(n, level), "password"@, json_string(p))
        },
{
    if let SettingsView::Socks { username, password } = n.settings {
        let a = opt_string_field("password"@, password);
        let mid = seq![json_field("type"@, json_string("socks"@))];
        let b = opt_string_field("username"@, username);
        let f = node_fields(n, level);
        let al: int = a.len() as int;
        assert(f == a + endpoint_fields(n) + mid + b);
        assert(f.subrange(al, al + 3) =~= endpoint_fields(n));
        lemma_endpoint_members_at(n, f, al);
        assert(f[al + 3] == mid[0]);
        if password is Some {
            assert(f[0] == a[0]);
        }
        if username is Some {
            assert(f[al + 4] == b[0]);
        }
    }
}

/// The outbound of a proxy node is an object whose members carry each of
/// the node's settings under its own key: the endpoint under `server`,
/// `server_port` and `tag`, the protocol under `type`, and every setting the
/// node has (credentials, identifiers, flow, cipher, TLS) under the key
/// named after it.
pub proof fn lemma_node_outbound_members(n: NodeOutboundView, level: nat)
    ensures
        node_outbound_text(n, level) == json_object(node_fields(n, level), level),
        has_member(node_fields(n, level), "server"@, json_string(n.server)),
        has_member(node_fields(n, level), "server_port"@, dec_text(n.server_port as nat)),
        has_member(node_fields(n, level), "tag"@, json_string(n.tag)),
        n.settings matches SettingsView::Vless { uuid, flow, tls } ==> {
            &&& has_member(node_fields(n, level), "type"@, json_string("vless"@))
            &&& has_member(node_fields(n, level), "uuid"@, json_string(uuid))
            &&& flow matches Some(f) ==> has_member(node_fields(n, level), "flow"@, json_string(f))
            &&& tls matches Some(t) ==> has_member(node_fields(n, level), "tls"@, tls_text(t, level + 1))
        },
        n.settings matches SettingsView::Vmess { uuid, alter_id, security, tls } ==> {
            &&& has_member(node_fields(n, level), "type"@, json_string("vmess"@))
            &&& has_member(node_fields(n, level), "uuid"@, json_string(uuid))
            &&& has_member(node_fields(n, level), "alter_id"@, dec_text(alter_id as nat))
            &&& security matches Some(c) ==> has_member(node_fields(n, level), "security"@, json_string(c))
            &&& tls matches Some(t) ==> has_member(node_fields(n, level), "tls"@, tls_text(t, level + 1))
        },
        n.settings matches SettingsView::Shadowsocks { method, password } ==> {
            &&& has_member(node_fields(n, level), "type"@, json_string("shadowsocks"@))
            &&& has_member(node_fields(n, level), "method"@, json_string(method))
            &&& has_member(node_fields(n, level), "password"@, json_string(password))
        },
        n.settings matches SettingsView::Socks { username, password } ==> {
            &&& has_member(node_fields(n, level), "type"@, json_string("socks"@))
            &&& username matches Some(u) ==> has_member(node_fields(n, level), "username"@, json_string(u))
            &&& password matches Some(p) ==> has_member(node_fields(n, level), "password"@, json_string(p))
        },
{
    match n.settings {
        SettingsView::Vless { .. } => lemma_vless_members(n, level),
        SettingsView::Vmess { .. } => lemma_vmess_members(n, level),
        SettingsView::Shadowsocks { .. } => lemma_shadowsocks_members(n, level),
        SettingsView::Socks { .. } => lemma_socks_members(n, level),
    }
}

/// The character that a two-character JSON escape `\c` stands for.
pub open spec fn short_unescape(c: char) -> char {
    if c == 'b' {
        8u32 as char
    } else if c == 't' {
        9u32 as char
    } else if c == 'n' {
        10u32 as char
    } else if c == 'f' {
        12u32 as char
    } else if c == 'r' {
        13u32 as char
    } else {
        c
    }
}

/// The text that the body of a JSON string stands for, read from the front:
/// `\uXXXX` is the character with that hexadecimal code, `\c` the character
/// of a short escape, and every other character stands for itself.
pub open spec fn json_unescape(t: Seq<char>) -> Seq<char>
    decreases t.len(),
{
    if t.len() == 0 {
        Seq::empty()
    } else if t[0] == '\\' && t.len() >= 6 && t[1] == 'u' {
        let v = 4096 * hex_char_value(t[2]) + 256 * hex_char_value(t[3]) + 16 * hex_char_value(t[4])
            + hex_char_value(t[5]);
        seq![v as char] + json_unescape(t.skip(6))
    } else if t[0] == '\\' && t.len() >= 2 {
        seq![short_unescape(t[1])] + json_unescape(t.skip(2))
    } else {
        seq![t[0]] + json_unescape(t.skip(1))
    }
}

proof fn lemma_hex_digit_value(d: nat)
    requires
        d < 16,
    ensures
        hex_char_value(hex_digit_char(d)) == d,
{
}

/// Reading the escape of `c` gives `c` back, whatever follows it.
proof fn lemma_unescape_escaped_char(c: char, rest: Seq<char>)
    ensures
        json_unescape(escape_char(c) + rest) == seq![c] + json_unescape(rest),
{
    let t = escape_char(c) + rest;
    let n = c as u32;
    if c == '"' || c == '\\' || n == 8 || n == 9 || n == 10 || n == 12 || n == 13 {
        assert(t.skip(2) =~= rest);
        assert(t[0] == '\\' && t[1] != 'u');
        assert(short_unescape(t[1]) == c);
    } else if n < 32 {
        assert(t.skip(6) =~= rest);
        lemma_hex_digit_value((n / 16) as nat);
        lemma_hex_digit_value((n % 16) as nat);
        assert(t[2] == '0' && t[3] == '0');
        let v = 4096 * hex_char_value(t[2]) + 256 * hex_char_value(t[3]) + 16 * hex_char_value(t[4])
            + hex_char_value(t[5]);
        assert(v == n);
        assert((v as char) == c);
    } else {
        assert(t.skip(1) =~= rest);
        assert(t[0] == c && c != '\\');
    }
}

/// The escape of a text is the escape of its first character followed by
/// that of the rest.
proof fn lemma_escape_text_front(s: Seq<char>)
    requires
        s.len() > 0,
    ensures
        escape_text(s) == escape_char(s[0]) + escape_text(s.skip(1)),
    decreases s.len(),
{
    if s.len() == 1 {
        assert(s.drop_last().len() == 0);
        assert(s.skip(1).len() == 0);
        assert(escape_text(s.drop_last()) == Seq::<char>::empty());
        assert(escape_text(s.skip(1)) == Seq::<char>::empty());
        assert(escape_text(s) == escape_text(s.drop_last()) + escape_char(s.last()));
        assert(escape_text(s) =~= escape_char(s[0]) + escape_text(s.skip(1)));
    } else {
        let d = s.drop_last();
        lemma_escape_text_front(d);
        assert(d.skip(1) =~= s.skip(1).drop_last());
        assert(s.skip(1).last() == s.last());
        assert(d[0] == s[0]);
        let t = s.skip(1);
        assert(escape_text(s) == escape_text(d) + escape_char(s.last()));
        assert(escape_text(t) == escape_text(t.drop_last()) + escape_char(t.last()));
        assert(escape_text(d) == escape_char(s[0]) + escape_text(t.drop_last()));
        assert(escape_text(s) =~= escape_char(s[0]) + escape_text(t));
    }
}

/// Every text written as a JSON string reads back as itself: the escape of
/// a text, read as the body of a JSON string, is that text.
pub proof fn lemma_json_string_reads_back(s: Seq<char>)
    ensures
        json_unescape(escape_text(s)) == s,
        json_string(s) == seq!['"'] + escape_text(s) + seq!['"'],
    decreases s.len(),
{
    if s.len() > 0 {
        lemma_escape_text_front(s);
        lemma_json_string_reads_back(s.skip(1));
        lemma_unescape_escaped_char(s[0], escape_text(s.skip(1)));
        assert(seq![s[0]] + s.skip(1) =~= s);
    }
}

} // verus!
