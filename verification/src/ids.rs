//! Identifiers: the textual forms of UUIDs (through the `uuid` crate) and
//! the names of the proxy containers derived from them.
use vstd::prelude::*;

use crate::runtime::eq_ignore_ascii_case;
use crate::text::{all_ascii, all_hex, has_prefix, hex_text, hex_value, string_of, starts_with, lemma_hex_text_shape, lemma_hex_text_value};

verus! {

/// The 32 lowercase hexadecimal digits of a UUID (the "simple" format).
pub open spec fn uuid_simple_text(id: u128) -> Seq<char> {
    hex_text(id as nat, 32)
}

/// The hyphenated form of a UUID: groups of 8, 4, 4, 4 and 12 lowercase digits.
pub open spec fn uuid_hyphenated_text(id: u128) -> Seq<char> {
    let h = uuid_simple_text(id);
    h.subrange(0, 8) + seq!['-'] + h.subrange(8, 12) + seq!['-'] + h.subrange(12, 16)
        + seq!['-'] + h.subrange(16, 20) + seq!['-'] + h.subrange(20, 32)
}

/// The UUID that 32 hexadecimal digits (of either case) denote, read
/// big-endian; `None` when one is no hexadecimal digit.
pub open spec fn uuid_hex32_value(s: Seq<char>) -> Option<u128> {
    if all_hex(s) {
        Some(hex_value(s) as u128)
    } else {
        None
    }
}

/// The UUID of the hyphenated form (36 characters): hyphens at positions 8,
/// 13, 18 and 23 and hexadecimal digits elsewhere.
pub open spec fn uuid_hyphenated_value(s: Seq<char>) -> Option<u128> {
    if s.len() == 36 && s[8] == '-' && s[13] == '-' && s[18] == '-' && s[23] == '-' {
        uuid_hex32_value(
            s.subrange(0, 8) + s.subrange(9, 13) + s.subrange(14, 18) + s.subrange(19, 23)
                + s.subrange(24, 36),
        )
    } else {
        None
    }
}

/// The UUID that the text `s` denotes, as `uuid::Uuid::parse_str` reads it:
/// 32 hexadecimal digits; the hyphenated form; the hyphenated form in braces;
/// or `urn:uuid:` (in any case) before the hyphenated form. Any other text,
/// and any text that is not ASCII, is no UUID.
pub open spec fn uuid_text_value(s: Seq<char>) -> Option<u128> {
    if !all_ascii(s) {
        None
    } else if s.len() == 32 {
        uuid_hex32_value(s)
    } else if s.len() == 36 {
        uuid_hyphenated_value(s)
    } else if s.len() == 38 && s[0] == '{' && s[37] == '}' {
        uuid_hyphenated_value(s.subrange(1, 37))
    } else if s.len() == 45 && eq_ignore_ascii_case(s.subrange(0, 9), "urn:uuid:"@) {
        uuid_hyphenated_value(s.subrange(9, 45))
    } else {
        None
    }
}

/// Formats a UUID with `uuid::Uuid::simple`. The crate's source writes each
/// of the 16 bytes, most significant first, as two lowercase hex digits.
#[verifier::external_body]
pub(crate) fn format_uuid_simple(id: u128) -> (r: String)
    ensures
        r@ == uuid_simple_text(id),
{
    uuid::Uuid::from_u128(id).simple().to_string()
}

/// Formats a UUID with the `Display` of `uuid::Uuid` (the hyphenated format,
/// lowercase).
#[verifier::external_body]
pub(crate) fn format_uuid_hyphenated(id: u128) -> (r: String)
    ensures
        r@ == uuid_hyphenated_text(id),
{
    uuid::Uuid::from_u128(id).to_string()
}

/// Parses a UUID with `uuid::Uuid::parse_str`. The crate's parser works on
/// the UTF-8 bytes and decides by their number: 32 must be hexadecimal
/// digits; 36 the hyphenated form; 38 the hyphenated form between `{` and
/// `}`; 45 `urn:uuid:` (compared ignoring ASCII case) and the hyphenated
/// form; any other length is refused. Digits of either case are read
/// big-endian into the UUID's bytes. A byte of a non-ASCII character is
/// neither a digit, a hyphen, a brace nor part of the prefix, so such text is
/// refused.
#[verifier::external_body]
pub(crate) fn parse_uuid(s: &str) -> (r: Option<u128>)
    ensures
        r == uuid_text_value(s@),
{
    uuid::Uuid::parse_str(s).ok().map(|u| u.as_u128())
}

/// The prefix of the names of the proxy containers.
pub open spec fn proxy_container_prefix() -> Seq<char> {
    seq!['l', 'a', 'n', 'd', 's', 'c', 'a', 'p', 'e', '_', 'p', 'r', 'o', 'x', 'y', '_']
}

/// The name of the shared proxy runtime container.
pub open spec fn proxy_runtime_container_text() -> Seq<char> {
    proxy_container_prefix() + seq!['r', 'u', 'n', 't', 'i', 'm', 'e']
}

/// The prefix of the names of the proxy containers.
pub fn proxy_container_name_prefix() -> (r: &'static str)
    ensures
        r@ == proxy_container_prefix(),
{
    proof {
        reveal_strlit("landscape_proxy_");
    }
    "landscape_proxy_"
}

/// The name of the one container that runs the proxy runtime for all nodes.
pub fn proxy_runtime_container_name() -> (r: &'static str)
    ensures
        r@ == proxy_runtime_container_text(),
{
    proof {
        reveal_strlit("landscape_proxy_runtime");
        assert("landscape_proxy_runtime"@ =~= proxy_runtime_container_text());
    }
    "landscape_proxy_runtime"
}

/// The container name of a proxy node: the prefix and the node's simple UUID.
pub open spec fn container_name_text(node_id: u128) -> Seq<char> {
    proxy_container_prefix() + uuid_simple_text(node_id)
}

/// The node that a container name stands for: the text after the prefix, read
/// as a UUID; `None` when the prefix is missing or the rest is no UUID.
pub open spec fn node_id_of_container_text(name: Seq<char>) -> Option<u128> {
    if !has_prefix(name, proxy_container_prefix()) {
        None
    } else {
        uuid_text_value(name.skip(proxy_container_prefix().len() as int))
    }
}

/// The container name of the proxy node `node_id`.
pub fn proxy_container_name(node_id: u128) -> (r: String)
    ensures
        r@ == container_name_text(node_id),
{
    let mut s = string_of(proxy_container_name_prefix());
    let id = format_uuid_simple(node_id);
    s.append(id.as_str());
    s
}

/// The proxy node whose container is named `container_name`, if any.
pub fn proxy_node_id_from_container_name(container_name: &str) -> (r: Option<u128>)
    ensures
        r == node_id_of_container_text(container_name@),
{
    let prefix = proxy_container_name_prefix();
    if !starts_with(container_name, prefix) {
        return None;
    }
    let n = container_name.unicode_len();
    let raw_id = container_name.substring_char(16, n);
    assert(raw_id@ =~= container_name@.skip(16));
    parse_uuid(raw_id)
}

/// A container name made from a node id reads back as that node id.
pub proof fn lemma_container_name_roundtrip(node_id: u128)
    ensures
        node_id_of_container_text(container_name_text(node_id)) == Some(node_id),
{
    let name = container_name_text(node_id);
    let p = proxy_container_prefix();
    let h = uuid_simple_text(node_id);
    lemma_hex_text_shape(node_id as nat, 32);
    crate::text::lemma_pow16_32();
    lemma_hex_text_value(node_id as nat, 32);
    assert(name.subrange(0, p.len() as int) =~= p);
    assert(name.skip(p.len() as int) =~= h);
}

/// The name of a node's container in the layout where the node's
/// hyphenated UUID follows the prefix.
pub open spec fn hyphenated_container_name_text(node_id: u128) -> Seq<char> {
    proxy_container_prefix() + uuid_hyphenated_text(node_id)
}

/// The hyphenated form of a UUID reads back as that UUID.
pub proof fn lemma_hyphenated_roundtrip(id: u128)
    ensures
        uuid_text_value(uuid_hyphenated_text(id)) == Some(id),
{
    let h = uuid_simple_text(id);
    let hy = uuid_hyphenated_text(id);
    lemma_hex_text_shape(id as nat, 32);
    crate::text::lemma_pow16_32();
    lemma_hex_text_value(id as nat, 32);
    assert(hy.len() == 36);
    assert(hy[8] == '-' && hy[13] == '-' && hy[18] == '-' && hy[23] == '-');
    assert forall|i: int| 0 <= i < hy.len() implies (#[trigger] hy[i] as int) < 128 by {
        if i < 8 {
            assert(hy[i] == h[i]);
        } else if 8 < i < 13 {
            assert(hy[i] == h[i - 1]);
        } else if 13 < i < 18 {
            assert(hy[i] == h[i - 2]);
        } else if 18 < i < 23 {
            assert(hy[i] == h[i - 3]);
        } else if 23 < i {
            assert(hy[i] == h[i - 4]);
        }
    }
    assert(hy.subrange(0, 8) + hy.subrange(9, 13) + hy.subrange(14, 18) + hy.subrange(19, 23)
        + hy.subrange(24, 36) =~= h);
}

/// A container name made from a node's hyphenated UUID also reads back as
/// that node.
pub proof fn lemma_hyphenated_container_name_roundtrip(node_id: u128)
    ensures
        node_id_of_container_text(hyphenated_container_name_text(node_id)) == Some(node_id),
{
    let name = hyphenated_container_name_text(node_id);
    let p = proxy_container_prefix();
    lemma_hyphenated_roundtrip(node_id);
    assert(name.subrange(0, p.len() as int) =~= p);
    assert(name.skip(p.len() as int) =~= uuid_hyphenated_text(node_id));
}

/// A name without the prefix stands for no proxy node.
pub proof fn lemma_unprefixed_name_is_no_node(name: Seq<char>)
    requires
        !has_prefix(name, proxy_container_prefix()),
    ensures
        node_id_of_container_text(name) is None,
{
}

/// The shared runtime container's name stands for no proxy node.
pub proof fn lemma_runtime_container_is_no_node()
    ensures
        node_id_of_container_text(proxy_runtime_container_text()) is None,
{
    let name = proxy_runtime_container_text();
    let rest = name.skip(16);
    assert(rest =~= seq!['r', 'u', 'n', 't', 'i', 'm', 'e']);
    assert(name.subrange(0, 16) =~= proxy_container_prefix());
    assert(all_ascii(rest));
}

} // verus!
