//! Owned names copied out of the platform's fixed-size buffers.

use vstd::prelude::*;
use vstd::array::array_as_slice;
use vstd::slice::slice_subrange;
use crate::strategy::listed;

verus! {

/// Longest SSID, in bytes.
pub const SSID_MAX_LEN: u32 = 32;

/// The text that lossy UTF-16 decoding gives for `units`.
pub uninterp spec fn utf16_lossy(units: Seq<u16>) -> Seq<char>;

/// The text that lossy UTF-8 decoding gives for `bytes`.
pub uninterp spec fn utf8_lossy(bytes: Seq<u8>) -> Seq<char>;

/// Relies on `String::from_utf16_lossy`: it decodes the units, replacing
/// ill-formed ones, so the text depends on the units alone and no units give
/// no text.
#[verifier::external_body]
fn decode_utf16_lossy(units: &[u16]) -> (r: String)
    ensures
        r@ == utf16_lossy(units@),
        units@.len() == 0 ==> r@.len() == 0,
{
    String::from_utf16_lossy(units)
}

/// Relies on `String::from_utf8_lossy`: it decodes the bytes, replacing
/// ill-formed sequences, so the text depends on the bytes alone and no bytes
/// give no text.
#[verifier::external_body]
fn decode_utf8_lossy(bytes: &[u8]) -> (r: String)
    ensures
        r@ == utf8_lossy(bytes@),
        bytes@.len() == 0 ==> r@.len() == 0,
{
    String::from_utf8_lossy(bytes).into_owned()
}

/// Number of units before the first NUL, or all of them when there is none.
pub open spec fn text_len(s: Seq<u16>) -> int
    decreases s.len(),
{
    if s.len() == 0 || s[0] == 0 {
        0
    } else {
        1 + text_len(s.drop_first())
    }
}

/// The text of a NUL-terminated UTF-16 buffer.
pub open spec fn wide_text(s: Seq<u16>) -> Seq<char> {
    utf16_lossy(s.take(text_len(s)))
}

/// The text of an SSID of `len` bytes, read from at most the whole buffer.
pub open spec fn ssid_text(len: u32, bytes: Seq<u8>) -> Seq<char> {
    utf8_lossy(bytes.take(if len < SSID_MAX_LEN { len as int } else { SSID_MAX_LEN as int }))
}

/// `k` units without NUL followed by a NUL or the end is the text length.
proof fn lemma_text_len(s: Seq<u16>, k: int)
    requires
        0 <= k <= s.len(),
        forall|j: int| 0 <= j < k ==> s[j] != 0,
        k < s.len() ==> s[k] == 0,
    ensures
        text_len(s) == k,
    decreases k,
{
    if k > 0 {
        let t = s.drop_first();
        assert forall|j: int| 0 <= j < k - 1 implies t[j] != 0 by {
            assert(t[j] == s[j + 1]);
        }
        if k - 1 < t.len() {
            assert(t[k - 1] == s[k]);
        }
        lemma_text_len(t, k - 1);
    }
}

/// The text of a NUL-terminated UTF-16 name buffer (all of it when it holds
/// no NUL).
pub fn wide_to_string(name: &[u16; 256]) -> (r: String)
    ensures
        r@ == wide_text(name@),
{
    let units = array_as_slice(name);
    let mut len: usize = 0;
    while len < units.len() && units[len] != 0
        invariant
            0 <= len <= units@.len(),
            units@ == name@,
            forall|j: int| 0 <= j < len ==> units@[j] != 0,
        decreases units@.len() - len,
    {
        len += 1;
    }
    proof {
        lemma_text_len(name@, len as int);
    }
    let text = slice_subrange(units, 0, len);
    proof {
        assert(text@ == name@.take(len as int));
    }
    decode_utf16_lossy(text)
}

/// The text of an SSID buffer whose stated length is `len`, read from at
/// most the whole buffer.
pub fn ssid_to_string(len: u32, bytes: &[u8; 32]) -> (r: String)
    ensures
        r@ == ssid_text(len, bytes@),
{
    let n: u32 = if len < SSID_MAX_LEN { len } else { SSID_MAX_LEN };
    let all = array_as_slice(bytes);
    let text = slice_subrange(all, 0, n as usize);
    proof {
        assert(text@ == bytes@.take(n as int));
    }
    decode_utf8_lossy(text)
}

/// The saved profile names of one interface, in enumeration order.
pub fn profile_names(raw: &Vec<[u16; 256]>) -> (r: Vec<String>)
    ensures
        r@.len() == raw@.len(),
        forall|i: int| 0 <= i < raw@.len() ==> (#[trigger] r@[i])@ == wide_text(raw@[i]@),
{
    let mut out: Vec<String> = Vec::new();
    let mut i: usize = 0;
    while i < raw.len()
        invariant
            0 <= i <= raw@.len(),
            out@.len() == i,
            forall|k: int| 0 <= k < i ==> (#[trigger] out@[k])@ == wide_text(raw@[k]@),
        decreases raw@.len() - i,
    {
        out.push(wide_to_string(&raw[i]));
        i += 1;
    }
    out
}

/// One entry of the platform's list of in-range networks, copied out of it.
pub struct AvailableNetwork {
    /// Name of the saved profile that matches this network, NUL-terminated;
    /// empty when no profile matches.
    pub profile_name: [u16; 256],
    /// Stated length of the SSID, in bytes.
    pub ssid_len: u32,
    /// The SSID's bytes.
    pub ssid: [u8; 32],
}

/// True when some entry of `names` has the text `t`.
pub open spec fn has_text(names: Seq<String>, t: Seq<char>) -> bool {
    exists|j: int| 0 <= j < names.len() && (#[trigger] names[j])@ == t
}

/// The two texts an in-range network contributes to the visible set: its
/// matching profile's name and its SSID.
pub open spec fn network_names(n: AvailableNetwork) -> (Seq<char>, Seq<char>) {
    (wide_text(n.profile_name@), ssid_text(n.ssid_len, n.ssid@))
}

/// `t` is a visible name: the non-empty profile name or SSID of some network.
pub open spec fn is_visible_name(nets: Seq<AvailableNetwork>, t: Seq<char>) -> bool {
    &&& t.len() > 0
    &&& exists|i: int|
        0 <= i < nets.len() && (network_names(#[trigger] nets[i]).0 == t || network_names(
            nets[i],
        ).1 == t)
}

/// Adds `s` to `names` unless it is empty or already there.
fn add_name(names: &mut Vec<String>, s: String)
    ensures
        if s@.len() == 0 || has_text(old(names)@, s@) {
            final(names)@ == old(names)@
        } else {
            final(names)@ == old(names)@.push(s)
        },
{
    if s.as_str().is_empty() {
        return;
    }
    if listed(names.as_slice(), &s) {
        return;
    }
    names.push(s);
}

/// The set of visible names: every non-empty profile name and SSID of the
/// in-range networks, each text once.
pub fn visible_network_names(nets: &Vec<AvailableNetwork>) -> (r: Vec<String>)
    ensures
        forall|j: int| 0 <= j < r@.len() ==> is_visible_name(nets@, #[trigger] r@[j]@),
        forall|t: Seq<char>| is_visible_name(nets@, t) ==> has_text(r@, t),
        forall|j: int, k: int| 0 <= j < k < r@.len() ==> r@[j]@ != r@[k]@,
{
    let mut out: Vec<String> = Vec::new();
    let mut i: usize = 0;
    while i < nets.len()
        invariant
            0 <= i <= nets@.len(),
            forall|j: int| 0 <= j < out@.len() ==> is_visible_name(nets@.take(i as int), #[trigger] out@[j]@),
            forall|t: Seq<char>| is_visible_name(nets@.take(i as int), t) ==> has_text(out@, t),
            forall|j: int, k: int| 0 <= j < k < out@.len() ==> out@[j]@ != out@[k]@,
        decreases nets@.len() - i,
    {
        let ghost before = out@;
        let ghost seen = nets@.take(i as int);
        let ghost now = nets@.take(i + 1);
        let net = &nets[i];
        let profile = wide_to_string(&net.profile_name);
        let ssid = ssid_to_string(net.ssid_len, &net.ssid);
        proof {
            assert(now[i as int] == nets@[i as int]);
            assert forall|t: Seq<char>| is_visible_name(seen, t) implies is_visible_name(now, t) by {
                let w = choose|w: int|
                    0 <= w < seen.len() && (network_names(#[trigger] seen[w]).0 == t
                        || network_names(seen[w]).1 == t);
                assert(now[w] == seen[w]);
            }
        }
        add_name(&mut out, profile);
        let ghost mid = out@;
        add_name(&mut out, ssid);
        proof {
            assert(is_visible_name(now, profile@) || profile@.len() == 0);
            assert(is_visible_name(now, ssid@) || ssid@.len() == 0);
            assert forall|j: int| 0 <= j < out@.len() implies is_visible_name(now, #[trigger] out@[j]@) by {
                if j < before.len() {
                    assert(out@[j] == before[j]);
                } else if j < mid.len() {
                    assert(out@[j] == profile);
                } else {
                    assert(out@[j] == ssid);
                }
            }
            assert forall|t: Seq<char>| is_visible_name(now, t) implies has_text(out@, t) by {
                let w = choose|w: int|
                    0 <= w < now.len() && (network_names(#[trigger] now[w]).0 == t
                        || network_names(now[w]).1 == t);
                if w < i {
                    assert(seen[w] == now[w]);
                    assert(is_visible_name(seen, t));
                    assert(has_text(before, t));
                    let j = choose|j: int| 0 <= j < before.len() && (#[trigger] before[j])@ == t;
                    assert(out@[j] == before[j]);
                } else if network_names(now[w]).0 == t {
                    if has_text(before, t) {
                        let j = choose|j: int| 0 <= j < before.len() && (#[trigger] before[j])@ == t;
                        assert(out@[j] == before[j]);
                    } else {
                        assert(out@[before.len() as int] == profile);
                    }
                } else {
                    if has_text(mid, t) {
                        let j = choose|j: int| 0 <= j < mid.len() && (#[trigger] mid[j])@ == t;
                        assert(out@[j] == mid[j]);
                    } else {
                        assert(out@[mid.len() as int] == ssid);
                    }
                }
            }
        }
        i += 1;
    }
    proof {
        assert(nets@.take(nets@.len() as int) == nets@);
    }
    out
}

} // verus!
