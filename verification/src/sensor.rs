//! The browser sensor: its greeting and payloads for the native bridge, the
//! panel it injects under tracked content, the vault it keeps in browser
//! storage, and the completion a click records.
use base64::engine::general_purpose::STANDARD;
use base64::Engine;
use vstd::prelude::*;

use crate::tracker::{NodeType, TrackedNode, Vault};

verus! {

/// The greeting of a loaded sensor module.
pub fn initialize_sensor() -> (r: String)
    ensures
        r@ == "Sensor WASM module loaded. Ready to track content."@,
{
    String::from_str("Sensor WASM module loaded. Ready to track content.")
}

/// The "mine this topic" payload; the topic is inserted verbatim.
pub fn build_mine_payload(topic: &str) -> (r: String)
    ensures
        r@ == "{\"action\": \"mine_topic\", \"topic\": \""@ + topic@ + "\"}"@,
{
    let head = String::from_str("{\"action\": \"mine_topic\", \"topic\": \"");
    let with_topic = head.concat(topic);
    with_topic.concat("\"}")
}

/// Name for what base64's STANDARD engine decodes a string to (`None` when
/// it is not valid padded base64).
pub uninterp spec fn b64_decode(s: Seq<char>) -> Option<Seq<u8>>;

/// Name for the STANDARD (padded) base64 encoding of bytes.
pub uninterp spec fn b64_encode(bytes: Seq<u8>) -> Seq<char>;

/// `base64::engine::general_purpose::STANDARD.decode(s)`. Trusted: the
/// named decoding.
#[verifier::external_body]
fn base64_decode(s: &str) -> (r: Option<Vec<u8>>)
    ensures
        r is Some <==> b64_decode(s@) is Some,
        r matches Some(b) ==> b64_decode(s@) == Some(b@),
{
    STANDARD.decode(s).ok()
}

/// `base64::engine::general_purpose::STANDARD.encode(bytes)`. Trusted: the
/// named encoding, which the same engine decodes back to the bytes.
#[verifier::external_body]
fn base64_encode(bytes: &[u8]) -> (r: String)
    ensures
        r@ == b64_encode(bytes@),
        b64_decode(r@) == Some(bytes@),
{
    STANDARD.encode(bytes)
}

/// The encrypted vault kept in browser storage, as bytes: nothing when the
/// storage holds no vault or the stored text is not base64.
pub fn stored_vault_bytes(stored: Option<&str>) -> (r: Option<Vec<u8>>)
    ensures
        stored is None ==> r is None,
        stored matches Some(s) ==> (r is Some <==> b64_decode(s@) is Some),
        stored matches Some(s) ==> (r matches Some(b) ==> b64_decode(s@) == Some(b@)),
{
    match stored {
        None => None,
        Some(s) => base64_decode(s),
    }
}

/// The text under which the encrypted vault is kept in browser storage; it
/// reads back, through `stored_vault_bytes`, as the same bytes.
pub fn vault_storage_text(encrypted: &[u8]) -> (r: String)
    ensures
        r@ == b64_encode(encrypted@),
        b64_decode(r@) == Some(encrypted@),
{
    base64_encode(encrypted)
}

/// The node kind a tracker's `data-mor-type` names: "lexicon" is a lexicon
/// entry; anything else (an article, a "media" item) is tracked as an article.
pub open spec fn sensor_node_type(node_type: Seq<char>) -> NodeType {
    if node_type == "lexicon"@ {
        NodeType::Lexicon
    } else {
        NodeType::Article
    }
}

/// Law: the kind of a marked node is a lexicon entry exactly when the tracker
/// names "lexicon"; an "article" tracker, and every other name, gives an article.
pub proof fn lemma_sensor_kinds(node_type: Seq<char>)
    ensures
        (sensor_node_type(node_type) == NodeType::Lexicon) <==> node_type == "lexicon"@,
        (sensor_node_type(node_type) == NodeType::Article) <==> node_type != "lexicon"@,
        sensor_node_type("article"@) == NodeType::Article,
        sensor_node_type("lexicon"@) == NodeType::Lexicon,
{
    reveal_strlit("article");
    reveal_strlit("lexicon");
    assert("article"@[0] != "lexicon"@[0]);
}

/// Marks the tracked content complete: the node for `node_id` is created, or
/// replaced if it exists, as a completed node of the named kind.
pub fn sensor_mark<S>(v: &mut Vault<S>, node_id: &str, node_type: &str)
    ensures
        final(v)@.contains_key(node_id@),
        final(v)@[node_id@].id@ == node_id@,
        final(v)@[node_id@].parent_id is None,
        final(v)@[node_id@].node_type == sensor_node_type(node_type@),
        node_type@ == "lexicon"@ ==> final(v)@[node_id@].node_type == NodeType::Lexicon,
        node_type@ != "lexicon"@ ==> final(v)@[node_id@].node_type == NodeType::Article,
        final(v)@[node_id@].is_completed,
        final(v)@[node_id@].srs is None,
        forall|k: Seq<char>| k != node_id@ ==> (#[trigger] final(v)@.contains_key(k) == old(v)@.contains_key(k)
            && (old(v)@.contains_key(k) ==> final(v)@[k] == old(v)@[k])),
{
    let kind = if crate::auth::str_eq(node_type, "lexicon") {
        NodeType::Lexicon
    } else {
        NodeType::Article
    };
    let node = TrackedNode {
        id: String::from_str(node_id),
        parent_id: None,
        node_type: kind,
        is_completed: true,
        srs: None,
    };
    v.insert_node(node);
}

/// The attributes of a tracker element, with their defaults: the type
/// ("unknown" when missing) and the id ("generic_node" when missing).
pub fn tracker_target(type_attr: Option<String>, id_attr: Option<String>) -> (r: (String, String))
    ensures
        type_attr matches Some(t) ==> r.0 == t,
        type_attr is None ==> r.0@ == "unknown"@,
        id_attr matches Some(i) ==> r.1 == i,
        id_attr is None ==> r.1@ == "generic_node"@,
{
    let t = match type_attr {
        Some(t) => t,
        None => String::from_str("unknown"),
    };
    let i = match id_attr {
        Some(i) => i,
        None => String::from_str("generic_node"),
    };
    (t, i)
}

/// The id of the button injected for a tracker.
pub fn tracker_button_id(node_id: &str) -> (r: String)
    ensures
        r@ == "mor-btn-"@ + node_id@,
{
    String::from_str("mor-btn-").concat(node_id)
}

/// Name for what `str::to_uppercase` makes of a string.
pub uninterp spec fn uppercase(s: Seq<char>) -> Seq<char>;

/// `str::to_uppercase`. Trusted: the named upper-case mapping.
#[verifier::external_body]
fn to_uppercase(s: &str) -> (r: String)
    ensures
        r@ == uppercase(s@),
{
    s.to_uppercase()
}

/// The panel injected under a tracker: the sensor's title, "Type: " with the
/// upper-cased type, " | ID: " with the id, and a "Mark via Rust" button whose
/// id is `tracker_button_id(node_id)`.
pub fn tracker_markup(node_type: &str, node_id: &str) -> (r: String)
    ensures
        r@ == "<div style='margin-top: 20px; padding: 15px; background-color: rgba(59, 130, 246, 0.1); border: 1px solid #3b82f6; border-radius: 8px; font-family: monospace; display: flex; justify-content: space-between; align-items: center;'>\n            <div>\n                <strong style='color: #58a6ff;'>Moribund WASM Sensor</strong>\n                <div style='font-size: 0.85rem; color: #8b949e;'>Type: "@ + uppercase(node_type@) + " | ID: "@ + node_id@ + "</div>\n            </div>\n            <button id='"@
            + ("mor-btn-"@ + node_id@) + "' style='background: #238636; color: white; border: none; padding: 8px 16px; border-radius: 6px; cursor: pointer; font-weight: bold;'>\n                Mark via Rust\n            </button>\n        </div>"@,
{
    let upper = to_uppercase(node_type);
    let button = tracker_button_id(node_id);
    String::from_str("<div style='margin-top: 20px; padding: 15px; background-color: rgba(59, 130, 246, 0.1); border: 1px solid #3b82f6; border-radius: 8px; font-family: monospace; display: flex; justify-content: space-between; align-items: center;'>\n            <div>\n                <strong style='color: #58a6ff;'>Moribund WASM Sensor</strong>\n                <div style='font-size: 0.85rem; color: #8b949e;'>Type: ").concat(upper.as_str()).concat(" | ID: ").concat(node_id).concat(
        "</div>\n            </div>\n            <button id='",
    ).concat(button.as_str()).concat("' style='background: #238636; color: white; border: none; padding: 8px 16px; border-radius: 6px; cursor: pointer; font-weight: bold;'>\n                Mark via Rust\n            </button>\n        </div>")
}

/// What a click on a tracker does first.
#[derive(Clone, Debug, PartialEq, Eq)]
pub enum SensorStart {
    /// The password prompt was cancelled or left empty: nothing happens.
    Cancelled,
    /// The stored vault did not decrypt under the password: it stays locked
    /// and nothing is saved.
    WrongPassword,
    /// Go on from this vault JSON (`None`: a fresh, empty vault).
    Proceed(Option<String>),
}

/// The first step of a click: the password answered to the prompt (`None`
/// when cancelled), the text kept in browser storage (`None` when there is
/// none) and `decrypt`, which opens the stored envelope bytes with the
/// password. An empty or cancelled password ends the action before anything
/// is read; stored text that is not base64 counts as no stored vault; a
/// stored vault that does not decrypt leaves the vault locked.
pub fn sensor_unlock<D>(password: Option<String>, stored: Option<&str>, decrypt: D) -> (r: SensorStart) where
    D: FnOnce(Vec<u8>, String) -> Result<String, String>,

    requires
        forall|b: Vec<u8>, p: String| #[trigger] call_requires(decrypt, (b, p)),
    ensures
        (password is None || password->0@.len() == 0) ==> r == SensorStart::Cancelled,
        password is Some && password->0@.len() > 0 && stored is None ==> r == SensorStart::Proceed(None),
        password is Some && password->0@.len() > 0 && stored is Some && b64_decode(stored->0@) is None
            ==> r == SensorStart::Proceed(None),
        password is Some && password->0@.len() > 0 && stored is Some && b64_decode(stored->0@) is Some
            ==> exists|b: Vec<u8>, res: Result<String, String>|
            #[trigger] call_ensures(decrypt, (b, password->0), res) && b@ == b64_decode(stored->0@)->0
                && match res {
                Ok(j) => r == SensorStart::Proceed(Some(j)),
                Err(_) => r == SensorStart::WrongPassword,
            },
{
    let pw = match password {
        Some(p) => p,
        None => {
            return SensorStart::Cancelled;
        },
    };
    if pw.as_str().unicode_len() == 0 {
        return SensorStart::Cancelled;
    }
    let bytes = match stored_vault_bytes(stored) {
        Some(b) => b,
        None => {
            return SensorStart::Proceed(None);
        },
    };
    match decrypt(bytes, pw) {
        Ok(json) => SensorStart::Proceed(Some(json)),
        Err(_) => SensorStart::WrongPassword,
    }
}

} // verus!
