//! Which plugins are admitted: a plugin's file must exist and its signature
//! must verify against one of the keys listed in the trusted-keys file.
//!
//! Checking a signature runs an outside tool, so the check over the keys is a
//! step function: it says which key to try next, and is told the verdict.
use vstd::prelude::*;
use serde_json::Value;
use crate::config::texts;
use crate::router::contains_name;
use crate::json::{Json, json_as_array, json_as_str, json_field, json_from_str, json_model, json_parse, json_parse_error, field};

verus! {

/// Why a plugin's signature is not accepted.
#[derive(Debug)]
pub enum TrustError {
    /// The trusted-keys file is not JSON.
    Json(serde_json::Error),
    /// The trusted-keys file has no array under `trusted_keys`.
    InvalidTrustedKeysFile,
    /// A key path reached in the list is not a string.
    InvalidKeyPath,
    /// No key verified the plugin.
    Untrusted,
}

/// The kinds of `TrustError`.
pub enum TrustErrorKind {
    Json,
    InvalidTrustedKeysFile,
    InvalidKeyPath,
    Untrusted,
}

impl TrustError {
    pub open spec fn kind(&self) -> TrustErrorKind {
        match self {
            TrustError::Json(_) => TrustErrorKind::Json,
            TrustError::InvalidTrustedKeysFile => TrustErrorKind::InvalidTrustedKeysFile,
            TrustError::InvalidKeyPath => TrustErrorKind::InvalidKeyPath,
            TrustError::Untrusted => TrustErrorKind::Untrusted,
        }
    }

    /// The error's message; a JSON error is described by `serde_json`'s own text,
    /// so it gets `None` here.
    pub fn message(&self) -> (r: Option<String>)
        ensures
            self.kind() is Json <==> r is None,
            self.kind() is InvalidTrustedKeysFile ==> (r matches Some(m) && m@ == "Invalid trusted_keys file"@),
            self.kind() is InvalidKeyPath ==> (r matches Some(m) && m@ == "Invalid key path"@),
            self.kind() is Untrusted ==> (r matches Some(m) && m@ == "Plugin signature invalid or not trusted"@),
    {
        match self {
            TrustError::Json(_) => None,
            TrustError::InvalidTrustedKeysFile => Some("Invalid trusted_keys file".to_owned()),
            TrustError::InvalidKeyPath => Some("Invalid key path".to_owned()),
            TrustError::Untrusted => Some("Plugin signature invalid or not trusted".to_owned()),
        }
    }
}

/// The list of key paths in a trusted-keys document: the array under
/// `trusted_keys`, if there is one.
pub open spec fn key_list(doc: Json) -> Option<Seq<Json>> {
    match field(doc, "trusted_keys"@) {
        Json::Array(items) => Some(items),
        _ => None,
    }
}

/// Parses the text of a trusted-keys file.
pub fn parse_trusted_keys(data: &str) -> (r: Result<Value, TrustError>)
    ensures
        r is Ok <==> json_parse(data@) is Some,
        r matches Ok(v) ==> json_model(v) == json_parse(data@)->0,
        r matches Err(e) ==> e.kind() is Json,
        r matches Err(TrustError::Json(e)) ==> e == json_parse_error(data@),
{
    match json_from_str(data) {
        Ok(v) => Ok(v),
        Err(e) => Err(TrustError::Json(e)),
    }
}

/// The key paths listed in a trusted-keys document; the error
/// `InvalidTrustedKeysFile` when there is no array under `trusted_keys`.
pub fn trusted_key_list(doc: &Value) -> (r: Result<&Vec<Value>, TrustError>)
    ensures
        r is Ok <==> key_list(json_model(*doc)) is Some,
        r matches Ok(items) ==> items@.map_values(|e: Value| json_model(e)) == key_list(json_model(*doc))->0,
        r matches Err(e) ==> e.kind() is InvalidTrustedKeysFile,
{
    let list = json_field(doc, "trusted_keys");
    match json_as_array(list) {
        Some(items) => Ok(items),
        None => Err(TrustError::InvalidTrustedKeysFile),
    }
}

/// One step of the check over the keys.
#[derive(Debug)]
pub enum TrustStep {
    /// Verify the plugin against the key at `key_path`, the `index`-th key.
    Verify { index: usize, key_path: String },
    /// A key verified the plugin.
    Accept,
    /// The plugin is not accepted.
    Reject(TrustError),
}

/// A step, in spec terms.
pub enum StepView {
    Verify(int, Seq<char>),
    Accept,
    Reject(TrustErrorKind),
}

impl View for TrustStep {
    type V = StepView;

    open spec fn view(&self) -> StepView {
        match self {
            TrustStep::Verify { index, key_path } => StepView::Verify(*index as int, key_path@),
            TrustStep::Accept => StepView::Accept,
            TrustStep::Reject(e) => StepView::Reject(e.kind()),
        }
    }
}

/// The step that reaches the `i`-th key, all earlier keys having failed: verify
/// against it when it is a string, reject when it is not, and reject as
/// untrusted when there are no more keys.
pub open spec fn step_at(keys: Seq<Json>, i: int) -> StepView {
    if i >= keys.len() {
        StepView::Reject(TrustErrorKind::Untrusted)
    } else {
        match keys[i] {
            Json::Str(path) => StepView::Verify(i, path),
            _ => StepView::Reject(TrustErrorKind::InvalidKeyPath),
        }
    }
}

/// The step that reaches key `index`, all earlier keys having failed.
pub fn trust_step_at(keys: &Vec<Value>, index: usize) -> (r: TrustStep)
    requires
        index <= keys@.len(),
    ensures
        r@ == step_at(keys@.map_values(|e: Value| json_model(e)), index as int),
{
    let ghost model = keys@.map_values(|e: Value| json_model(e));
    if index == keys.len() {
        return TrustStep::Reject(TrustError::Untrusted);
    }
    match json_as_str(&keys[index]) {
        Some(path) => TrustStep::Verify { index, key_path: path.to_owned() },
        None => {
            assert(model[index as int] == json_model(keys@[index as int]));
            TrustStep::Reject(TrustError::InvalidKeyPath)
        },
    }
}

/// The step after key `index` was tried: accept when it verified the plugin,
/// else go on to the next key.
pub fn trust_step_after(keys: &Vec<Value>, index: usize, verified: bool) -> (r: TrustStep)
    requires
        index < keys.len(),
    ensures
        verified ==> r@ == StepView::Accept,
        !verified ==> r@ == step_at(keys@.map_values(|e: Value| json_model(e)), index + 1),
{
    if verified {
        TrustStep::Accept
    } else {
        trust_step_at(keys, index + 1)
    }
}

/// Where the check over the keys ends when it starts at key `i` and a key path
/// verifies the plugin exactly when `verifies` says so.
pub open spec fn outcome_from(keys: Seq<Json>, verifies: spec_fn(Seq<char>) -> bool, i: int) -> StepView
    decreases keys.len() - i,
{
    match step_at(keys, i) {
        StepView::Verify(_, path) => if verifies(path) {
            StepView::Accept
        } else {
            outcome_from(keys, verifies, i + 1)
        },
        other => other,
    }
}

/// A key that is a string and does not verify the plugin.
pub open spec fn failing_key(key: Json, verifies: spec_fn(Seq<char>) -> bool) -> bool {
    match key {
        Json::Str(path) => !verifies(path),
        _ => false,
    }
}

/// Key `i` is a string that verifies the plugin, and every key before it is a
/// string too.
pub open spec fn accepting_key(keys: Seq<Json>, verifies: spec_fn(Seq<char>) -> bool, i: int) -> bool {
    &&& 0 <= i < keys.len()
    &&& keys[i] matches Json::Str(path) && verifies(path)
    &&& forall|j: int| 0 <= j <= i ==> (#[trigger] keys[j]) is Str
}

/// Every key before `i` is a string.
pub open spec fn strings_before(keys: Seq<Json>, i: int) -> bool {
    forall|j: int| 0 <= j < i ==> (#[trigger] keys[j]) is Str
}

/// The check accepts the plugin exactly when some key verifies it and every
/// key up to that one is a string.
pub proof fn lemma_trust_accepts(keys: Seq<Json>, verifies: spec_fn(Seq<char>) -> bool, i: int)
    requires
        0 <= i <= keys.len(),
        strings_before(keys, i),
    ensures
        (outcome_from(keys, verifies, i) == StepView::Accept)
            <==> (exists|k: int| i <= k && accepting_key(keys, verifies, k)),
    decreases keys.len() - i,
{
    if i < keys.len() {
        match keys[i] {
            Json::Str(path) => {
                if verifies(path) {
                    assert(accepting_key(keys, verifies, i));
                } else {
                    assert(strings_before(keys, i + 1));
                    lemma_trust_accepts(keys, verifies, i + 1);
                    if exists|k: int| i <= k && accepting_key(keys, verifies, k) {
                        let k = choose|k: int| i <= k && accepting_key(keys, verifies, k);
                        assert(k != i);
                        assert(i + 1 <= k && accepting_key(keys, verifies, k));
                    }
                }
            },
            _ => {
                assert forall|k: int| i <= k implies !accepting_key(keys, verifies, k) by {
                    if accepting_key(keys, verifies, k) {
                        assert(keys[i] is Str);
                    }
                }
            },
        }
    }
}

/// The check rejects with `InvalidKeyPath` exactly when it reaches a key that
/// is not a string while every key before it is a string that failed.
pub proof fn lemma_trust_invalid_key(keys: Seq<Json>, verifies: spec_fn(Seq<char>) -> bool, i: int)
    requires
        0 <= i <= keys.len(),
    ensures
        (outcome_from(keys, verifies, i) == StepView::Reject(TrustErrorKind::InvalidKeyPath))
            <==> (exists|k: int| i <= k < keys.len() && !(keys[k] is Str)
                && forall|j: int| i <= j < k ==> failing_key(#[trigger] keys[j], verifies)),
    decreases keys.len() - i,
{
    if i < keys.len() {
        match keys[i] {
            Json::Str(path) => {
                if verifies(path) {
                    assert forall|k: int| i <= k < keys.len() && !(keys[k] is Str) implies
                        !(forall|j: int| i <= j < k ==> failing_key(#[trigger] keys[j], verifies)) by {
                        assert(k != i);
                        assert(!failing_key(keys[i], verifies));
                    }
                } else {
                    lemma_trust_invalid_key(keys, verifies, i + 1);
                    if exists|k: int| i <= k < keys.len() && !(keys[k] is Str)
                        && forall|j: int| i <= j < k ==> failing_key(#[trigger] keys[j], verifies) {
                        let k = choose|k: int| i <= k < keys.len() && !(keys[k] is Str)
                            && forall|j: int| i <= j < k ==> failing_key(#[trigger] keys[j], verifies);
                        assert(k != i);
                        assert(forall|j: int| i + 1 <= j < k ==> failing_key(#[trigger] keys[j], verifies));
                    }
                    if exists|k: int| i + 1 <= k < keys.len() && !(keys[k] is Str)
                        && forall|j: int| i + 1 <= j < k ==> failing_key(#[trigger] keys[j], verifies) {
                        let k = choose|k: int| i + 1 <= k < keys.len() && !(keys[k] is Str)
                            && forall|j: int| i + 1 <= j < k ==> failing_key(#[trigger] keys[j], verifies);
                        assert(failing_key(keys[i], verifies));
                        assert(forall|j: int| i <= j < k ==> failing_key(#[trigger] keys[j], verifies));
                    }
                }
            },
            _ => {
                assert(forall|j: int| i <= j < i ==> failing_key(#[trigger] keys[j], verifies));
            },
        }
    }
}

/// The check rejects the plugin as untrusted exactly when every key from `i`
/// on is a string that fails.
pub proof fn lemma_trust_untrusted(keys: Seq<Json>, verifies: spec_fn(Seq<char>) -> bool, i: int)
    requires
        0 <= i <= keys.len(),
    ensures
        (outcome_from(keys, verifies, i) == StepView::Reject(TrustErrorKind::Untrusted))
            <==> (forall|j: int| i <= j < keys.len() ==> failing_key(#[trigger] keys[j], verifies)),
    decreases keys.len() - i,
{
    if i < keys.len() {
        match keys[i] {
            Json::Str(path) => {
                if verifies(path) {
                    assert(!failing_key(keys[i], verifies));
                } else {
                    lemma_trust_untrusted(keys, verifies, i + 1);
                    if forall|j: int| i + 1 <= j < keys.len() ==> failing_key(#[trigger] keys[j], verifies) {
                        assert(failing_key(keys[i], verifies));
                        assert(forall|j: int| i <= j < keys.len() ==> failing_key(#[trigger] keys[j], verifies));
                    }
                }
            },
            _ => {
                assert(!failing_key(keys[i], verifies));
            },
        }
    }
}

/// What becomes of a plugin that a route requires.
#[derive(Debug, Clone, Copy, PartialEq, Eq)]
pub enum Admission {
    /// Its file is not in the plugins directory: it is skipped.
    Missing,
    /// Its signature did not verify: it is skipped.
    Unsigned,
    /// It is loaded.
    Load,
}

/// A plugin is loaded exactly when its file exists and its signature is trusted.
pub fn admission(file_exists: bool, trusted: bool) -> (r: Admission)
    ensures
        r == (if !file_exists {
            Admission::Missing
        } else if !trusted {
            Admission::Unsigned
        } else {
            Admission::Load
        }),
{
    if !file_exists {
        Admission::Missing
    } else if !trusted {
        Admission::Unsigned
    } else {
        Admission::Load
    }
}

/// The admission of a plugin whose file exists or not, and whose signature
/// is trusted or not.
pub open spec fn admission_of(file_exists: bool, trusted: bool) -> Admission {
    if !file_exists {
        Admission::Missing
    } else if !trusted {
        Admission::Unsigned
    } else {
        Admission::Load
    }
}

/// A plugin is loaded exactly when its file exists and its signature is
/// trusted; a missing file is reported as missing whatever the signature.
pub proof fn lemma_admission_rule(file_exists: bool, trusted: bool)
    ensures
        (admission_of(file_exists, trusted) == Admission::Load) <==> (file_exists && trusted),
        (admission_of(file_exists, trusted) == Admission::Missing) <==> !file_exists,
        (admission_of(file_exists, trusted) == Admission::Unsigned) <==> (file_exists && !trusted),
{
}

/// Decides on one required plugin and records it among the loaded ones: the
/// names grow by `name` exactly when it is loaded and not loaded already.
pub fn admit_step(loaded: &mut Vec<String>, name: &String, file_exists: bool, trusted: bool) -> (r: Admission)
    ensures
        r == admission_of(file_exists, trusted),
        texts(final(loaded)@) == (if r == Admission::Load && !texts(old(loaded)@).contains(name@) {
            texts(old(loaded)@).push(name@)
        } else {
            texts(old(loaded)@)
        }),
{
    let r = admission(file_exists, trusted);
    if file_exists && trusted && !contains_name(loaded, name) {
        let ghost before = loaded@;
        loaded.push(name.clone());
        assert(texts(loaded@) =~= texts(before).push(name@));
    }
    r
}

/// The names loaded after deciding, in turn, on each `(name, file exists,
/// trusted)` of `decisions`, starting from none.
pub open spec fn loaded_after(decisions: Seq<(Seq<char>, bool, bool)>) -> Seq<Seq<char>>
    decreases decisions.len(),
{
    if decisions.len() == 0 {
        Seq::empty()
    } else {
        let before = loaded_after(decisions.drop_last());
        let (name, file_exists, trusted) = decisions.last();
        if admission_of(file_exists, trusted) == Admission::Load && !before.contains(name) {
            before.push(name)
        } else {
            before
        }
    }
}

proof fn lemma_push_contains(s: Seq<Seq<char>>, x: Seq<char>, n: Seq<char>)
    ensures
        s.push(x).contains(n) <==> (s.contains(n) || n == x),
{
    if s.contains(n) {
        let k = choose|k: int| 0 <= k < s.len() && s[k] == n;
        assert(s.push(x)[k] == n);
    }
    if n == x {
        assert(s.push(x)[s.len() as int] == n);
    }
    if s.push(x).contains(n) {
        let k = choose|k: int| 0 <= k < s.push(x).len() && s.push(x)[k] == n;
        if k < s.len() {
            assert(s[k] == n);
        }
    }
}

/// The plugins loaded are exactly the required names of which some decision
/// found the file and trusted the signature, each name once.
pub proof fn lemma_loaded_plugins(decisions: Seq<(Seq<char>, bool, bool)>)
    ensures
        forall|n: Seq<char>| #[trigger] loaded_after(decisions).contains(n) <==>
            exists|i: int| 0 <= i < decisions.len() && (#[trigger] decisions[i]) == (n, true, true),
        loaded_after(decisions).no_duplicates(),
    decreases decisions.len(),
{
    if decisions.len() > 0 {
        let rest = decisions.drop_last();
        lemma_loaded_plugins(rest);
        let before = loaded_after(rest);
        let after = loaded_after(decisions);
        let last = decisions.last();
        let x = last.0;
        let pushed = admission_of(last.1, last.2) == Admission::Load && !before.contains(x);
        assert forall|n: Seq<char>| #[trigger] after.contains(n) <==>
            exists|i: int| 0 <= i < decisions.len() && (#[trigger] decisions[i]) == (n, true, true) by {
            lemma_push_contains(before, x, n);
            let in_rest = exists|i: int| 0 <= i < rest.len() && (#[trigger] rest[i]) == (n, true, true);
            if in_rest {
                let i = choose|i: int| 0 <= i < rest.len() && (#[trigger] rest[i]) == (n, true, true);
                assert(decisions[i] == rest[i]);
            }
            if exists|i: int| 0 <= i < decisions.len() && (#[trigger] decisions[i]) == (n, true, true) {
                let i = choose|i: int| 0 <= i < decisions.len() && (#[trigger] decisions[i]) == (n, true, true);
                if i < rest.len() {
                    assert(rest[i] == decisions[i]);
                } else {
                    assert(decisions[i] == last);
                }
            }
            if last == (n, true, true) {
                assert(decisions[decisions.len() - 1] == last);
            }
        }
        if pushed {
            assert forall|i: int, j: int| 0 <= i < after.len() && 0 <= j < after.len() && i != j
                implies after[i] != after[j] by {
                if i < before.len() && j < before.len() {
                    assert(after[i] == before[i] && after[j] == before[j]);
                } else if i < before.len() {
                    assert(after[i] == before[i]);
                    assert(after[j] == x);
                } else {
                    assert(after[j] == before[j]);
                    assert(after[i] == x);
                }
            }
        }
    }
}

/// The name of a plugin's file in the plugins directory: its name followed by
/// `.wasm`.
pub fn plugin_file_name(name: &str) -> (r: String)
    ensures
        r@ == name@ + ".wasm"@,
{
    let mut r = name.to_owned();
    r.append(".wasm");
    r
}

} // verus!
