//! Namespaced keys for plugin-visible persistent state.
//!
//! Plugins store values under a `namespace:key` pair, the namespace
//! telling plugins' entries apart. The store itself is an external
//! concurrent map owned by the embedding runtime; this core defines the
//! key type and its validation: both parts must be ASCII and are folded to
//! lower case.

use vstd::prelude::*;
use vstd::string::StringExecFns;
use vstd::string::is_ascii;

verus! {

/// A character after ASCII lowercasing: the uppercase letters `'A'` to
/// `'Z'` map to their lowercase counterparts, every other character is
/// unchanged.
pub open spec fn ascii_lower_char(c: char) -> char {
    if 'A' <= c && c <= 'Z' {
        ((c as u32) + 32) as char
    } else {
        c
    }
}

/// A string's characters after ASCII lowercasing.
pub open spec fn ascii_lower(s: Seq<char>) -> Seq<char> {
    s.map_values(|c: char| ascii_lower_char(c))
}

/// Relies on str::to_ascii_lowercase: each ASCII uppercase letter is
/// replaced by its lowercase counterpart and all other characters are
/// returned unchanged.
#[verifier::external_body]
pub(crate) fn to_ascii_lowercase(s: &str) -> (lowered: String)
    ensures
        lowered@ == ascii_lower(s@),
{
    s.to_ascii_lowercase()
}

/// A key with an associated namespace, both ASCII and lower case,
/// differentiating persistent data by plugin.
#[derive(Clone, Debug, PartialEq, Eq, Hash)]
pub struct NamespacedKey {
    pub namespace: String,
    pub key: String,
}

/// Why a namespaced key was rejected.
#[derive(Clone, Copy, PartialEq, Eq, Structural, Debug)]
pub enum NamespacedKeyError {
    /// The namespace contains a non-ASCII character.
    NonAsciiNamespace,
    /// The key contains a non-ASCII character.
    NonAsciiKey,
    /// The key would collide with an existing one.
    AmbiguousKey,
}

impl NamespacedKey {
    /// Construct a key from a namespace (typically the plugin's package
    /// name) and a key string. Both must be ASCII, checked namespace
    /// first; they are stored folded to lower case, so keys differing
    /// only in ASCII case are the same key.
    pub fn new(namespace: &str, key: &str) -> (result: Result<Self, NamespacedKeyError>)
        ensures
            result matches Ok(k) ==> {
                &&& is_ascii(namespace)
                &&& is_ascii(key)
                &&& k.namespace@ == ascii_lower(namespace@)
                &&& k.key@ == ascii_lower(key@)
            },
            result matches Err(e) ==> {
                &&& (e == NamespacedKeyError::NonAsciiNamespace <==> !is_ascii(namespace))
                &&& (e == NamespacedKeyError::NonAsciiKey <==> (is_ascii(namespace) && !is_ascii(
                    key,
                )))
                &&& e != NamespacedKeyError::AmbiguousKey
            },
            result matches Ok(k) <==> (is_ascii(namespace) && is_ascii(key)),
    {
        if !namespace.is_ascii() {
            return Err(NamespacedKeyError::NonAsciiNamespace);
        }
        if !key.is_ascii() {
            return Err(NamespacedKeyError::NonAsciiKey);
        }
        Ok(NamespacedKey {
            namespace: to_ascii_lowercase(namespace),
            key: to_ascii_lowercase(key),
        })
    }

    /// The key rendered as `namespace:key`.
    pub fn display_string(&self) -> (rendered: String)
        ensures
            rendered@ == self.namespace@ + ":"@ + self.key@,
    {
        let mut rendered = self.namespace.clone();
        rendered.append(":");
        rendered.append(self.key.as_str());
        rendered
    }
}

} // verus!
