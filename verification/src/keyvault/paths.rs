//! Conventional layout of the three sibling files of a vault.
use std::path::Path;

use vstd::prelude::*;

verus! {

/// The three sibling files that share one base name.
#[derive(Clone, Debug)]
pub struct VaultPaths {
    pub enc: String,
    pub keys_devices: String,
    pub keys_passphrase: String,
}

/// Name for `Path::file_name` of a path (its final component, if any).
pub uninterp spec fn path_file_name(path: Seq<char>) -> Option<Seq<char>>;

/// Name for `Path::parent` of a path (`None` for a root or an empty path).
pub uninterp spec fn path_parent(path: Seq<char>) -> Option<Seq<char>>;

/// Name for `Path::join`.
pub uninterp spec fn path_join(base: Seq<char>, name: Seq<char>) -> Seq<char>;

/// `Path::new(path).file_name()`, as a string. Trusted: the result is the named final component.
#[verifier::external_body]
fn file_name_of(path: &str) -> (r: Option<String>)
    ensures
        r is Some <==> path_file_name(path@) is Some,
        r matches Some(n) ==> path_file_name(path@) == Some(n@),
{
    Path::new(path).file_name().map(|s| s.to_string_lossy().into_owned())
}

/// `Path::new(path).parent()`, as a string. Trusted: the result is the named parent.
#[verifier::external_body]
fn parent_of(path: &str) -> (r: Option<String>)
    ensures
        r is Some <==> path_parent(path@) is Some,
        r matches Some(n) ==> path_parent(path@) == Some(n@),
{
    Path::new(path).parent().map(|s| s.to_string_lossy().into_owned())
}

/// `Path::new(base).join(name)`, as a string. Trusted: the result is the named join.
#[verifier::external_body]
fn join_path(base: &str, name: &str) -> (r: String)
    ensures
        r@ == path_join(base@, name@),
{
    Path::new(base).join(name).to_string_lossy().into_owned()
}

/// The final component of `base`, or the empty name.
pub open spec fn stem_of(base: Seq<char>) -> Seq<char> {
    match path_file_name(base) {
        Some(n) => n,
        None => Seq::empty(),
    }
}

/// The parent of `base`, or the current directory.
pub open spec fn dir_of(base: Seq<char>) -> Seq<char> {
    match path_parent(base) {
        Some(p) => p,
        None => seq!['.'],
    }
}

/// `p` with `suffix` appended to its last component (plain concatenation).
pub fn with_suffix(p: &str, suffix: &str) -> (r: String)
    ensures
        r@ == p@ + suffix@,
{
    let s = String::from_str(p);
    s.concat(suffix)
}

impl VaultPaths {
    /// `base` = "/data/my_brain" gives "/data/my_brain.enc",
    /// "/data/my_brain.keys.devices" and "/data/my_brain.keys.passphrase".
    pub fn from_base(base: &str) -> (r: VaultPaths)
        ensures
            r.enc@ == path_join(dir_of(base@), stem_of(base@) + ".enc"@),
            r.keys_devices@ == path_join(dir_of(base@), stem_of(base@) + ".keys.devices"@),
            r.keys_passphrase@ == path_join(dir_of(base@), stem_of(base@) + ".keys.passphrase"@),
    {
        let stem = match file_name_of(base) {
            Some(n) => n,
            None => String::new(),
        };
        let parent = match parent_of(base) {
            Some(p) => p,
            None => {
                let d = String::from_str(".");
                proof {
                    reveal_strlit(".");
                }
                assert(d@ =~= seq!['.']);
                d
            },
        };
        let enc = join_path(parent.as_str(), with_suffix(stem.as_str(), ".enc").as_str());
        let keys_devices = join_path(
            parent.as_str(),
            with_suffix(stem.as_str(), ".keys.devices").as_str(),
        );
        let keys_passphrase = join_path(
            parent.as_str(),
            with_suffix(stem.as_str(), ".keys.passphrase").as_str(),
        );
        VaultPaths { enc, keys_devices, keys_passphrase }
    }
}

} // verus!
