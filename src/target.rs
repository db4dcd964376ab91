use vstd::prelude::*;
use serde_yaml::Value;
use crate::error::ConfigError;
use crate::patch::{lemma_patch_idempotent, patch_document, patched, resolves, segments};
use crate::theme::Theme;
use crate::yaml::{yaml_doc, yaml_emitted, yaml_valid};

verus! {

/// A downstream application whose configuration carries a color block: how a
/// theme becomes that block, how the block reads as a document value, and
/// where it sits in the configuration.
pub trait ToConfig: Sized {
    /// The block that a theme maps to.
    spec fn spec_from_theme(theme: Theme) -> Self;

    /// `v` is this block as a document value.
    spec fn is_value(&self, v: Value) -> bool;

    /// The key path of the block in the target's configuration.
    spec fn spec_key_path() -> Seq<Seq<char>>;

    fn from_theme(theme: Theme) -> (r: Self)
        ensures
            r == Self::spec_from_theme(theme),
    ;

    fn to_value(&self) -> (r: Value)
        ensures
            self.is_value(r),
    ;

    fn key_path() -> (r: Vec<String>)
        ensures
            segments(r@) == Self::spec_key_path(),
    ;
}

/// Puts the theme's block for target `T` in place of the block in the
/// configuration text, and returns the new text. Fails with `Parse` on text
/// that is no YAML document, and with `Schema` where the document lacks the
/// target's key path.
pub fn apply_theme<T: ToConfig>(content: &str, theme: Theme) -> (r: Result<String, ConfigError>)
    ensures
        !yaml_valid(content@) <==> r == Err::<String, ConfigError>(ConfigError::Parse),
        yaml_valid(content@) && !resolves(yaml_doc(content@), T::spec_key_path()) ==> r
            == Err::<String, ConfigError>(ConfigError::Schema),
        yaml_valid(content@) && resolves(yaml_doc(content@), T::spec_key_path()) ==> exists|
            section: Value,
            n: Value,
        |
            #[trigger] patched(yaml_doc(content@), T::spec_key_path(), section, n)
                && T::spec_from_theme(theme).is_value(section) && (match yaml_emitted(n) {
                Some(t) => r is Ok && r->Ok_0@ == t,
                None => r == Err::<String, ConfigError>(ConfigError::Io),
            }),
{
    let block = T::from_theme(theme);
    let section = block.to_value();
    let path = T::key_path();
    let ghost s = section;
    let r = patch_document(content, &path, section);
    proof {
        if yaml_valid(content@) && resolves(yaml_doc(content@), T::spec_key_path()) {
            let n = choose|n: Value|
                #[trigger] patched(yaml_doc(content@), T::spec_key_path(), s, n) && (match yaml_emitted(n) {
                    Some(t) => r is Ok && r->Ok_0@ == t,
                    None => r == Err::<String, ConfigError>(ConfigError::Io),
                });
            assert(patched(yaml_doc(content@), T::spec_key_path(), s, n));
        }
    }
    r
}

/// Applying a theme to a document that already carries it, at the target's
/// path, gives a document that stands to the original exactly as one
/// application does: the node at the path is a fresh build of the same block,
/// and every other entry on the way is the original's.
pub proof fn lemma_apply_theme_twice<T: ToConfig>(
    theme: Theme,
    doc: Value,
    first: Value,
    once: Value,
    second: Value,
    twice: Value,
)
    requires
        T::spec_from_theme(theme).is_value(first),
        patched(doc, T::spec_key_path(), first, once),
        T::spec_from_theme(theme).is_value(second),
        patched(once, T::spec_key_path(), second, twice),
    ensures
        patched(doc, T::spec_key_path(), second, twice),
        T::spec_from_theme(theme).is_value(second),
{
    lemma_patch_idempotent(doc, T::spec_key_path(), first, once, second, twice);
}

} // verus!
