use vstd::prelude::*;
use serde_yaml::Value;
use crate::error::ConfigError;
use crate::yaml::{
    emit_yaml, mapping_len, key_str_at, parse_yaml, value_at, value_at_mut, yaml_doc,
    yaml_emitted, yaml_entries, yaml_str, yaml_valid,
};

verus! {

/// A key path as a sequence of key texts.
pub open spec fn segments(path: Seq<String>) -> Seq<Seq<char>> {
    path.map_values(|s: String| s@)
}

/// Entry `i` is the first whose key is the string `key`. A key counts as a
/// string as `Value::as_str` reads it, through any tag: a key written
/// `!t colors` matches `colors`, where serde_yaml's hashed `Value::get` would
/// match only the plain string key.
pub open spec fn key_at(es: Seq<(Value, Value)>, key: Seq<char>, i: int) -> bool {
    &&& 0 <= i < es.len()
    &&& yaml_str(es[i].0) == Some(key)
    &&& forall|j: int| 0 <= j < i ==> yaml_str(#[trigger] es[j].0) != Some(key)
}

/// Some entry has the string `key` as its key.
pub open spec fn has_key(es: Seq<(Value, Value)>, key: Seq<char>) -> bool {
    exists|i: int| 0 <= i < es.len() && yaml_str(#[trigger] es[i].0) == Some(key)
}

/// The index of the first entry keyed by the string `key`.
pub open spec fn key_index(es: Seq<(Value, Value)>, key: Seq<char>) -> int {
    choose|i: int| key_at(es, key, i)
}

/// Every segment of the path names an entry of a mapping, starting at `v`.
pub open spec fn resolves(v: Value, path: Seq<Seq<char>>) -> bool
    decreases path.len(),
{
    if path.len() == 0 {
        true
    } else {
        match yaml_entries(v) {
            Some(es) => has_key(es, path[0]) && resolves(
                es[key_index(es, path[0])].1,
                path.drop_first(),
            ),
            None => false,
        }
    }
}

/// The node that the path leads to.
pub open spec fn lookup(v: Value, path: Seq<Seq<char>>) -> Option<Value>
    decreases path.len(),
{
    if path.len() == 0 {
        Some(v)
    } else {
        match yaml_entries(v) {
            Some(es) => if has_key(es, path[0]) {
                lookup(es[key_index(es, path[0])].1, path.drop_first())
            } else {
                None
            },
            None => None,
        }
    }
}

/// `new` is `old` with the node at the path replaced by `section`: along the
/// path each mapping keeps its entries, keys and order, and only the entry on
/// the path changes. A tag on a mapping along the path is not observed here:
/// the mappings are seen through `yaml_entries`, which reads through tags.
pub open spec fn patched(old: Value, path: Seq<Seq<char>>, section: Value, new: Value) -> bool
    decreases path.len(),
{
    if path.len() == 0 {
        new == section
    } else {
        match (yaml_entries(old), yaml_entries(new)) {
            (Some(es), Some(ns)) => {
                let i = key_index(es, path[0]);
                &&& has_key(es, path[0])
                &&& ns == es.update(i, (es[i].0, ns[i].1))
                &&& patched(es[i].1, path.drop_first(), section, ns[i].1)
            },
            _ => false,
        }
    }
}

proof fn lemma_first_key_from(es: Seq<(Value, Value)>, key: Seq<char>, i: int)
    requires
        0 <= i < es.len(),
        yaml_str(es[i].0) == Some(key),
    ensures
        exists|j: int| key_at(es, key, j),
    decreases i,
{
    if exists|j: int| 0 <= j < i && yaml_str(#[trigger] es[j].0) == Some(key) {
        let j = choose|j: int| 0 <= j < i && yaml_str(#[trigger] es[j].0) == Some(key);
        lemma_first_key_from(es, key, j);
    } else {
        assert(key_at(es, key, i));
    }
}

/// Where some entry is keyed by `key`, `key_index` is the first such entry.
pub proof fn lemma_key_index(es: Seq<(Value, Value)>, key: Seq<char>)
    requires
        has_key(es, key),
    ensures
        key_at(es, key, key_index(es, key)),
{
    let i = choose|i: int| 0 <= i < es.len() && yaml_str(#[trigger] es[i].0) == Some(key);
    lemma_first_key_from(es, key, i);
}

/// The index of the first entry keyed by the string `key`, if `v` is a mapping
/// that has one. Keys are read through their tags (see `key_at`).
fn find_key(v: &Value, key: &String) -> (r: Option<usize>)
    ensures
        r matches Some(i) ==> yaml_entries(*v) is Some && key_at(yaml_entries(*v)->0, key@, i as int),
        r is None ==> yaml_entries(*v) is None || !has_key(yaml_entries(*v)->0, key@),
{
    let n = match mapping_len(v) {
        Some(n) => n,
        None => return None,
    };
    let ghost es = yaml_entries(*v)->0;
    let mut i: usize = 0;
    while i < n
        invariant
            yaml_entries(*v) == Some(es),
            n == es.len(),
            i <= n,
            forall|j: int| 0 <= j < i ==> yaml_str(#[trigger] es[j].0) != Some(key@),
        decreases n - i,
    {
        if let Some(k) = key_str_at(v, i) {
            if k == *key {
                return Some(i);
            }
        }
        i = i + 1;
    }
    None
}

proof fn lemma_key_at_unique(es: Seq<(Value, Value)>, key: Seq<char>, i: int, j: int)
    requires
        key_at(es, key, i),
        key_at(es, key, j),
    ensures
        i == j,
{
    if i < j {
        assert(yaml_str(es[i].0) != Some(key));
    } else if j < i {
        assert(yaml_str(es[j].0) != Some(key));
    }
}

proof fn lemma_segments_step(path: Seq<String>, k: int)
    requires
        0 <= k < path.len(),
    ensures
        segments(path).skip(k).len() > 0,
        segments(path).skip(k)[0] == path[k]@,
        segments(path).skip(k).drop_first() == segments(path).skip(k + 1),
{
    assert(segments(path).skip(k).drop_first() =~= segments(path).skip(k + 1));
}

/// Whether the path, from segment `k` on, leads through mappings from `v`.
fn locate(v: &Value, path: &Vec<String>, k: usize) -> (r: bool)
    requires
        k <= path@.len(),
    ensures
        r == resolves(*v, segments(path@).skip(k as int)),
    decreases path@.len() - k,
{
    if k == path.len() {
        assert(segments(path@).skip(k as int).len() == 0);
        return true;
    }
    proof {
        lemma_segments_step(path@, k as int);
    }
    let ghost p = segments(path@).skip(k as int);
    match find_key(v, &path[k]) {
        None => false,
        Some(i) => {
            let child = value_at(v, i);
            proof {
                let es = yaml_entries(*v)->0;
                lemma_key_index(es, p[0]);
                lemma_key_at_unique(es, p[0], i as int, key_index(es, p[0]));
            }
            locate(child, path, k + 1)
        },
    }
}

/// Replaces the node that the path leads to, from segment `k` on.
fn replace_at(doc: &mut Value, path: &Vec<String>, k: usize, section: Value)
    requires
        k <= path@.len(),
        resolves(*old(doc), segments(path@).skip(k as int)),
    ensures
        patched(*old(doc), segments(path@).skip(k as int), section, *final(doc)),
    decreases path@.len() - k,
{
    if k == path.len() {
        assert(segments(path@).skip(k as int).len() == 0);
        *doc = section;
        return;
    }
    proof {
        lemma_segments_step(path@, k as int);
    }
    let ghost p = segments(path@).skip(k as int);
    let ghost es = yaml_entries(*doc)->0;
    let i = match find_key(doc, &path[k]) {
        Some(i) => i,
        None => return,
    };
    proof {
        lemma_key_index(es, p[0]);
        lemma_key_at_unique(es, p[0], i as int, key_index(es, p[0]));
    }
    let child = value_at_mut(doc, i);
    replace_at(child, path, k + 1, section);
}

/// Reads a configuration text as a generic document.
pub fn parse_document(content: &str) -> (r: Result<Value, ConfigError>)
    ensures
        r is Ok <==> yaml_valid(content@),
        r is Err ==> r == Err::<Value, ConfigError>(ConfigError::Parse),
        r matches Ok(v) ==> v == yaml_doc(content@),
{
    match parse_yaml(content) {
        Ok(v) => Ok(v),
        Err(_) => Err(ConfigError::Parse),
    }
}

/// Writes a document back to text.
pub fn render_document(doc: &Value) -> (r: Result<String, ConfigError>)
    ensures
        yaml_emitted(*doc) matches Some(t) ==> r is Ok && r->Ok_0@ == t,
        yaml_emitted(*doc) is None ==> r == Err::<String, ConfigError>(ConfigError::Io),
{
    match emit_yaml(doc) {
        Ok(t) => Ok(t),
        Err(_) => Err(ConfigError::Io),
    }
}

/// Replaces the node at `key_path` with `section`, leaving every other entry
/// of every mapping on the way as it was. Fails with `Schema`, and leaves the
/// document alone, where some segment names no entry of a mapping; nothing is
/// created on the way.
pub fn replace_subsection(doc: &mut Value, key_path: &Vec<String>, section: Value) -> (r: Result<
    (),
    ConfigError,
>)
    ensures
        r is Ok <==> resolves(*old(doc), segments(key_path@)),
        r is Ok ==> patched(*old(doc), segments(key_path@), section, *final(doc)),
        r is Err ==> r == Err::<(), ConfigError>(ConfigError::Schema) && *final(doc) == *old(doc),
{
    assert(segments(key_path@).skip(0) =~= segments(key_path@));
    if !locate(doc, key_path, 0) {
        return Err(ConfigError::Schema);
    }
    replace_at(doc, key_path, 0, section);
    Ok(())
}

/// Patches an already parsed document and renders it.
pub fn patch_parsed(doc: Value, key_path: &Vec<String>, section: Value) -> (r: Result<
    String,
    ConfigError,
>)
    ensures
        !resolves(doc, segments(key_path@)) <==> r == Err::<String, ConfigError>(
            ConfigError::Schema,
        ),
        resolves(doc, segments(key_path@)) ==> exists|n: Value|
            #[trigger] patched(doc, segments(key_path@), section, n) && (match yaml_emitted(n) {
                Some(t) => r is Ok && r->Ok_0@ == t,
                None => r == Err::<String, ConfigError>(ConfigError::Io),
            }),
{
    let mut doc = doc;
    match replace_subsection(&mut doc, key_path, section) {
        Ok(()) => render_document(&doc),
        Err(e) => Err(e),
    }
}

/// Parses a configuration text, replaces the node at `key_path` with
/// `section`, and renders the result.
pub fn patch_document(content: &str, key_path: &Vec<String>, section: Value) -> (r: Result<
    String,
    ConfigError,
>)
    ensures
        !yaml_valid(content@) <==> r == Err::<String, ConfigError>(ConfigError::Parse),
        yaml_valid(content@) && !resolves(yaml_doc(content@), segments(key_path@)) ==> r
            == Err::<String, ConfigError>(ConfigError::Schema),
        yaml_valid(content@) && resolves(yaml_doc(content@), segments(key_path@)) ==> exists|
            n: Value,
        |
            #[trigger] patched(yaml_doc(content@), segments(key_path@), section, n) && (match yaml_emitted(n) {
                Some(t) => r is Ok && r->Ok_0@ == t,
                None => r == Err::<String, ConfigError>(ConfigError::Io),
            }),
{
    match parse_document(content) {
        Ok(doc) => patch_parsed(doc, key_path, section),
        Err(e) => Err(e),
    }
}

proof fn lemma_same_keys(es: Seq<(Value, Value)>, ns: Seq<(Value, Value)>, key: Seq<char>)
    requires
        has_key(es, key),
        ns.len() == es.len(),
        forall|j: int| 0 <= j < es.len() ==> (#[trigger] ns[j]).0 == es[j].0,
    ensures
        has_key(ns, key),
        key_index(ns, key) == key_index(es, key),
{
    lemma_key_index(es, key);
    let i = key_index(es, key);
    assert(ns[i].0 == es[i].0);
    assert(forall|j: int| 0 <= j < i ==> ns[j].0 == es[j].0);
    assert(key_at(ns, key, i));
    lemma_key_index(ns, key);
    lemma_key_at_unique(ns, key, i, key_index(ns, key));
}

/// After a patch the path leads to the new section, and each mapping on the
/// way holds its other entries, keys and values, unchanged and in place.
pub proof fn lemma_patch_preserves_others(
    old: Value,
    path: Seq<Seq<char>>,
    section: Value,
    new: Value,
)
    requires
        patched(old, path, section, new),
    ensures
        lookup(new, path) == Some(section),
        path.len() > 0 ==> {
            let es = yaml_entries(old)->0;
            let ns = yaml_entries(new)->0;
            let i = key_index(es, path[0]);
            &&& yaml_entries(old) is Some
            &&& yaml_entries(new) is Some
            &&& ns.len() == es.len()
            &&& ns[i].0 == es[i].0
            &&& forall|j: int| 0 <= j < es.len() && j != i ==> #[trigger] ns[j] == es[j]
        },
    decreases path.len(),
{
    if path.len() > 0 {
        let es = yaml_entries(old)->0;
        let ns = yaml_entries(new)->0;
        let i = key_index(es, path[0]);
        lemma_key_index(es, path[0]);
        assert(forall|j: int| 0 <= j < es.len() ==> (#[trigger] ns[j]).0 == es[j].0);
        lemma_same_keys(es, ns, path[0]);
        lemma_patch_preserves_others(es[i].1, path.drop_first(), section, ns[i].1);
    }
}

/// Patching a patched document again at the same path gives a document that
/// stands to the original exactly as one patch with the second section does;
/// the first section leaves no trace. With a one-segment path and the same
/// section both times, the two results hold the same entries.
pub proof fn lemma_patch_idempotent(
    doc: Value,
    path: Seq<Seq<char>>,
    first: Value,
    once: Value,
    second: Value,
    twice: Value,
)
    requires
        patched(doc, path, first, once),
        patched(once, path, second, twice),
    ensures
        patched(doc, path, second, twice),
        path.len() == 1 && first == second ==> yaml_entries(twice) == yaml_entries(once),
    decreases path.len(),
{
    if path.len() > 0 {
        let es = yaml_entries(doc)->0;
        let ns1 = yaml_entries(once)->0;
        let ns2 = yaml_entries(twice)->0;
        let i = key_index(es, path[0]);
        lemma_key_index(es, path[0]);
        assert(forall|j: int| 0 <= j < es.len() ==> (#[trigger] ns1[j]).0 == es[j].0);
        lemma_same_keys(es, ns1, path[0]);
        lemma_patch_idempotent(es[i].1, path.drop_first(), first, ns1[i].1, second, ns2[i].1);
        assert(ns2 =~= es.update(i, (es[i].0, ns2[i].1)));
        if path.len() == 1 && first == second {
            assert(path.drop_first().len() == 0);
            assert(patched(es[i].1, path.drop_first(), first, ns1[i].1));
            assert(patched(ns1[i].1, path.drop_first(), second, ns2[i].1));
            assert(ns1[i].1 == first && ns2[i].1 == second);
            assert(ns1 =~= es.update(i, (es[i].0, ns1[i].1)));
            assert(ns2 =~= ns1);
        }
    }
}

} // verus!
