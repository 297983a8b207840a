//! The configuration-shape walker.
//!
//! It flattens a configuration tree into usage-map entries keyed by dotted
//! paths: booleans and numbers are kept, every string collapses to the
//! shape token, arrays contribute their recursively walked elements under
//! the unchanged path plus one `.len` count, and objects extend the path
//! with each field name.

use crate::config::ConfigValue;
use crate::jsonfmt::dec_str;
use crate::jsonfmt::dec_string;
use crate::usage::UsageMap;
use crate::usage::UsageValue;
use crate::usage::UsageView;
use vstd::prelude::*;
use vstd::string::StringExecFns;

verus! {

/// The usage-map key for a configuration path.
pub open spec fn config_key(path: Seq<char>) -> Seq<char> {
    "configuration."@ + path
}

/// The path of a field inside an object at `path`.
pub open spec fn child_path(path: Seq<char>, field: Seq<char>) -> Seq<char> {
    path + "."@ + field
}

/// The path under which an array's length is recorded.
pub open spec fn len_path(path: Seq<char>) -> Seq<char> {
    path + ".len"@
}

/// What one walked node adds to the map `m`.
pub open spec fn visit_spec(
    m: Map<Seq<char>, UsageView>,
    path: Seq<char>,
    v: ConfigValue,
) -> Map<Seq<char>, UsageView>
    decreases v, 0int,
{
    match v {
        ConfigValue::Null => m,
        ConfigValue::Bool(b) => m.insert(config_key(path), UsageView::Bool(b)),
        ConfigValue::Number(n) => m.insert(config_key(path), UsageView::Number(n@)),
        ConfigValue::Text(_) => m.insert(config_key(path), UsageView::SetToken),
        ConfigValue::Array(a) => visit_items(m, path, a@).insert(
            config_key(len_path(path)),
            UsageView::Number(dec_str(a@.len())),
        ),
        ConfigValue::Object(fields) => visit_fields(m, path, fields@),
    }
}

/// Walks array elements in order, all under the same path.
pub open spec fn visit_items(
    m: Map<Seq<char>, UsageView>,
    path: Seq<char>,
    items: Seq<ConfigValue>,
) -> Map<Seq<char>, UsageView>
    decreases items, 1int,
{
    if items.len() == 0 {
        m
    } else {
        visit_items(visit_spec(m, path, items.first()), path, items.drop_first())
    }
}

/// Walks object fields in order, each under its extended path.
pub open spec fn visit_fields(
    m: Map<Seq<char>, UsageView>,
    path: Seq<char>,
    fields: Seq<(String, ConfigValue)>,
) -> Map<Seq<char>, UsageView>
    decreases fields, 1int,
{
    if fields.len() == 0 {
        m
    } else {
        visit_fields(
            visit_spec(m, child_path(path, fields.first().0@), fields.first().1),
            path,
            fields.drop_first(),
        )
    }
}

/// Walks `value` under `path` and records its shape in `usage`.
pub fn visit_config(usage: &mut UsageMap, path: &str, value: &ConfigValue)
    requires
        old(usage).wf(),
    ensures
        final(usage).wf(),
        final(usage).as_map() == visit_spec(old(usage).as_map(), path@, *value),
    decreases *value,
{
    match value {
        ConfigValue::Null => {},
        ConfigValue::Bool(b) => {
            usage.insert(key_for(path), UsageValue::Bool(*b));
        },
        ConfigValue::Number(n) => {
            usage.insert(key_for(path), UsageValue::Number(n.clone()));
        },
        ConfigValue::Text(_) => {
            usage.insert(key_for(path), UsageValue::SetToken);
        },
        ConfigValue::Array(a) => {
            let n = a.len();
            proof {
                assert(a@.skip(0) =~= a@);
            }
            for i in 0..n
                invariant
                    n == a.len(),
                    *value == ConfigValue::Array(*a),
                    usage.wf(),
                    visit_items(old(usage).as_map(), path@, a@) == visit_items(
                        usage.as_map(),
                        path@,
                        a@.skip(i as int),
                    ),
            {
                proof {
                    assert(a@.skip(i as int).first() == a@[i as int]);
                    assert(a@.skip(i as int).drop_first() =~= a@.skip(i + 1));
                    assert(decreases_to!(*value => value->Array_0));
                    assert(value->Array_0 == *a);
                    assert(decreases_to!(*a => a@));
                    assert(decreases_to!(a@ => a@[i as int]));
                    assert(decreases_to!(*value => a@[i as int]));
                }
                visit_config(usage, path, &a[i]);
            }
            proof {
                assert(a@.skip(n as int) =~= Seq::<ConfigValue>::empty());
            }
            let mut len_p = String::from_str(path);
            len_p.append(".len");
            usage.insert(key_for(len_p.as_str()), UsageValue::Number(dec_string(n)));
            proof {
                assert(len_p@ == len_path(path@));
            }
        },
        ConfigValue::Object(fields) => {
            let n = fields.len();
            proof {
                assert(fields@.skip(0) =~= fields@);
            }
            for i in 0..n
                invariant
                    n == fields.len(),
                    *value == ConfigValue::Object(*fields),
                    usage.wf(),
                    visit_fields(old(usage).as_map(), path@, fields@) == visit_fields(
                        usage.as_map(),
                        path@,
                        fields@.skip(i as int),
                    ),
            {
                proof {
                    assert(fields@.skip(i as int).first() == fields@[i as int]);
                    assert(fields@.skip(i as int).drop_first() =~= fields@.skip(i + 1));
                }
                let mut child = String::from_str(path);
                child.append(".");
                child.append(fields[i].0.as_str());
                proof {
                    assert(child@ == child_path(path@, fields@[i as int].0@));
                    assert(decreases_to!(*value => value->Object_0));
                    assert(value->Object_0 == *fields);
                    assert(decreases_to!(*fields => fields@));
                    assert(decreases_to!(fields@ => fields@[i as int]));
                    assert(decreases_to!(fields@[i as int] => fields@[i as int].1));
                    assert(decreases_to!(*value => fields@[i as int].1));
                }
                visit_config(usage, child.as_str(), &fields[i].1);
            }
            proof {
                assert(fields@.skip(n as int) =~= Seq::<(String, ConfigValue)>::empty());
            }
        },
    }
}

/// Builds the `configuration.<path>` key.
fn key_for(path: &str) -> (r: String)
    ensures
        r@ == config_key(path@),
{
    let mut r = String::from_str("configuration.");
    r.append(path);
    r
}

/// `p` is an initial segment of `s`.
pub open spec fn has_prefix(s: Seq<char>, p: Seq<char>) -> bool {
    p.len() <= s.len() && s.subrange(0, p.len() as int) == p
}

pub proof fn lemma_prefix_concat(a: Seq<char>, b: Seq<char>)
    ensures
        has_prefix(a + b, a),
{
    assert((a + b).subrange(0, a.len() as int) =~= a);
}

pub proof fn lemma_prefix_refl(p: Seq<char>)
    ensures
        has_prefix(p, p),
{
    assert(p.subrange(0, p.len() as int) =~= p);
}

pub proof fn lemma_prefix_trans(s: Seq<char>, q: Seq<char>, p: Seq<char>)
    requires
        has_prefix(s, q),
        has_prefix(q, p),
    ensures
        has_prefix(s, p),
{
    assert(s.subrange(0, p.len() as int) =~= p) by {
        assert(forall|i: int|
            0 <= i < p.len() ==> s.subrange(0, p.len() as int)[i] == s.subrange(
                0,
                q.len() as int,
            )[i]);
    }
}

/// Every text occurring as a number in the report of `v`: the literal text
/// of each numeric leaf, and the decimal length of each array.
pub open spec fn number_texts(v: ConfigValue) -> Set<Seq<char>>
    decreases v, 0int,
{
    match v {
        ConfigValue::Null => Set::empty(),
        ConfigValue::Bool(_) => Set::empty(),
        ConfigValue::Number(n) => Set::empty().insert(n@),
        ConfigValue::Text(_) => Set::empty(),
        ConfigValue::Array(a) => number_texts_items(a@).insert(dec_str(a@.len())),
        ConfigValue::Object(fields) => number_texts_fields(fields@),
    }
}

pub open spec fn number_texts_items(items: Seq<ConfigValue>) -> Set<Seq<char>>
    decreases items, 1int,
{
    if items.len() == 0 {
        Set::empty()
    } else {
        number_texts(items.first()).union(number_texts_items(items.drop_first()))
    }
}

pub open spec fn number_texts_fields(fields: Seq<(String, ConfigValue)>) -> Set<Seq<char>>
    decreases fields, 1int,
{
    if fields.len() == 0 {
        Set::empty()
    } else {
        number_texts(fields.first().1).union(number_texts_fields(fields.drop_first()))
    }
}

/// An entry of `new_m` at `k` either survives unchanged from `old_m`, or
/// is a value the walk may write: a boolean, the shape token, or a number
/// whose text is drawn from `texts`.  Never a document string.
pub open spec fn entry_from_shape(
    old_m: Map<Seq<char>, UsageView>,
    new_m: Map<Seq<char>, UsageView>,
    k: Seq<char>,
    texts: Set<Seq<char>>,
) -> bool {
    (old_m.contains_key(k) && new_m[k] == old_m[k]) || (match new_m[k] {
        UsageView::Bool(_) => true,
        UsageView::SetToken => true,
        UsageView::Number(t) => texts.contains(t),
    })
}

/// Anonymity of the walk: every entry it writes is a boolean, the shape
/// token, or a number drawn from the document's numeric leaves and array
/// lengths — in particular, no string value of the document ever appears,
/// and a string leaf contributes only the shape token.
pub proof fn lemma_walk_anonymous(m: Map<Seq<char>, UsageView>, path: Seq<char>, v: ConfigValue)
    ensures
        forall|k: Seq<char>| #[trigger]
            visit_spec(m, path, v).contains_key(k) ==> entry_from_shape(
                m,
                visit_spec(m, path, v),
                k,
                number_texts(v),
            ),
    decreases v, 0int,
{
    let new_m = visit_spec(m, path, v);
    match v {
        ConfigValue::Array(a) => {
            let items_m = visit_items(m, path, a@);
            lemma_walk_anonymous_items(m, path, a@);
            assert forall|k: Seq<char>| #[trigger] new_m.contains_key(k) implies entry_from_shape(
                m,
                new_m,
                k,
                number_texts(v),
            ) by {
                if k == config_key(len_path(path)) {
                    assert(new_m[k] == UsageView::Number(dec_str(a@.len())));
                    assert(number_texts(v).contains(dec_str(a@.len())));
                } else {
                    assert(items_m.contains_key(k));
                    assert(entry_from_shape(m, items_m, k, number_texts_items(a@)));
                    assert(new_m[k] == items_m[k]);
                    assert(forall|t: Seq<char>|
                        number_texts_items(a@).contains(t) ==> #[trigger] number_texts(
                            v,
                        ).contains(t));
                }
            }
        },
        ConfigValue::Object(fields) => {
            lemma_walk_anonymous_fields(m, path, fields@);
            assert forall|k: Seq<char>| #[trigger] new_m.contains_key(k) implies entry_from_shape(
                m,
                new_m,
                k,
                number_texts(v),
            ) by {
                assert(visit_fields(m, path, fields@).contains_key(k));
                assert(entry_from_shape(m, visit_fields(m, path, fields@), k, number_texts_fields(fields@)));
                assert(number_texts(v) == number_texts_fields(fields@));
            }
        },
        _ => {
            assert forall|k: Seq<char>| #[trigger] new_m.contains_key(k) implies entry_from_shape(
                m,
                new_m,
                k,
                number_texts(v),
            ) by {
                if !(m.contains_key(k) && new_m[k] == m[k]) {
                    match v {
                        ConfigValue::Number(n) => {
                            assert(new_m[k] == UsageView::Number(n@));
                            assert(number_texts(v).contains(n@));
                        },
                        _ => {},
                    }
                }
            }
        },
    }
}

pub proof fn lemma_walk_anonymous_items(
    m: Map<Seq<char>, UsageView>,
    path: Seq<char>,
    items: Seq<ConfigValue>,
)
    ensures
        forall|k: Seq<char>| #[trigger]
            visit_items(m, path, items).contains_key(k) ==> entry_from_shape(
                m,
                visit_items(m, path, items),
                k,
                number_texts_items(items),
            ),
    decreases items, 1int,
{
    if items.len() > 0 {
        let first = items.first();
        let rest = items.drop_first();
        let m1 = visit_spec(m, path, first);
        let mr = visit_items(m1, path, rest);
        lemma_walk_anonymous(m, path, first);
        lemma_walk_anonymous_items(m1, path, rest);
        assert forall|k: Seq<char>| #[trigger] mr.contains_key(k) implies entry_from_shape(
            m,
            mr,
            k,
            number_texts_items(items),
        ) by {
            assert(entry_from_shape(m1, mr, k, number_texts_items(rest)));
            if m1.contains_key(k) && mr[k] == m1[k] {
                assert(entry_from_shape(m, m1, k, number_texts(first)));
            }
            assert(forall|t: Seq<char>|
                number_texts(first).contains(t) ==> #[trigger] number_texts_items(
                    items,
                ).contains(t));
            assert(forall|t: Seq<char>|
                number_texts_items(rest).contains(t) ==> #[trigger] number_texts_items(
                    items,
                ).contains(t));
        }
    }
}

pub proof fn lemma_walk_anonymous_fields(
    m: Map<Seq<char>, UsageView>,
    path: Seq<char>,
    fields: Seq<(String, ConfigValue)>,
)
    ensures
        forall|k: Seq<char>| #[trigger]
            visit_fields(m, path, fields).contains_key(k) ==> entry_from_shape(
                m,
                visit_fields(m, path, fields),
                k,
                number_texts_fields(fields),
            ),
    decreases fields, 1int,
{
    if fields.len() > 0 {
        let first = fields.first();
        let rest = fields.drop_first();
        let m1 = visit_spec(m, child_path(path, first.0@), first.1);
        let mr = visit_fields(m1, path, rest);
        lemma_walk_anonymous(m, child_path(path, first.0@), first.1);
        lemma_walk_anonymous_fields(m1, path, rest);
        assert forall|k: Seq<char>| #[trigger] mr.contains_key(k) implies entry_from_shape(
            m,
            mr,
            k,
            number_texts_fields(fields),
        ) by {
            assert(entry_from_shape(m1, mr, k, number_texts_fields(rest)));
            if m1.contains_key(k) && mr[k] == m1[k] {
                assert(entry_from_shape(m, m1, k, number_texts(first.1)));
            }
            assert(forall|t: Seq<char>|
                number_texts(first.1).contains(t) ==> #[trigger] number_texts_fields(
                    fields,
                ).contains(t));
            assert(forall|t: Seq<char>|
                number_texts_fields(rest).contains(t) ==> #[trigger] number_texts_fields(
                    fields,
                ).contains(t));
        }
    }
}

/// A string leaf contributes exactly one entry: the shape token under its
/// own path.
pub proof fn lemma_string_leaf_collapses(
    m: Map<Seq<char>, UsageView>,
    path: Seq<char>,
    s: String,
)
    ensures
        visit_spec(m, path, ConfigValue::Text(s)) == m.insert(
            config_key(path),
            UsageView::SetToken,
        ),
{
}

/// An array of length `k` always records `configuration.<path>.len = k`;
/// the element walk appends no index to the path, so the `.len` entry,
/// written last, stands.
pub proof fn lemma_array_len_recorded(
    m: Map<Seq<char>, UsageView>,
    path: Seq<char>,
    items: Vec<ConfigValue>,
)
    ensures
        visit_spec(m, path, ConfigValue::Array(items)).contains_key(
            config_key(len_path(path)),
        ),
        visit_spec(m, path, ConfigValue::Array(items))[config_key(len_path(path))]
            == UsageView::Number(dec_str(items@.len())),
{
}

/// Scope of the walk: every key it adds extends `configuration.<path>` —
/// keys never leave the subtree the walk was invoked on.
pub proof fn lemma_walk_keys_scoped(m: Map<Seq<char>, UsageView>, path: Seq<char>, v: ConfigValue)
    ensures
        forall|k: Seq<char>| #[trigger]
            visit_spec(m, path, v).contains_key(k) ==> m.contains_key(k) || has_prefix(
                k,
                config_key(path),
            ),
    decreases v, 0int,
{
    let new_m = visit_spec(m, path, v);
    match v {
        ConfigValue::Null => {},
        ConfigValue::Bool(_) => {
            lemma_prefix_refl(config_key(path));
        },
        ConfigValue::Number(_) => {
            lemma_prefix_refl(config_key(path));
        },
        ConfigValue::Text(_) => {
            lemma_prefix_refl(config_key(path));
        },
        ConfigValue::Array(a) => {
            lemma_walk_keys_scoped_items(m, path, a@);
            assert(config_key(len_path(path)) =~= config_key(path) + ".len"@);
            lemma_prefix_concat(config_key(path), ".len"@);
            assert(has_prefix(config_key(len_path(path)), config_key(path)));
            assert forall|k: Seq<char>| #[trigger] new_m.contains_key(k) implies m.contains_key(k)
                || has_prefix(k, config_key(path)) by {
                if k != config_key(len_path(path)) {
                    assert(visit_items(m, path, a@).contains_key(k));
                }
            }
        },
        ConfigValue::Object(fields) => {
            lemma_walk_keys_scoped_fields(m, path, fields@);
            assert forall|k: Seq<char>| #[trigger] new_m.contains_key(k) implies m.contains_key(k)
                || has_prefix(k, config_key(path)) by {
                assert(visit_fields(m, path, fields@).contains_key(k));
            }
        },
    }
}

pub proof fn lemma_walk_keys_scoped_items(
    m: Map<Seq<char>, UsageView>,
    path: Seq<char>,
    items: Seq<ConfigValue>,
)
    ensures
        forall|k: Seq<char>| #[trigger]
            visit_items(m, path, items).contains_key(k) ==> m.contains_key(k) || has_prefix(
                k,
                config_key(path),
            ),
    decreases items, 1int,
{
    if items.len() > 0 {
        let m1 = visit_spec(m, path, items.first());
        let mr = visit_items(m1, path, items.drop_first());
        lemma_walk_keys_scoped(m, path, items.first());
        lemma_walk_keys_scoped_items(m1, path, items.drop_first());
        assert forall|k: Seq<char>| #[trigger] mr.contains_key(k) implies m.contains_key(k)
            || has_prefix(k, config_key(path)) by {
            if !m.contains_key(k) && !has_prefix(k, config_key(path)) {
                assert(m1.contains_key(k));
            }
        }
    }
}

pub proof fn lemma_walk_keys_scoped_fields(
    m: Map<Seq<char>, UsageView>,
    path: Seq<char>,
    fields: Seq<(String, ConfigValue)>,
)
    ensures
        forall|k: Seq<char>| #[trigger]
            visit_fields(m, path, fields).contains_key(k) ==> m.contains_key(k) || has_prefix(
                k,
                config_key(path),
            ),
    decreases fields, 1int,
{
    if fields.len() > 0 {
        let f = fields.first();
        let m1 = visit_spec(m, child_path(path, f.0@), f.1);
        let m1f = visit_fields(m1, path, fields.drop_first());
        lemma_walk_keys_scoped(m, child_path(path, f.0@), f.1);
        lemma_walk_keys_scoped_fields(m1, path, fields.drop_first());
        assert(config_key(child_path(path, f.0@)) =~= config_key(path) + ("."@ + f.0@));
        lemma_prefix_concat(config_key(path), "."@ + f.0@);
        assert(has_prefix(config_key(child_path(path, f.0@)), config_key(path)));
        assert(visit_fields(m, path, fields) == m1f);
        assert forall|k: Seq<char>| #[trigger]
            visit_fields(m, path, fields).contains_key(k) implies m.contains_key(k) || has_prefix(
            k,
            config_key(path),
        ) by {
            assert(m1f.contains_key(k));
            if !m.contains_key(k) && !has_prefix(k, config_key(path)) {
                assert(m1.contains_key(k));
                assert(has_prefix(k, config_key(child_path(path, f.0@))));
                lemma_prefix_trans(k, config_key(child_path(path, f.0@)), config_key(path));
            }
        }
    }
}

} // verus!
