//! The usage map: dotted string keys mapped to shape-only values.
//!
//! A value is a boolean, a number rendered as its decimal text, or the
//! shape token that stands in for every user-supplied string.  The map is
//! kept as a vector of entries with pairwise-distinct keys, so that the
//! serialiser can walk the entries in a fixed order while the contracts
//! speak of the abstract `Map`.

use vstd::prelude::*;
use vstd::string::StringExecFns;

verus! {

/// A value of the usage map, as the report carries it.
#[derive(Debug, PartialEq, Eq)]
pub enum UsageValue {
    /// A boolean taken verbatim from a configuration leaf.
    Bool(bool),
    /// A number, kept as its literal decimal text.
    Number(String),
    /// The literal token `"set"`, standing in for a string value.
    SetToken,
}

/// The mathematical value of a [`UsageValue`].
pub enum UsageView {
    Bool(bool),
    Number(Seq<char>),
    SetToken,
}

impl View for UsageValue {
    type V = UsageView;

    open spec fn view(&self) -> UsageView {
        match self {
            UsageValue::Bool(b) => UsageView::Bool(*b),
            UsageValue::Number(n) => UsageView::Number(n@),
            UsageValue::SetToken => UsageView::SetToken,
        }
    }
}

/// Folds a sequence of entries into a map; a later entry with the same key
/// overwrites an earlier one.
pub open spec fn map_of_entries(entries: Seq<(Seq<char>, UsageView)>) -> Map<Seq<char>, UsageView>
    decreases entries.len(),
{
    if entries.len() == 0 {
        Map::empty()
    } else {
        map_of_entries(entries.drop_last()).insert(entries.last().0, entries.last().1)
    }
}

/// The usage map that a report carries.
pub struct UsageMap {
    entries: Vec<(String, UsageValue)>,
}

impl UsageMap {
    /// The entries in their stored order, with string views taken.
    pub closed spec fn entries_view(self) -> Seq<(Seq<char>, UsageView)> {
        self.entries@.map_values(|e: (String, UsageValue)| (e.0@, e.1@))
    }

    /// The abstract map carried by this value.
    pub open spec fn as_map(self) -> Map<Seq<char>, UsageView> {
        map_of_entries(self.entries_view())
    }

    /// Keys are pairwise distinct, so an entry position determines the key.
    pub open spec fn wf(self) -> bool {
        forall|i: int, j: int|
            0 <= i < j < self.entries_view().len() ==> self.entries_view()[i].0
                != self.entries_view()[j].0
    }

    pub fn new() -> (r: UsageMap)
        ensures
            r.wf(),
            r.as_map() == Map::<Seq<char>, UsageView>::empty(),
            r.entries_view() == Seq::<(Seq<char>, UsageView)>::empty(),
    {
        let r = UsageMap { entries: Vec::new() };
        proof {
            assert(r.entries_view() =~= Seq::<(Seq<char>, UsageView)>::empty());
        }
        r
    }

    /// Inserts `value` under `key`, overwriting any earlier entry with the
    /// same key.
    pub fn insert(&mut self, key: String, value: UsageValue)
        requires
            old(self).wf(),
        ensures
            final(self).wf(),
            final(self).as_map() == old(self).as_map().insert(key@, value@),
    {
        let n = self.entries.len();
        for i in 0..n
            invariant
                n == self.entries.len(),
                self.entries_view() == old(self).entries_view(),
                old(self).wf(),
                forall|j: int| 0 <= j < i ==> old(self).entries_view()[j].0 != key@,
        {
            if string_eq(&self.entries[i].0, &key) {
                let ghost pre = self.entries_view();
                proof {
                    assert(pre[i as int].0 == key@);
                }
                self.entries[i].1 = value;
                proof {
                    assert(self.entries_view() =~= pre.update(i as int, (key@, value@)));
                    lemma_map_of_entries_update(pre, i as int, key@, value@);
                }
                return ;
            }
        }
        let ghost pre = self.entries_view();
        self.entries.push((key, value));
        proof {
            assert(self.entries_view() =~= pre.push((key@, value@)));
            assert(pre.push((key@, value@)).drop_last() =~= pre);
            assert(map_of_entries(self.entries_view()) == map_of_entries(pre).insert(
                key@,
                value@,
            ));
        }
    }

    /// Looks a key up, as the tests do; mirrors [`Self::as_map`].
    pub fn lookup(&self, key: &str) -> (r: Option<&UsageValue>)
        requires
            self.wf(),
        ensures
            match r {
                Some(v) => self.as_map().contains_key(key@) && self.as_map()[key@] == v@,
                None => !self.as_map().contains_key(key@),
            },
    {
        let n = self.entries.len();
        for i in 0..n
            invariant
                n == self.entries.len(),
                self.wf(),
                forall|j: int| 0 <= j < i ==> self.entries_view()[j].0 != key@,
        {
            if str_eq(self.entries[i].0.as_str(), key) {
                proof {
                    lemma_map_of_entries_get(self.entries_view(), i as int);
                }
                return Some(&self.entries[i].1);
            }
        }
        proof {
            lemma_map_of_entries_absent(self.entries_view(), key@);
        }
        None
    }

    /// How many entries the map holds.
    pub fn len(&self) -> (r: usize)
        ensures
            r == self.entries_view().len(),
    {
        self.entries.len()
    }
}

/// The JSON text of one usage value: a bare boolean, the number's own
/// text, or the quoted shape token.
pub open spec fn json_usage_value(u: UsageView) -> Seq<char> {
    match u {
        UsageView::Bool(b) => if b {
            "true"@
        } else {
            "false"@
        },
        UsageView::Number(t) => t,
        UsageView::SetToken => "\"set\""@,
    }
}

/// The JSON text of one usage entry.
pub open spec fn json_entry(e: (Seq<char>, UsageView)) -> Seq<char> {
    crate::jsonfmt::json_string(e.0) + ":"@ + json_usage_value(e.1)
}

/// The JSON text of the usage entries in order, comma-separated.
pub open spec fn json_entries(entries: Seq<(Seq<char>, UsageView)>) -> Seq<char>
    decreases entries.len(),
{
    if entries.len() == 0 {
        Seq::empty()
    } else if entries.len() == 1 {
        json_entry(entries.last())
    } else {
        json_entries(entries.drop_last()) + ","@ + json_entry(entries.last())
    }
}

impl UsageMap {
    /// Renders the entries as the body of a JSON object.
    pub fn to_json_body(&self) -> (r: String)
        ensures
            r@ == json_entries(self.entries_view()),
    {
        let n = self.entries.len();
        let mut r = String::new();
        for i in 0..n
            invariant
                n == self.entries.len(),
                r@ == json_entries(self.entries_view().subrange(0, i as int)),
        {
            proof {
                let e = self.entries@[i as int];
                assert(self.entries_view()[i as int] == (e.0@, e.1@));
            }
            if i > 0 {
                r.append(",");
            }
            let key_json = crate::jsonfmt::json_string_of(self.entries[i].0.as_str());
            r.append(key_json.as_str());
            r.append(":");
            match &self.entries[i].1 {
                UsageValue::Bool(b) => {
                    if *b {
                        r.append("true");
                    } else {
                        r.append("false");
                    }
                },
                UsageValue::Number(t) => {
                    r.append(t.as_str());
                },
                UsageValue::SetToken => {
                    r.append("\"set\"");
                },
            }
            proof {
                let pre = self.entries_view().subrange(0, i as int);
                let cur = self.entries_view().subrange(0, i + 1);
                assert(cur.drop_last() =~= pre);
                assert(cur.last() == self.entries_view()[i as int]);
                assert(r@ =~= json_entries(cur));
            }
        }
        proof {
            assert(self.entries_view().subrange(0, n as int) =~= self.entries_view());
        }
        r
    }
}

/// String equality on views.
pub fn string_eq(a: &String, b: &String) -> (r: bool)
    ensures
        r == (a@ == b@),
{
    a.eq(b)
}

/// String-slice equality on views.
pub fn str_eq(a: &str, b: &str) -> (r: bool)
    ensures
        r == (a@ == b@),
{
    let a_s = a.to_owned();
    let b_s = b.to_owned();
    a_s.eq(&b_s)
}

/// Overwriting the value at position `i` of an entry list whose keys are
/// distinct changes the folded map exactly by an insert of that key.
proof fn lemma_map_of_entries_update(
    entries: Seq<(Seq<char>, UsageView)>,
    i: int,
    key: Seq<char>,
    value: UsageView,
)
    requires
        0 <= i < entries.len(),
        entries[i].0 == key,
        forall|p: int, q: int|
            0 <= p < q < entries.len() ==> entries[p].0 != entries[q].0,
    ensures
        map_of_entries(entries.update(i, (key, value))) == map_of_entries(entries).insert(
            key,
            value,
        ),
    decreases entries.len(),
{
    let upd = entries.update(i, (key, value));
    if i == entries.len() - 1 {
        assert(upd.drop_last() =~= entries.drop_last());
        assert(map_of_entries(upd) =~= map_of_entries(entries).insert(key, value));
    } else {
        assert(upd.drop_last() =~= entries.drop_last().update(i, (key, value)));
        lemma_map_of_entries_update(entries.drop_last(), i, key, value);
        assert(entries.last().0 != key);
        assert(map_of_entries(upd) =~= map_of_entries(entries).insert(key, value));
    }
}

/// The folded map holds the value stored at position `i` when keys are
/// distinct.
proof fn lemma_map_of_entries_get(entries: Seq<(Seq<char>, UsageView)>, i: int)
    requires
        0 <= i < entries.len(),
        forall|p: int, q: int|
            0 <= p < q < entries.len() ==> entries[p].0 != entries[q].0,
    ensures
        map_of_entries(entries).contains_key(entries[i].0),
        map_of_entries(entries)[entries[i].0] == entries[i].1,
    decreases entries.len(),
{
    if i < entries.len() - 1 {
        lemma_map_of_entries_get(entries.drop_last(), i);
        assert(entries.last().0 != entries[i].0);
    }
}

/// A key under none of the entries is absent from the folded map.
proof fn lemma_map_of_entries_absent(entries: Seq<(Seq<char>, UsageView)>, key: Seq<char>)
    requires
        forall|j: int| 0 <= j < entries.len() ==> entries[j].0 != key,
    ensures
        !map_of_entries(entries).contains_key(key),
    decreases entries.len(),
{
    if entries.len() > 0 {
        lemma_map_of_entries_absent(entries.drop_last(), key);
    }
}

} // verus!
