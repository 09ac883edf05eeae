//! JSON values: the tree the rest of the crate reads and builds, and its
//! conversion to and from text through `serde_json`.

use vstd::prelude::*;

use crate::text;

verus! {

/// The mathematical value of a JSON document.
///
/// An object is the sequence of its entries in document order.
pub enum Tree {
    Null,
    Bool(bool),
    Number(serde_json::Number),
    Str(Seq<char>),
    Array(Seq<Tree>),
    Object(Seq<(Seq<char>, Tree)>),
}

/// `serde_json::Number`: a JSON number, carried through unread.
#[verifier::external_type_specification]
#[verifier::external_body]
pub struct ExNumber(serde_json::Number);

/// `serde_json::Value`: a parsed JSON document.
#[verifier::external_type_specification]
#[verifier::external_body]
pub struct ExValue(serde_json::Value);

/// What a `serde_json::Value` holds, entries of objects in iteration order.
pub uninterp spec fn json_tree(v: serde_json::Value) -> Tree;

/// What `serde_json::from_str::<Value>` reads from a text: the document, or
/// nothing where the text is not valid JSON.
pub uninterp spec fn json_parse(text: Seq<char>) -> Option<Tree>;

/// The text that `serde_json::to_string` writes for a document.
pub uninterp spec fn json_text(tree: Tree) -> Seq<char>;

/// The number that `serde_json::Number::from` makes of an unsigned integer.
pub uninterp spec fn uint_number(n: u64) -> serde_json::Number;

/// The number that `serde_json::Number::from_str` reads from a decimal fraction.
pub uninterp spec fn decimal_number(text: Seq<char>) -> serde_json::Number;

/// `serde_json::Number::clone`: the copy is the same number.
pub assume_specification[ <serde_json::Number as Clone>::clone ](n: &serde_json::Number) -> (r:
    serde_json::Number)
    ensures
        r == *n,
;

/// `<serde_json::Number as From<u64>>::from`: different integers make
/// different numbers.
#[verifier::external_body]
fn number_from_u64(n: u64) -> (r: serde_json::Number)
    ensures
        r == uint_number(n),
        forall|m: u64| #[trigger] uint_number(m) == r ==> m == n,
{
    serde_json::Number::from(n)
}

/// One level of a `serde_json::Value`.
enum Node {
    Null,
    Bool(bool),
    Number(serde_json::Number),
    Str(String),
    Array(Vec<serde_json::Value>),
    Object(Vec<(String, serde_json::Value)>),
}

impl Node {
    spec fn tree(self) -> Tree {
        match self {
            Node::Null => Tree::Null,
            Node::Bool(b) => Tree::Bool(b),
            Node::Number(n) => Tree::Number(n),
            Node::Str(s) => Tree::Str(s@),
            Node::Array(items) => Tree::Array(
                Seq::new(items@.len(), |i: int| json_tree(items@[i])),
            ),
            Node::Object(entries) => Tree::Object(
                Seq::new(entries@.len(), |i: int| (entries@[i].0@, json_tree(entries@[i].1))),
            ),
        }
    }
}

/// Takes a `serde_json::Value` apart, one variant each.
#[verifier::external_body]
fn open_value(v: serde_json::Value) -> (node: Node)
    ensures
        node.tree() == json_tree(v),
{
    match v {
        serde_json::Value::Null => Node::Null,
        serde_json::Value::Bool(b) => Node::Bool(b),
        serde_json::Value::Number(n) => Node::Number(n),
        serde_json::Value::String(s) => Node::Str(s),
        serde_json::Value::Array(items) => Node::Array(items),
        serde_json::Value::Object(map) => Node::Object(map.into_iter().collect()),
    }
}

/// Whether no two entries share a key.
pub open spec fn distinct_keys<T>(entries: Seq<(Seq<char>, T)>) -> bool {
    forall|i: int, j: int|
        0 <= i < j < entries.len() ==> (#[trigger] entries[i]).0 != (#[trigger] entries[j]).0
}

/// Builds a `serde_json::Value` from one level. The entries of an object keep
/// their order, which `serde_json` preserves in this crate's configuration.
#[verifier::external_body]
fn close_value(node: Node) -> (v: serde_json::Value)
    requires
        node.tree() matches Tree::Object(entries) ==> distinct_keys(entries),
    ensures
        json_tree(v) == node.tree(),
{
    match node {
        Node::Null => serde_json::Value::Null,
        Node::Bool(b) => serde_json::Value::Bool(b),
        Node::Number(n) => serde_json::Value::Number(n),
        Node::Str(s) => serde_json::Value::String(s),
        Node::Array(items) => serde_json::Value::Array(items),
        Node::Object(entries) => serde_json::Value::Object(entries.into_iter().collect()),
    }
}

/// Whether the text is a decimal fraction: an integer part without redundant
/// zeros, a point, and at least one more digit.
pub open spec fn decimal_form(text: Seq<char>) -> bool {
    &&& text.len() <= 64
    &&& exists|k: int|
        {
            &&& 0 < k < text.len() - 1
            &&& #[trigger] text[k] == '.'
            &&& k == 1 || text[0] != '0'
            &&& forall|i: int|
                0 <= i < text.len() && i != k ==> '0' <= #[trigger] text[i] <= '9'
        }
}

/// `<serde_json::Number as FromStr>::from_str`: reads a number. A decimal
/// fraction of at most 64 characters is always valid and in range.
#[verifier::external_body]
pub(crate) fn decimal_fraction(text: &str) -> (r: serde_json::Number)
    requires
        decimal_form(text@),
    ensures
        r == decimal_number(text@),
{
    text.parse().unwrap()
}

/// `serde_json::from_str::<serde_json::Value>`: reads a whole text as one JSON
/// document, or fails where it is not valid JSON.
#[verifier::external_body]
fn value_from_text(text: &str) -> (r: Option<serde_json::Value>)
    ensures
        r is Some <==> json_parse(text@) is Some,
        r is Some ==> json_parse(text@) == Some(json_tree(r->0)),
{
    serde_json::from_str(text).ok()
}

/// Whether arrays and objects are nested at most `limit` deep.
pub open spec fn shallow(tree: Tree, limit: nat) -> bool
    decreases tree,
{
    match tree {
        Tree::Array(items) => limit > 0 && forall|i: int|
            0 <= i < items.len() ==> shallow(#[trigger] items[i], (limit - 1) as nat),
        Tree::Object(entries) => limit > 0 && forall|i: int|
            0 <= i < entries.len() ==> shallow((#[trigger] entries[i]).1, (limit - 1) as nat),
        _ => true,
    }
}

/// `serde_json::to_string` on a `serde_json::Value`: writes compact JSON. The
/// text holds no line break, and reading it back gives the same document as
/// long as it is nested no deeper than the reader's limit of 127 levels.
#[verifier::external_body]
fn value_to_text(v: &serde_json::Value) -> (r: String)
    ensures
        r@ == json_text(json_tree(*v)),
        forall|i: int| 0 <= i < r@.len() ==> #[trigger] r@[i] != '\n',
        shallow(json_tree(*v), 127) ==> json_parse(r@) == Some(json_tree(*v)),
{
    serde_json::to_string(v).unwrap_or_default()
}

/// A JSON value.
#[derive(Debug)]
pub enum Json {
    Null,
    Bool(bool),
    Number(serde_json::Number),
    Str(String),
    Array(Vec<Json>),
    Object(Vec<(String, Json)>),
}

impl View for Json {
    type V = Tree;

    open spec fn view(&self) -> Tree
        decreases self,
    {
        match self {
            Json::Null => Tree::Null,
            Json::Bool(b) => Tree::Bool(*b),
            Json::Number(n) => Tree::Number(*n),
            Json::Str(s) => Tree::Str(s@),
            Json::Array(items) => Tree::Array(
                items@.map(
                    |i: int, item: Json|
                        if 0 <= i < items@.len() && item == items@[i] {
                            item.view()
                        } else {
                            Tree::Null
                        },
                ),
            ),
            Json::Object(entries) => Tree::Object(
                entries@.map(
                    |i: int, entry: (String, Json)|
                        (
                            entry.0@,
                            if 0 <= i < entries@.len() && entry == entries@[i] {
                                entry.1.view()
                            } else {
                                Tree::Null
                            },
                        ),
                ),
            ),
        }
    }
}

/// The views of a list of values.
pub open spec fn trees(items: Seq<Json>) -> Seq<Tree> {
    Seq::new(items.len(), |i: int| items[i]@)
}

/// The views of a list of entries.
pub open spec fn entry_trees(entries: Seq<(String, Json)>) -> Seq<(Seq<char>, Tree)> {
    Seq::new(entries.len(), |i: int| (entries[i].0@, entries[i].1@))
}

proof fn lemma_item_below(j: Json, i: int)
    requires
        j matches Json::Array(items) && 0 <= i < items@.len(),
    ensures
        decreases_to!(j => j->Array_0@[i]),
{
    let items = j->Array_0;
    assert(decreases_to!(j => items));
    assert(decreases_to!(items => items@));
    assert(decreases_to!(items@ => items@[i]));
}

proof fn lemma_entry_below(j: Json, i: int)
    requires
        j matches Json::Object(entries) && 0 <= i < entries@.len(),
    ensures
        decreases_to!(j => j->Object_0@[i].1),
{
    let entries = j->Object_0;
    assert(decreases_to!(j => entries));
    assert(decreases_to!(entries => entries@));
    assert(decreases_to!(entries@ => entries@[i]));
    assert(decreases_to!(entries@[i] => entries@[i].1));
}

/// The view of an array is the sequence of its items' views.
pub broadcast proof fn lemma_array_view(items: Vec<Json>)
    ensures
        #[trigger] Json::Array(items).view() == Tree::Array(trees(items@)),
{
    assert(Json::Array(items)@->Array_0 =~= trees(items@));
}

/// The view of an object is the sequence of its entries' views.
pub broadcast proof fn lemma_object_view(entries: Vec<(String, Json)>)
    ensures
        #[trigger] Json::Object(entries).view() == Tree::Object(entry_trees(entries@)),
{
    assert(Json::Object(entries)@->Object_0 =~= entry_trees(entries@));
}

/// Appending an item appends its view.
pub broadcast proof fn lemma_trees_push(items: Seq<Json>, item: Json)
    ensures
        #[trigger] trees(items.push(item)) == trees(items).push(item@),
{
    assert(trees(items.push(item)) =~= trees(items).push(item@));
}

/// Appending an entry appends its view.
pub broadcast proof fn lemma_entry_trees_push(entries: Seq<(String, Json)>, entry: (String, Json))
    ensures
        #[trigger] entry_trees(entries.push(entry)) == entry_trees(entries).push(
            (entry.0@, entry.1@),
        ),
{
    assert(entry_trees(entries.push(entry)) =~= entry_trees(entries).push((entry.0@, entry.1@)));
}

pub broadcast group group_json_view {
    lemma_array_view,
    lemma_object_view,
    lemma_trees_push,
    lemma_entry_trees_push,
}

impl Clone for Json {
    fn clone(&self) -> (r: Json)
        ensures
            r@ == self@,
        decreases self,
    {
        broadcast use group_json_view;

        match self {
            Json::Null => Json::Null,
            Json::Bool(b) => Json::Bool(*b),
            Json::Number(n) => Json::Number(n.clone()),
            Json::Str(s) => Json::Str(s.clone()),
            Json::Array(items) => {
                let mut out: Vec<Json> = Vec::new();
                let mut i: usize = 0;
                while i < items.len()
                    invariant
                        i <= items.len(),
                        trees(out@) =~= trees(items@).take(i as int),
                        *self == Json::Array(*items),
                    decreases items.len() - i,
                {
                    proof {
                        lemma_item_below(*self, i as int);
                        text::lemma_take_push(trees(items@), i as int);
                    }
                    out.push(items[i].clone());
                    i = i + 1;
                }
                assert(trees(out@) =~= trees(items@));
                Json::Array(out)
            },
            Json::Object(entries) => {
                let mut out: Vec<(String, Json)> = Vec::new();
                let mut i: usize = 0;
                while i < entries.len()
                    invariant
                        i <= entries.len(),
                        entry_trees(out@) =~= entry_trees(entries@).take(i as int),
                        *self == Json::Object(*entries),
                    decreases entries.len() - i,
                {
                    proof {
                        lemma_entry_below(*self, i as int);
                        text::lemma_take_push(entry_trees(entries@), i as int);
                    }
                    let entry = &entries[i];
                    out.push((entry.0.clone(), entry.1.clone()));
                    i = i + 1;
                }
                assert(entry_trees(out@) =~= entry_trees(entries@));
                Json::Object(out)
            },
        }
    }
}

/// Converts a parsed document.
pub fn from_value(v: serde_json::Value) -> (r: Json)
    ensures
        r@ == json_tree(v),
    decreases json_tree(v),
{
    broadcast use group_json_view;

    let ghost whole = json_tree(v);
    match open_value(v) {
        Node::Null => Json::Null,
        Node::Bool(b) => Json::Bool(b),
        Node::Number(n) => Json::Number(n),
        Node::Str(s) => Json::Str(s),
        Node::Array(items) => {
            let ghost parts = whole->Array_0;
            let ghost all = items@;
            let mut out: Vec<Json> = Vec::new();
            for item in it: items
                invariant
                    it.seq() == all,
                    whole == json_tree(v),
                    whole == Tree::Array(parts),
                    parts.len() == all.len(),
                    forall|i: int| 0 <= i < all.len() ==> json_tree(all[i]) == #[trigger] parts[i],
                    trees(out@) =~= parts.take(it.index() as int),
            {
                proof {
                    let k = it.index() as int;
                    text::lemma_take_push(parts, k);
                    assert(json_tree(item) == parts[k]);
                    assert(decreases_to!(whole => whole->Array_0));
                    assert(decreases_to!(parts => parts[k]));
                }
                out.push(from_value(item));
            }
            assert(trees(out@) =~= parts);
            Json::Array(out)
        },
        Node::Object(entries) => {
            let ghost parts = whole->Object_0;
            let ghost all = entries@;
            let mut out: Vec<(String, Json)> = Vec::new();
            for entry in it: entries
                invariant
                    it.seq() == all,
                    whole == json_tree(v),
                    whole == Tree::Object(parts),
                    parts.len() == all.len(),
                    forall|i: int|
                        0 <= i < all.len() ==> (all[i].0@, json_tree(all[i].1))
                            == #[trigger] parts[i],
                    entry_trees(out@) =~= parts.take(it.index() as int),
            {
                proof {
                    let k = it.index() as int;
                    text::lemma_take_push(parts, k);
                    assert(parts[k] == (entry.0@, json_tree(entry.1)));
                    assert(decreases_to!(whole => whole->Object_0));
                    assert(decreases_to!(parts => parts[k]));
                    assert(decreases_to!(parts[k] => parts[k].1));
                }
                out.push((entry.0, from_value(entry.1)));
            }
            assert(entry_trees(out@) =~= parts);
            Json::Object(out)
        },
    }
}

/// Whether an entry has the key.
pub open spec fn has_key(entries: Seq<(Seq<char>, Tree)>, key: Seq<char>) -> bool {
    exists|i: int| 0 <= i < entries.len() && (#[trigger] entries[i]).0 == key
}

/// Where the key stands.
pub open spec fn key_index(entries: Seq<(Seq<char>, Tree)>, key: Seq<char>) -> int {
    choose|i: int| 0 <= i < entries.len() && (#[trigger] entries[i]).0 == key
}

/// Sets a key: in its old place if it is there, else at the end.
pub open spec fn put(entries: Seq<(Seq<char>, Tree)>, key: Seq<char>, tree: Tree) -> Seq<
    (Seq<char>, Tree),
> {
    if has_key(entries, key) {
        entries.update(key_index(entries, key), (key, tree))
    } else {
        entries.push((key, tree))
    }
}

/// The document with every repeated key settled: the first place and the last
/// value stay.
pub open spec fn settled(tree: Tree) -> Tree
    decreases tree, 1nat,
{
    match tree {
        Tree::Array(items) => Tree::Array(settled_items(items)),
        Tree::Object(entries) => Tree::Object(settled_entries(entries)),
        _ => tree,
    }
}

/// The items, each settled.
pub open spec fn settled_items(items: Seq<Tree>) -> Seq<Tree>
    decreases items, 0nat,
{
    if items.len() == 0 {
        Seq::empty()
    } else {
        let rest = items.subrange(0, items.len() - 1);
        settled_items(rest).push(settled(items[items.len() - 1]))
    }
}

/// The entries, set one after the other, each settled.
pub open spec fn settled_entries(entries: Seq<(Seq<char>, Tree)>) -> Seq<(Seq<char>, Tree)>
    decreases entries, 0nat,
{
    if entries.len() == 0 {
        Seq::empty()
    } else {
        let rest = entries.subrange(0, entries.len() - 1);
        let last = entries[entries.len() - 1];
        put(settled_entries(rest), last.0, settled(last.1))
    }
}

/// The views of a list of built entries.
spec fn value_entries(entries: Seq<(String, serde_json::Value)>) -> Seq<(Seq<char>, Tree)> {
    Seq::new(entries.len(), |i: int| (entries[i].0@, json_tree(entries[i].1)))
}

/// The documents of a list of built values.
spec fn value_trees(items: Seq<serde_json::Value>) -> Seq<Tree> {
    Seq::new(items.len(), |i: int| json_tree(items[i]))
}

/// Sets a key among built entries.
fn put_value(
    entries: &mut Vec<(String, serde_json::Value)>,
    key: String,
    value: serde_json::Value,
)
    requires
        distinct_keys(value_entries(old(entries)@)),
    ensures
        value_entries(final(entries)@) == put(
            value_entries(old(entries)@),
            key@,
            json_tree(value),
        ),
        distinct_keys(value_entries(final(entries)@)),
{
    let ghost views = value_entries(entries@);
    let mut i: usize = 0;
    while i < entries.len()
        invariant
            i <= entries.len(),
            *entries == *old(entries),
            views == value_entries(entries@),
            distinct_keys(views),
            forall|k: int| 0 <= k < i ==> (#[trigger] views[k]).0 != key@,
        decreases entries.len() - i,
    {
        assert(views[i as int].0 == entries@[i as int].0@);
        if text::same(entries[i].0.as_str(), key.as_str()) {
            assert(has_key(views, key@));
            assert(key_index(views, key@) == i as int) by {
                let j = key_index(views, key@);
                assert(0 <= j < views.len() && views[j].0 == key@);
                if j < i as int {
                    assert(views[j].0 != key@);
                } else if i as int <= j && i as int != j {
                    assert(views[i as int].0 != views[j].0);
                }
            }
            entries[i] = (key, value);
            assert(value_entries(entries@) =~= put(views, key@, json_tree(value)));
            return ;
        }
        i = i + 1;
    }
    entries.push((key, value));
    assert(value_entries(entries@) =~= put(views, key@, json_tree(value)));
}

/// Builds the document that the text is written from; repeated keys are settled.
pub fn to_value(j: &Json) -> (v: serde_json::Value)
    ensures
        json_tree(v) == settled(j@),
    decreases j,
{
    broadcast use group_json_view;

    match j {
        Json::Null => close_value(Node::Null),
        Json::Bool(b) => close_value(Node::Bool(*b)),
        Json::Number(n) => close_value(Node::Number(n.clone())),
        Json::Str(s) => close_value(Node::Str(s.clone())),
        Json::Array(items) => {
            let ghost views = trees(items@);
            let mut out: Vec<serde_json::Value> = Vec::new();
            let mut i: usize = 0;
            while i < items.len()
                invariant
                    i <= items.len(),
                    *j == Json::Array(*items),
                    views == trees(items@),
                    value_trees(out@) =~= settled_items(views.take(i as int)),
                decreases items.len() - i,
            {
                proof {
                    lemma_item_below(*j, i as int);
                    let next = views.take(i + 1);
                    assert(next.subrange(0, next.len() - 1) =~= views.take(i as int));
                }
                out.push(to_value(&items[i]));
                i = i + 1;
            }
            assert(views.take(i as int) =~= views);
            close_value(Node::Array(out))
        },
        Json::Object(entries) => {
            let ghost views = entry_trees(entries@);
            let mut out: Vec<(String, serde_json::Value)> = Vec::new();
            let mut i: usize = 0;
            while i < entries.len()
                invariant
                    i <= entries.len(),
                    *j == Json::Object(*entries),
                    views == entry_trees(entries@),
                    value_entries(out@) =~= settled_entries(views.take(i as int)),
                    distinct_keys(value_entries(out@)),
                decreases entries.len() - i,
            {
                proof {
                    lemma_entry_below(*j, i as int);
                    let next = views.take(i + 1);
                    assert(next.subrange(0, next.len() - 1) =~= views.take(i as int));
                }
                let entry = &entries[i];
                put_value(&mut out, entry.0.clone(), to_value(&entry.1));
                i = i + 1;
            }
            assert(views.take(i as int) =~= views);
            let ghost built = Node::Object(out).tree();
            assert(built->Object_0 =~= value_entries(out@));
            close_value(Node::Object(out))
        },
    }
}

// ---------------------------------------------------------------------------
// Reading
// ---------------------------------------------------------------------------

/// The value of a key: the last entry that has it.
pub open spec fn lookup(entries: Seq<(Seq<char>, Tree)>, key: Seq<char>) -> Option<Tree>
    decreases entries.len(),
{
    if entries.len() == 0 {
        None
    } else if entries.last().0 == key {
        Some(entries.last().1)
    } else {
        lookup(entries.drop_last(), key)
    }
}

/// The value of a key of an object. Other values have no keys.
pub open spec fn field(tree: Tree, key: Seq<char>) -> Option<Tree> {
    match tree {
        Tree::Object(entries) => lookup(entries, key),
        _ => None,
    }
}

/// The characters of a string value.
pub open spec fn as_text(tree: Tree) -> Option<Seq<char>> {
    match tree {
        Tree::Str(s) => Some(s),
        _ => None,
    }
}

/// The string value of a key.
pub open spec fn text_field(tree: Tree, key: Seq<char>) -> Option<Seq<char>> {
    match field(tree, key) {
        Some(value) => as_text(value),
        None => None,
    }
}

impl Json {
    /// A string value.
    pub fn text(s: &str) -> (r: Json)
        ensures
            r@ == Tree::Str(s@),
    {
        Json::Str(s.to_string())
    }

    /// An unsigned integer.
    pub fn uint(n: u64) -> (r: Json)
        ensures
            r@ == Tree::Number(uint_number(n)),
            forall|m: u64| #[trigger] uint_number(m) == uint_number(n) ==> m == n,
    {
        Json::Number(number_from_u64(n))
    }

    /// Reads a text as one JSON document; `None` where it is not valid JSON.
    pub fn parse(text: &str) -> (r: Option<Json>)
        ensures
            r is Some <==> json_parse(text@) is Some,
            r matches Some(j) ==> json_parse(text@) == Some(j@),
    {
        match value_from_text(text) {
            Some(v) => Some(from_value(v)),
            None => None,
        }
    }

    /// Writes the value as compact JSON on one line.
    pub fn to_text(&self) -> (r: String)
        ensures
            r@ == json_text(settled(self@)),
            forall|i: int| 0 <= i < r@.len() ==> #[trigger] r@[i] != '\n',
            shallow(settled(self@), 127) ==> json_parse(r@) == Some(settled(self@)),
    {
        let v = to_value(self);
        value_to_text(&v)
    }

    /// The value of a key.
    pub fn get(&self, key: &str) -> (r: Option<&Json>)
        ensures
            match r {
                Some(j) => field(self@, key@) == Some(j@),
                None => field(self@, key@) is None,
            },
    {
        broadcast use group_json_view;

        match self {
            Json::Object(entries) => {
                let ghost all = entry_trees(entries@);
                let mut i: usize = entries.len();
                assert(all.take(i as int) =~= all);
                while i > 0
                    invariant
                        i <= entries.len(),
                        all == entry_trees(entries@),
                        self@ == Tree::Object(all),
                        lookup(all, key@) == lookup(all.take(i as int), key@),
                    decreases i,
                {
                    i = i - 1;
                    proof {
                        assert(all.take(i + 1).drop_last() =~= all.take(i as int));
                        assert(all.take(i + 1).last() == all[i as int]);
                    }
                    let entry = &entries[i];
                    if text::same(entry.0.as_str(), key) {
                        return Some(&entry.1);
                    }
                }
                None
            },
            _ => None,
        }
    }

    /// The characters of a string value.
    pub fn as_str(&self) -> (r: Option<&str>)
        ensures
            match r {
                Some(s) => as_text(self@) == Some(s@),
                None => as_text(self@) is None,
            },
    {
        match self {
            Json::Str(s) => Some(s.as_str()),
            _ => None,
        }
    }

    /// The items of an array.
    pub fn as_array(&self) -> (r: Option<&Vec<Json>>)
        ensures
            match r {
                Some(items) => self@ == Tree::Array(trees(items@)),
                None => !(self@ is Array),
            },
    {
        broadcast use group_json_view;

        match self {
            Json::Array(items) => Some(items),
            _ => None,
        }
    }

    /// The string value of a key.
    pub fn get_str(&self, key: &str) -> (r: Option<&str>)
        ensures
            match r {
                Some(s) => text_field(self@, key@) == Some(s@),
                None => text_field(self@, key@) is None,
            },
    {
        match self.get(key) {
            Some(value) => value.as_str(),
            None => None,
        }
    }
}

// ---------------------------------------------------------------------------
// Laws
// ---------------------------------------------------------------------------

/// Whether no object in the document repeats a key.
pub open spec fn keyed(tree: Tree) -> bool
    decreases tree,
{
    match tree {
        Tree::Array(items) => forall|i: int| 0 <= i < items.len() ==> keyed(#[trigger] items[i]),
        Tree::Object(entries) => distinct_keys(entries) && forall|i: int|
            0 <= i < entries.len() ==> keyed((#[trigger] entries[i]).1),
        _ => true,
    }
}

/// A document that repeats no key is written as it is.
pub proof fn lemma_keyed_is_settled(tree: Tree)
    requires
        keyed(tree),
    ensures
        settled(tree) == tree,
    decreases tree, 1nat,
{
    match tree {
        Tree::Array(items) => {
            lemma_keyed_items(items);
        },
        Tree::Object(entries) => {
            lemma_keyed_entries(entries);
        },
        _ => {},
    }
}

proof fn lemma_keyed_items(items: Seq<Tree>)
    requires
        forall|i: int| 0 <= i < items.len() ==> keyed(#[trigger] items[i]),
    ensures
        settled_items(items) == items,
    decreases items, 0nat,
{
    if items.len() > 0 {
        let rest = items.subrange(0, items.len() - 1);
        lemma_keyed_items(rest);
        lemma_keyed_is_settled(items[items.len() - 1]);
        assert(rest.push(items[items.len() - 1]) =~= items);
    } else {
        assert(settled_items(items) =~= items);
    }
}

proof fn lemma_keyed_entries(entries: Seq<(Seq<char>, Tree)>)
    requires
        distinct_keys(entries),
        forall|i: int| 0 <= i < entries.len() ==> keyed((#[trigger] entries[i]).1),
    ensures
        settled_entries(entries) == entries,
    decreases entries, 0nat,
{
    if entries.len() > 0 {
        let rest = entries.subrange(0, entries.len() - 1);
        let last = entries[entries.len() - 1];
        lemma_keyed_entries(rest);
        assert(decreases_to!(entries => entries[entries.len() - 1]));
        assert(decreases_to!(last => last.1));
        lemma_keyed_is_settled(last.1);
        assert(!has_key(rest, last.0)) by {
            if has_key(rest, last.0) {
                let i = key_index(rest, last.0);
                assert(rest[i] == entries[i]);
            }
        }
        assert(rest.push(last) =~= entries);
    } else {
        assert(settled_entries(entries) =~= entries);
    }
}

proof fn lemma_lookup_put(
    entries: Seq<(Seq<char>, Tree)>,
    key: Seq<char>,
    tree: Tree,
    wanted: Seq<char>,
)
    requires
        distinct_keys(entries),
    ensures
        distinct_keys(put(entries, key, tree)),
        lookup(put(entries, key, tree), wanted) == (if wanted == key {
            Some(tree)
        } else {
            lookup(entries, wanted)
        }),
    decreases entries.len(),
{
    let after = put(entries, key, tree);
    if has_key(entries, key) {
        let k = key_index(entries, key);
        assert(entries[k].0 == key);
        assert forall|i: int, j: int| 0 <= i < j < after.len() implies (#[trigger] after[i]).0 != (
        #[trigger] after[j]).0 by {
            assert(entries[i].0 != entries[j].0);
        }
        lemma_lookup_at(after, k);
        if wanted != key {
            lemma_lookup_update(entries, k, (key, tree), wanted);
        }
    } else {
        assert(after.drop_last() =~= entries);
        assert forall|i: int, j: int| 0 <= i < j < after.len() implies (#[trigger] after[i]).0 != (
        #[trigger] after[j]).0 by {
            if j == entries.len() {
                assert(entries[i].0 != key);
            } else {
                assert(entries[i].0 != entries[j].0);
            }
        }
    }
}

/// With distinct keys, every entry is what its key reads as.
pub proof fn lemma_lookup_at(entries: Seq<(Seq<char>, Tree)>, k: int)
    requires
        distinct_keys(entries),
        0 <= k < entries.len(),
    ensures
        lookup(entries, entries[k].0) == Some(entries[k].1),
    decreases entries.len(),
{
    if k < entries.len() - 1 {
        assert(entries[k].0 != entries[entries.len() - 1].0);
        let rest = entries.drop_last();
        assert forall|i: int, j: int| 0 <= i < j < rest.len() implies (#[trigger] rest[i]).0 != (
        #[trigger] rest[j]).0 by {
            assert(entries[i].0 != entries[j].0);
        }
        lemma_lookup_at(rest, k);
    }
}

proof fn lemma_lookup_update(
    entries: Seq<(Seq<char>, Tree)>,
    k: int,
    entry: (Seq<char>, Tree),
    wanted: Seq<char>,
)
    requires
        0 <= k < entries.len(),
        entries[k].0 == entry.0,
        wanted != entry.0,
    ensures
        lookup(entries.update(k, entry), wanted) == lookup(entries, wanted),
    decreases entries.len(),
{
    let after = entries.update(k, entry);
    if k < entries.len() - 1 {
        assert(after.drop_last() =~= entries.drop_last().update(k, entry));
        if entries.last().0 != wanted {
            lemma_lookup_update(entries.drop_last(), k, entry, wanted);
        }
    } else {
        assert(after.drop_last() =~= entries.drop_last());
    }
}

proof fn lemma_settled_entries(entries: Seq<(Seq<char>, Tree)>, wanted: Seq<char>)
    ensures
        distinct_keys(settled_entries(entries)),
        lookup(settled_entries(entries), wanted) == (match lookup(entries, wanted) {
            Some(tree) => Some(settled(tree)),
            None => None,
        }),
    decreases entries.len(),
{
    if entries.len() > 0 {
        let rest = entries.subrange(0, entries.len() - 1);
        let last = entries[entries.len() - 1];
        assert(rest =~= entries.drop_last());
        lemma_settled_entries(rest, wanted);
        lemma_lookup_put(settled_entries(rest), last.0, settled(last.1), wanted);
    }
}

/// Settling repeated keys does not change what a key reads as.
pub proof fn law_settling_keeps_what_is_read(tree: Tree, key: Seq<char>)
    ensures
        field(settled(tree), key) == (match field(tree, key) {
            Some(value) => Some(settled(value)),
            None => None,
        }),
{
    match tree {
        Tree::Object(entries) => {
            lemma_settled_entries(entries, key);
        },
        _ => {},
    }
}

/// A key of an object reads as the last entry that has it, and as nothing where
/// none has. Nothing but an object has keys, and nothing but a string has text.
pub proof fn law_a_key_reads_as_its_last_entry(
    entries: Seq<(Seq<char>, Tree)>,
    key: Seq<char>,
    other: Tree,
)
    ensures
        field(Tree::Object(entries), key) is None <==> forall|i: int|
            0 <= i < entries.len() ==> (#[trigger] entries[i]).0 != key,
        field(Tree::Object(entries), key) matches Some(value) ==> exists|i: int|
            {
                &&& 0 <= i < entries.len()
                &&& #[trigger] entries[i] == (key, value)
                &&& forall|j: int| i < j < entries.len() ==> (#[trigger] entries[j]).0 != key
            },
        !(other is Object) ==> field(other, key) is None,
        as_text(other) == (match other {
            Tree::Str(s) => Some(s),
            _ => None,
        }),
        text_field(Tree::Object(entries), key) == (match field(Tree::Object(entries), key) {
            Some(Tree::Str(s)) => Some(s),
            _ => None,
        }),
    decreases entries.len(),
{
    if entries.len() > 0 {
        let rest = entries.drop_last();
        law_a_key_reads_as_its_last_entry(rest, key, other);
        let last = entries[entries.len() - 1];
        if last.0 == key {
            assert(entries[entries.len() - 1] == (key, last.1));
        } else if field(Tree::Object(rest), key) is Some {
            let value = field(Tree::Object(rest), key)->0;
            let i = choose|i: int|
                {
                    &&& 0 <= i < rest.len()
                    &&& #[trigger] rest[i] == (key, value)
                    &&& forall|j: int| i < j < rest.len() ==> (#[trigger] rest[j]).0 != key
                };
            assert(entries[i] == (key, value));
            assert forall|j: int| i < j < entries.len() implies (#[trigger] entries[j]).0
                != key by {
                if j < rest.len() {
                    assert(entries[j] == rest[j]);
                }
            }
        } else {
            assert forall|j: int| 0 <= j < entries.len() implies (#[trigger] entries[j]).0
                != key by {
                if j < rest.len() {
                    assert(entries[j] == rest[j]);
                }
            }
        }
    }
}

/// Setting a key keeps the places of all keys: one that is there keeps its place,
/// and a new one comes last.
pub proof fn law_keys_keep_their_places(
    entries: Seq<(Seq<char>, Tree)>,
    key: Seq<char>,
    tree: Tree,
    i: int,
)
    requires
        distinct_keys(entries),
    ensures
        0 <= i < entries.len() ==> put(entries, key, tree)[i].0 == entries[i].0,
        0 <= i < entries.len() && entries[i].0 == key ==> put(entries, key, tree)[i].1 == tree
            && put(entries, key, tree).len() == entries.len(),
        0 <= i < entries.len() && entries[i].0 != key ==> put(entries, key, tree)[i] == entries[i],
        (forall|j: int| 0 <= j < entries.len() ==> (#[trigger] entries[j]).0 != key) ==> put(
            entries,
            key,
            tree,
        ) == entries.push((key, tree)),
{
    if has_key(entries, key) {
        let k = key_index(entries, key);
        assert(entries[k].0 == key);
        if 0 <= i < entries.len() && entries[i].0 == key && i != k {
            assert(entries[i].0 == entries[k].0);
        }
    }
}

} // verus!
