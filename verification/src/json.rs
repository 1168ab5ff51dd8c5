//! JSON documents as plain data, read and written by `serde_json`.

use vstd::map::*;
use vstd::prelude::*;

use crate::text::{held, outcome, same};

verus! {

/// A JSON number: a whole number that is not negative, a negative one, or any other number by
/// the bits of its floating-point form.
#[derive(Clone, Copy, Debug, PartialEq, Eq, Structural)]
pub enum JsonNumber {
    Unsigned(u64),
    Negative(i64),
    Fraction(u64),
}

/// What a JSON document says.
#[verifier::ext_equal]
pub enum JsonTree {
    Null,
    Bool(bool),
    Number(JsonNumber),
    Text(Seq<char>),
    Array(Seq<JsonTree>),
    Object(Map<Seq<char>, JsonTree>),
}

/// A JSON document. Where a name occurs twice in an object, the first member counts.
#[derive(Debug)]
pub enum Json {
    Null,
    Bool(bool),
    Number(JsonNumber),
    Text(String),
    Array(Vec<Json>),
    Object(Vec<(String, Json)>),
}

/// The members of an object by name; of two with one name the first counts.
pub open spec fn members_by_name(members: Seq<(Seq<char>, JsonTree)>) -> Map<Seq<char>, JsonTree>
    decreases members.len(),
{
    if members.len() == 0 {
        Map::empty()
    } else {
        members_by_name(members.drop_first()).insert(members[0].0, members[0].1)
    }
}

/// What each document of a list says.
pub open spec fn trees_of(items: Seq<Json>) -> Seq<JsonTree>
    decreases items,
{
    if items.len() == 0 {
        seq![]
    } else {
        trees_of(items.drop_last()).push(items.last().tree())
    }
}

/// What each member of an object says.
pub open spec fn pairs_of(members: Seq<(String, Json)>) -> Seq<(Seq<char>, JsonTree)>
    decreases members,
{
    if members.len() == 0 {
        seq![]
    } else {
        pairs_of(members.drop_last()).push((members.last().0@, members.last().1.tree()))
    }
}

impl Json {
    /// What this document says.
    pub open spec fn tree(self) -> JsonTree
        decreases self,
    {
        match self {
            Json::Null => JsonTree::Null,
            Json::Bool(flag) => JsonTree::Bool(flag),
            Json::Number(number) => JsonTree::Number(number),
            Json::Text(text) => JsonTree::Text(text@),
            Json::Array(items) => JsonTree::Array(trees_of(items@)),
            Json::Object(members) => JsonTree::Object(members_by_name(pairs_of(members@))),
        }
    }
}

impl View for Json {
    type V = JsonTree;

    open spec fn view(&self) -> JsonTree {
        self.tree()
    }
}

/// The lists that `trees_of` and `pairs_of` give, place by place.
pub proof fn lemma_lists(items: Seq<Json>, members: Seq<(String, Json)>)
    ensures
        trees_of(items).len() == items.len(),
        forall|i: int| 0 <= i < items.len() ==> #[trigger] trees_of(items)[i] == items[i]@,
        pairs_of(members).len() == members.len(),
        forall|i: int|
            0 <= i < members.len() ==> #[trigger] pairs_of(members)[i] == (
                members[i].0@,
                members[i].1@,
            ),
    decreases items.len() + members.len(),
{
    if items.len() > 0 {
        lemma_lists(items.drop_last(), members);
    } else if members.len() > 0 {
        lemma_lists(items, members.drop_last());
    }
}

/// The member of an object, if the document is an object that has it.
pub open spec fn tree_member(tree: JsonTree, name: Seq<char>) -> Option<JsonTree> {
    match tree {
        JsonTree::Object(members) => if members.contains_key(name) {
            Some(members[name])
        } else {
            None
        },
        _ => None,
    }
}

/// The text that a document is, if it is one.
pub open spec fn tree_text(tree: JsonTree) -> Option<Seq<char>> {
    match tree {
        JsonTree::Text(text) => Some(text),
        _ => None,
    }
}

/// The number that a document is, if it is one.
pub open spec fn tree_number(tree: JsonTree) -> Option<JsonNumber> {
    match tree {
        JsonTree::Number(number) => Some(number),
        _ => None,
    }
}

/// The number that a document is, if it is a whole one from zero to `u64::MAX`.
pub open spec fn tree_unsigned(tree: JsonTree) -> Option<u64> {
    match tree {
        JsonTree::Number(JsonNumber::Unsigned(n)) => Some(n),
        _ => None,
    }
}

/// The number that a document is, if it is a whole one in the range of `i64`.
pub open spec fn tree_signed(tree: JsonTree) -> Option<i64> {
    match tree {
        JsonTree::Number(JsonNumber::Unsigned(n)) => if n <= i64::MAX {
            Some(n as i64)
        } else {
            None
        },
        JsonTree::Number(JsonNumber::Negative(n)) => Some(n),
        _ => None,
    }
}

impl Json {
    /// The member named `name`, if this is an object that has one.
    pub fn get(&self, name: &str) -> (member: Option<&Json>)
        ensures
            member is Some <==> tree_member(self@, name@) is Some,
            member matches Some(value) ==> tree_member(self@, name@) == Some(value@),
    {
        match self {
            Json::Object(members) => {
                let ghost pairs = pairs_of(members@);
                proof {
                    lemma_lists(seq![], members@);
                }
                assert(pairs.skip(0) =~= pairs);
                for at in 0..members.len()
                    invariant
                        pairs.len() == members@.len(),
                        forall|i: int|
                            0 <= i < members@.len() ==> #[trigger] pairs[i] == (
                                members@[i].0@,
                                members@[i].1@,
                            ),
                        self@ == JsonTree::Object(members_by_name(pairs)),
                        members_by_name(pairs).contains_key(name@) == members_by_name(
                            pairs.skip(at as int),
                        ).contains_key(name@),
                        members_by_name(pairs)[name@] == members_by_name(
                            pairs.skip(at as int),
                        )[name@],
                {
                    assert(pairs.skip(at as int).drop_first() =~= pairs.skip(at + 1));
                    assert(pairs.skip(at as int)[0] == pairs[at as int]);
                    if same(members[at].0.as_str(), name) {
                        return Some(&members[at].1);
                    }
                }
                assert(pairs.skip(members@.len() as int).len() == 0);
                None
            },
            _ => None,
        }
    }

    /// The member named `name`, if this is an object that has one, on its own.
    pub fn into_member(self, name: &str) -> (member: Option<Json>)
        ensures
            held(member) == tree_member(self@, name@),
    {
        match self {
            Json::Object(members) => {
                let ghost pairs = pairs_of(members@);
                let ghost all = members@;
                proof {
                    lemma_lists(seq![], members@);
                }
                assert(pairs.skip(0) =~= pairs);
                let mut members = members;
                let mut at: usize = 0;
                while at < members.len()
                    invariant
                        members@ == all,
                        at <= all.len(),
                        pairs.len() == all.len(),
                        forall|i: int|
                            0 <= i < all.len() ==> #[trigger] pairs[i] == (all[i].0@, all[i].1@),
                        self@ == JsonTree::Object(members_by_name(pairs)),
                        members_by_name(pairs).contains_key(name@) == members_by_name(
                            pairs.skip(at as int),
                        ).contains_key(name@),
                        members_by_name(pairs)[name@] == members_by_name(
                            pairs.skip(at as int),
                        )[name@],
                    decreases all.len() - at,
                {
                    assert(pairs.skip(at as int).drop_first() =~= pairs.skip(at + 1));
                    assert(pairs.skip(at as int)[0] == pairs[at as int]);
                    if same(members[at].0.as_str(), name) {
                        let (_, member) = members.remove(at);
                        return Some(member);
                    }
                    at = at + 1;
                }
                assert(pairs.skip(all.len() as int).len() == 0);
                None
            },
            _ => None,
        }
    }

    /// The text that this is, if it is one.
    pub fn as_str(&self) -> (text: Option<&str>)
        ensures
            text is Some <==> tree_text(self@) is Some,
            text matches Some(t) ==> tree_text(self@) == Some(t@),
    {
        match self {
            Json::Text(text) => Some(text.as_str()),
            _ => None,
        }
    }

    /// The number that this is, if it is one.
    pub fn as_number(&self) -> (number: Option<JsonNumber>)
        ensures
            number == tree_number(self@),
    {
        match self {
            Json::Number(number) => Some(*number),
            _ => None,
        }
    }

    /// The number that this is, if it is a whole one from zero to `u64::MAX`.
    pub fn as_u64(&self) -> (number: Option<u64>)
        ensures
            number == tree_unsigned(self@),
    {
        match self {
            Json::Number(JsonNumber::Unsigned(n)) => Some(*n),
            _ => None,
        }
    }

    /// The number that this is, if it is a whole one in the range of `i64`.
    pub fn as_i64(&self) -> (number: Option<i64>)
        ensures
            number == tree_signed(self@),
    {
        match self {
            Json::Number(JsonNumber::Unsigned(n)) => if *n <= i64::MAX as u64 {
                Some(*n as i64)
            } else {
                None
            },
            Json::Number(JsonNumber::Negative(n)) => Some(*n),
            _ => None,
        }
    }

    /// Whether this is `null`.
    pub fn is_null(&self) -> (r: bool)
        ensures
            r == (self@ is Null),
    {
        match self {
            Json::Null => true,
            _ => false,
        }
    }
}

/// `serde_json::Value`, carried through and taken apart by `open_value`.
#[verifier::external_type_specification]
#[verifier::external_body]
pub struct ExValue(serde_json::Value);

/// What a `serde_json::Value` holds.
pub uninterp spec fn value_tree(value: serde_json::Value) -> JsonTree;

/// What `serde_json` reads from a JSON text given as bytes: the document, or its complaint.
pub uninterp spec fn document(text: Seq<u8>) -> Result<JsonTree, Seq<char>>;

/// What `serde_json` reads from a JSON text: the document, or its complaint.
pub uninterp spec fn line_document(text: Seq<char>) -> Result<JsonTree, Seq<char>>;

/// The bytes that `serde_json` writes for a document, or its complaint.
pub uninterp spec fn document_bytes(tree: JsonTree) -> Result<Seq<u8>, Seq<char>>;

/// One layer of a `serde_json::Value`: a number by what `as_u64`, `as_i64` and the bits of
/// `as_f64` give, a list and an object by what they hold.
pub enum JsonNode {
    Null,
    Bool(bool),
    Number(Option<u64>, Option<i64>, Option<u64>),
    Text(String),
    Array(Vec<serde_json::Value>),
    Object(Vec<(String, serde_json::Value)>),
}

/// Whether the three readings are those of `number`.
pub open spec fn reads_as(
    number: JsonNumber,
    unsigned: Option<u64>,
    signed: Option<i64>,
    bits: Option<u64>,
) -> bool {
    match number {
        JsonNumber::Unsigned(n) => unsigned == Some(n),
        JsonNumber::Negative(n) => unsigned is None && signed == Some(n),
        JsonNumber::Fraction(b) => unsigned is None && signed is None && bits == Some(b),
    }
}

/// The values of a list by what they hold.
pub open spec fn value_trees(items: Seq<serde_json::Value>) -> Seq<JsonTree> {
    items.map_values(|item: serde_json::Value| value_tree(item))
}

/// The members of an object by what they hold.
pub open spec fn value_pairs(members: Seq<(String, serde_json::Value)>) -> Seq<
    (Seq<char>, JsonTree),
> {
    members.map_values(|member: (String, serde_json::Value)| (member.0@, value_tree(member.1)))
}

/// Whether no name occurs twice.
pub open spec fn names_differ(members: Seq<(Seq<char>, JsonTree)>) -> bool {
    forall|i: int, j: int| 0 <= i < j < members.len() ==> members[i].0 != members[j].0
}

/// Whether `node` is the top layer of `tree`.
pub open spec fn is_layer(node: JsonNode, tree: JsonTree) -> bool {
    match node {
        JsonNode::Null => tree is Null,
        JsonNode::Bool(flag) => tree == JsonTree::Bool(flag),
        JsonNode::Number(unsigned, signed, bits) => tree matches JsonTree::Number(number)
            && reads_as(number, unsigned, signed, bits),
        JsonNode::Text(text) => tree == JsonTree::Text(text@),
        JsonNode::Array(items) => tree == JsonTree::Array(value_trees(items@)),
        JsonNode::Object(members) => names_differ(value_pairs(members@)) && tree
            == JsonTree::Object(members_by_name(value_pairs(members@))),
    }
}

/// The outcome of reading a JSON text, by what it holds.
pub open spec fn value_outcome(r: Result<serde_json::Value, String>) -> Result<
    JsonTree,
    Seq<char>,
> {
    match r {
        Ok(value) => Ok(value_tree(value)),
        Err(error) => Err(error@),
    }
}

/// `serde_json::from_slice` into a `serde_json::Value`: what it reads from the bytes is named,
/// and so is what its error prints.
#[verifier::external_body]
fn value_from_slice(bytes: &[u8]) -> (r: Result<serde_json::Value, String>)
    ensures
        value_outcome(r) == document(bytes@),
{
    serde_json::from_slice(bytes).map_err(|error| error.to_string())
}

/// `serde_json::from_str` into a `serde_json::Value`: what it reads from the text is named, and
/// so is what its error prints.
#[verifier::external_body]
fn value_from_str(text: &str) -> (r: Result<serde_json::Value, String>)
    ensures
        value_outcome(r) == line_document(text@),
{
    serde_json::from_str(text).map_err(|error| error.to_string())
}

/// The variants of `serde_json::Value` taken apart: a number gives its `as_u64`, `as_i64` and
/// `as_f64`, of which the first is there for whole numbers from zero on, the second for negative
/// whole numbers too; no two members of an object share a name.
#[verifier::external_body]
fn open_value(value: serde_json::Value) -> (node: JsonNode)
    ensures
        is_layer(node, value_tree(value)),
{
    match value {
        serde_json::Value::Null => JsonNode::Null,
        serde_json::Value::Bool(flag) => JsonNode::Bool(flag),
        serde_json::Value::Number(number) => JsonNode::Number(
            number.as_u64(),
            number.as_i64(),
            number.as_f64().map(|reading| reading.to_bits()),
        ),
        serde_json::Value::String(text) => JsonNode::Text(text),
        serde_json::Value::Array(items) => JsonNode::Array(items),
        serde_json::Value::Object(members) => JsonNode::Object(members.into_iter().collect()),
    }
}

/// The variants of `serde_json::Value` put together: a number from its `u64`, an object from
/// members that differ in name.
#[verifier::external_body]
fn close_value(node: JsonNode) -> (value: serde_json::Value)
    requires
        node matches JsonNode::Number(unsigned, _, _) ==> unsigned is Some,
        node matches JsonNode::Object(members) ==> names_differ(value_pairs(members@)),
    ensures
        is_layer(node, value_tree(value)),
{
    match node {
        JsonNode::Null => serde_json::Value::Null,
        JsonNode::Bool(flag) => serde_json::Value::Bool(flag),
        JsonNode::Number(unsigned, _, _) => serde_json::Value::from(unsigned),
        JsonNode::Text(text) => serde_json::Value::String(text),
        JsonNode::Array(items) => serde_json::Value::Array(items),
        JsonNode::Object(members) => serde_json::Value::Object(members.into_iter().collect()),
    }
}

/// `serde_json::to_vec` on a `serde_json::Value`: the bytes are named by what the value holds,
/// and so is what its error prints.
#[verifier::external_body]
fn value_to_vec(value: &serde_json::Value) -> (r: Result<Vec<u8>, String>)
    ensures
        outcome(r) == document_bytes(value_tree(*value)),
{
    serde_json::to_vec(value).map_err(|error| error.to_string())
}

/// A `serde_json::Value` as plain data.
fn lift(value: serde_json::Value) -> (json: Json)
    ensures
        json@ == value_tree(value),
    decreases value_tree(value),
{
    let ghost tree = value_tree(value);
    match open_value(value) {
        JsonNode::Null => Json::Null,
        JsonNode::Bool(flag) => Json::Bool(flag),
        JsonNode::Number(unsigned, signed, bits) => match (unsigned, signed, bits) {
            (Some(n), _, _) => Json::Number(JsonNumber::Unsigned(n)),
            (None, Some(n), _) => Json::Number(JsonNumber::Negative(n)),
            (None, None, Some(b)) => Json::Number(JsonNumber::Fraction(b)),
            (None, None, None) => Json::Null,
        },
        JsonNode::Text(text) => Json::Text(text),
        JsonNode::Array(values) => {
            let mut items: Vec<Json> = Vec::new();
            let ghost trees = value_trees(values@);
            let ghost all = values@;
            for item in it: values
                invariant
                    tree == value_tree(value),
                    it.seq() == all,
                    trees == value_trees(all),
                    tree == JsonTree::Array(trees),
                    items@.len() == it.index(),
                    forall|i: int| 0 <= i < items@.len() ==> #[trigger] items@[i]@ == trees[i],
            {
                assert(value_tree(item) == trees[it.index()]);
                assert(decreases_to!(tree => tree->Array_0));
                assert(decreases_to!(trees => trees[it.index()]));
                items.push(lift(item));
            }
            proof {
                lemma_lists(items@, seq![]);
                assert(trees_of(items@) =~= trees);
            }
            Json::Array(items)
        },
        JsonNode::Object(values) => {
            let mut members: Vec<(String, Json)> = Vec::new();
            let ghost pairs = value_pairs(values@);
            let ghost all = values@;
            for item in it: values
                invariant
                    tree == value_tree(value),
                    it.seq() == all,
                    pairs == value_pairs(all),
                    tree == JsonTree::Object(members_by_name(pairs)),
                    names_differ(pairs),
                    members@.len() == it.index(),
                    forall|i: int|
                        0 <= i < members@.len() ==> #[trigger] pairs[i] == (
                            members@[i].0@,
                            members@[i].1@,
                        ),
            {
                let (name, inner) = item;
                proof {
                    assert((name@, value_tree(inner)) == pairs[it.index()]);
                    lemma_named(pairs, it.index());
                    assert(members_by_name(pairs)[name@] == value_tree(inner));
                    assert(decreases_to!(tree => tree->Object_0));
                    assert(decreases_to!(members_by_name(pairs) => members_by_name(pairs)[name@]));
                }
                members.push((name, lift(inner)));
            }
            proof {
                lemma_lists(seq![], members@);
                assert(pairs_of(members@) =~= pairs);
            }
            Json::Object(members)
        },
    }
}

/// Where no name occurs twice, each member is the one under its name.
proof fn lemma_named(members: Seq<(Seq<char>, JsonTree)>, at: int)
    requires
        names_differ(members),
        0 <= at < members.len(),
    ensures
        members_by_name(members).contains_key(members[at].0),
        members_by_name(members)[members[at].0] == members[at].1,
        members_by_name(members).dom().finite(),
    decreases members.len(),
{
    lemma_finite_members(members);
    if at > 0 {
        lemma_named(members.drop_first(), at - 1);
    }
}

/// An object has finitely many members.
proof fn lemma_finite_members(members: Seq<(Seq<char>, JsonTree)>)
    ensures
        members_by_name(members).dom().finite(),
    decreases members.len(),
{
    if members.len() > 0 {
        lemma_finite_members(members.drop_first());
        let rest = members_by_name(members.drop_first());
        assert(members_by_name(members).dom() =~= rest.dom().insert(members[0].0));
    } else {
        assert(members_by_name(members).dom() =~= Set::<Seq<char>>::empty());
    }
}

/// Whether `serde_json` can be handed this document to write: its numbers are whole and not
/// negative, and no object names a member twice.
pub open spec fn writable(json: Json) -> bool
    decreases json,
{
    match json {
        Json::Number(number) => number is Unsigned,
        Json::Array(items) => forall|i: int|
            0 <= i < items@.len() ==> writable(#[trigger] items@[i]),
        Json::Object(members) => {
            &&& names_differ(pairs_of(members@))
            &&& forall|i: int| 0 <= i < members@.len() ==> writable((#[trigger] members@[i]).1)
        },
        _ => true,
    }
}

/// Plain data as a `serde_json::Value`.
fn lower(json: Json) -> (value: serde_json::Value)
    requires
        writable(json),
    ensures
        value_tree(value) == json@,
    decreases json,
{
    match json {
        Json::Null => close_value(JsonNode::Null),
        Json::Bool(flag) => close_value(JsonNode::Bool(flag)),
        Json::Number(JsonNumber::Unsigned(n)) => close_value(JsonNode::Number(Some(n), None, None)),
        Json::Number(_) => close_value(JsonNode::Null),
        Json::Text(text) => close_value(JsonNode::Text(text)),
        Json::Array(items) => {
            let ghost all = items@;
            let mut values: Vec<serde_json::Value> = Vec::new();
            for item in it: items
                invariant
                    json == Json::Array(items),
                    writable(json),
                    all == items@,
                    it.seq() == all,
                    values@.len() == it.index(),
                    forall|i: int|
                        0 <= i < values@.len() ==> #[trigger] value_tree(values@[i]) == all[i]@,
            {
                assert(item == items@[it.index()]);
                assert(decreases_to!(json => json->Array_0));
                assert(decreases_to!(items@ => items@[it.index()]));
                values.push(lower(item));
            }
            proof {
                lemma_lists(all, seq![]);
                assert(value_trees(values@) =~= trees_of(all));
            }
            close_value(JsonNode::Array(values))
        },
        Json::Object(members) => {
            let ghost all = members@;
            let mut values: Vec<(String, serde_json::Value)> = Vec::new();
            for member in it: members
                invariant
                    json == Json::Object(members),
                    writable(json),
                    all == members@,
                    it.seq() == all,
                    values@.len() == it.index(),
                    forall|i: int|
                        0 <= i < values@.len() ==> (#[trigger] values@[i]).0@ == all[i].0@
                            && value_tree(values@[i].1) == all[i].1@,
            {
                let (name, inner) = member;
                assert((name, inner) == all[it.index()]);
                assert(decreases_to!(json => members));
                assert(decreases_to!(members => all[it.index()]));
                assert(decreases_to!(all[it.index()] => all[it.index()].1));
                values.push((name, lower(inner)));
            }
            proof {
                lemma_lists(seq![], all);
                assert(value_pairs(values@) =~= pairs_of(all));
            }
            close_value(JsonNode::Object(values))
        },
    }
}

/// An object without members.
pub(crate) fn empty_object() -> (r: Json)
    ensures
        r@ == JsonTree::Object(Map::empty()),
        writable(r),
{
    let members: Vec<(String, Json)> = Vec::new();
    assert(pairs_of(members@) =~= seq![]);
    Json::Object(members)
}

/// An object with one more member, in front of the others.
pub(crate) fn with_member(name: &str, value: Json, rest: Json) -> (r: Json)
    requires
        rest is Object,
        writable(value),
        writable(rest),
        tree_member(rest@, name@) is None,
    ensures
        r is Object,
        writable(r),
        r@ == JsonTree::Object(rest@->Object_0.insert(name@, value@)),
{
    match rest {
        Json::Object(others) => {
            let ghost inner = pairs_of(others@);
            let mut members = others;
            members.insert(0, (name.to_owned(), value));
            proof {
                lemma_lists(seq![], others@);
                lemma_lists(seq![], members@);
                let pairs = pairs_of(members@);
                assert(pairs.drop_first() =~= inner);
                assert(pairs[0].0 == name@ && pairs[0].1 == value@);
                lemma_no_member(inner, name@);
                assert(names_differ(pairs)) by {
                    assert forall|i: int, j: int| 0 <= i < j < pairs.len() implies pairs[i].0
                        != pairs[j].0 by {
                        assert(pairs[j] == inner[j - 1]);
                        if i > 0 {
                            assert(pairs[i] == inner[i - 1]);
                        }
                    }
                }
                assert forall|i: int| 0 <= i < members@.len() implies writable(
                    (#[trigger] members@[i]).1,
                ) by {
                    if i > 0 {
                        assert(members@[i] == others@[i - 1]);
                    }
                }
            }
            Json::Object(members)
        },
        other => other,
    }
}

/// A name that no member is found under is the name of none.
proof fn lemma_no_member(members: Seq<(Seq<char>, JsonTree)>, name: Seq<char>)
    requires
        !members_by_name(members).contains_key(name),
    ensures
        forall|i: int| 0 <= i < members.len() ==> (#[trigger] members[i]).0 != name,
    decreases members.len(),
{
    if members.len() > 0 {
        lemma_no_member(members.drop_first(), name);
        assert forall|i: int| 0 <= i < members.len() implies (#[trigger] members[i]).0 != name by {
            if i > 0 {
                assert(members[i] == members.drop_first()[i - 1]);
            }
        }
    }
}

/// The bytes of a JSON document.
pub(crate) fn encode(json: Json) -> (r: Result<Vec<u8>, String>)
    requires
        writable(json),
    ensures
        outcome(r) == document_bytes(json@),
{
    value_to_vec(&lower(json))
}

/// The JSON document in a file's bytes.
pub fn parse(bytes: &[u8]) -> (r: Result<Json, String>)
    ensures
        outcome(r) == document(bytes@),
{
    match value_from_slice(bytes) {
        Ok(value) => Ok(lift(value)),
        Err(error) => Err(error),
    }
}

/// The JSON document in a line of text.
pub fn parse_line(line: &str) -> (r: Result<Json, String>)
    ensures
        outcome(r) == line_document(line@),
{
    match value_from_str(line) {
        Ok(value) => Ok(lift(value)),
        Err(error) => Err(error),
    }
}

/// What a list of members has under a name: the first that is so named.
proof fn lemma_first_member(members: Seq<(Seq<char>, JsonTree)>, name: Seq<char>, at: int)
    ensures
        0 <= at < members.len() && members[at].0 == name && (forall|i: int|
            0 <= i < at ==> (#[trigger] members[i]).0 != name) ==> members_by_name(
            members,
        ).contains_key(name) && members_by_name(members)[name] == members[at].1,
        (forall|i: int| 0 <= i < members.len() ==> (#[trigger] members[i]).0 != name)
            ==> !members_by_name(members).contains_key(name),
    decreases members.len(),
{
    if members.len() > 0 {
        let rest = members.drop_first();
        lemma_first_member(rest, name, at - 1);
        assert(forall|i: int| 0 <= i < rest.len() ==> #[trigger] rest[i] == members[i + 1]);
        if at > 0 && (forall|i: int| 0 <= i < at ==> (#[trigger] members[i]).0 != name) {
            assert(members[0].0 != name);
        }
    }
}

/// An object has each of its members under its name, of two with one name the first, and no others.
pub proof fn law_object_has_its_members(members: Vec<(String, Json)>, name: Seq<char>, at: int)
    ensures
        0 <= at < members@.len() && members@[at].0@ == name && (forall|i: int|
            0 <= i < at ==> (#[trigger] members@[i]).0@ != name) ==> tree_member(
            Json::Object(members)@,
            name,
        ) == Some(members@[at].1@),
        (forall|i: int| 0 <= i < members@.len() ==> (#[trigger] members@[i]).0@ != name)
            ==> tree_member(Json::Object(members)@, name) is None,
{
    lemma_lists(seq![], members@);
    let pairs = pairs_of(members@);
    lemma_first_member(pairs, name, at);
    assert(
        forall|i: int| 0 <= i < members@.len() ==> #[trigger] pairs[i] == (
            members@[i].0@,
            members@[i].1@,
        )
    );
    if 0 <= at < members@.len() && members@[at].0@ == name && (forall|i: int|
        0 <= i < at ==> (#[trigger] members@[i]).0@ != name) {
        assert forall|i: int| 0 <= i < at implies (#[trigger] pairs[i]).0 != name by {
            assert(members@[i].0@ != name);
        }
    }
    if forall|i: int| 0 <= i < members@.len() ==> (#[trigger] members@[i]).0@ != name {
        assert forall|i: int| 0 <= i < pairs.len() implies (#[trigger] pairs[i]).0 != name by {
            assert(members@[i].0@ != name);
        }
    }
}

/// What a document can be read as: a text as that text alone, a number as that number, and as a
/// whole one where it is one in the range.
pub proof fn law_document_is_read_as_what_it_is(text: String, n: u64, negative: i64, bits: u64)
    ensures
        tree_text(Json::Text(text)@) == Some(text@),
        tree_number(Json::Text(text)@) is None,
        tree_unsigned(Json::Text(text)@) is None,
        tree_text(Json::Null@) is None,
        tree_number(Json::Number(JsonNumber::Unsigned(n))@) == Some(JsonNumber::Unsigned(n)),
        tree_unsigned(Json::Number(JsonNumber::Unsigned(n))@) == Some(n),
        tree_text(Json::Number(JsonNumber::Unsigned(n))@) is None,
        n <= i64::MAX ==> tree_signed(Json::Number(JsonNumber::Unsigned(n))@) == Some(n as i64),
        n > i64::MAX ==> tree_signed(Json::Number(JsonNumber::Unsigned(n))@) is None,
        tree_signed(Json::Number(JsonNumber::Negative(negative))@) == Some(negative),
        tree_unsigned(Json::Number(JsonNumber::Negative(negative))@) is None,
        tree_number(Json::Number(JsonNumber::Fraction(bits))@) == Some(JsonNumber::Fraction(bits)),
        tree_unsigned(Json::Number(JsonNumber::Fraction(bits))@) is None,
        tree_signed(Json::Number(JsonNumber::Fraction(bits))@) is None,
        tree_member(Json::Text(text)@, text@) is None,
{
}

} // verus!
