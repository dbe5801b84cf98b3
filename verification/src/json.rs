//! JSON values and their canonical form, in which the order of object keys has
//! no influence.

use vstd::prelude::*;

use crate::text;
use crate::text::text_less;

verus! {

/// The number type of the JSON crate, carried through unread.
#[verifier::external_type_specification]
#[verifier::external_body]
pub struct ExNumber(serde_json::Number);

/// The value type of the JSON crate, which only its serialiser reads.
#[verifier::external_type_specification]
#[verifier::external_body]
pub struct ExValue(serde_json::Value);

/// The error type of the JSON crate.
#[verifier::external_type_specification]
#[verifier::external_body]
pub struct ExError(serde_json::Error);

/// A JSON value. An object lists its fields; a later field replaces an earlier
/// one of the same name.
#[derive(Debug)]
pub enum Json {
    Null,
    Bool(bool),
    Number(serde_json::Number),
    Text(String),
    Array(Vec<Json>),
    Object(Vec<(String, Json)>),
}

/// What a [`Json`] holds.
pub enum JsonView {
    Null,
    Bool(bool),
    Number(serde_json::Number),
    Text(Seq<char>),
    Array(Seq<JsonView>),
    Object(Seq<(Seq<char>, JsonView)>),
}

impl Json {
    /// What the value holds.
    pub open spec fn view(&self) -> JsonView
        decreases self,
    {
        match self {
            Json::Null => JsonView::Null,
            Json::Bool(b) => JsonView::Bool(*b),
            Json::Number(n) => JsonView::Number(*n),
            Json::Text(s) => JsonView::Text(s@),
            Json::Array(items) => JsonView::Array(items_view(items@)),
            Json::Object(fields) => JsonView::Object(fields_view(fields@)),
        }
    }
}

/// What a list of values holds.
pub open spec fn items_view(items: Seq<Json>) -> Seq<JsonView>
    decreases items,
{
    if items.len() == 0 {
        Seq::empty()
    } else {
        items_view(items.drop_last()).push(items.last().view())
    }
}

/// What a list of fields holds.
pub open spec fn fields_view(fields: Seq<(String, Json)>) -> Seq<(Seq<char>, JsonView)>
    decreases fields,
{
    if fields.len() == 0 {
        Seq::empty()
    } else {
        fields_view(fields.drop_last()).push((fields.last().0@, fields.last().1.view()))
    }
}

/// The canonical form of a value: the fields of every object are listed once
/// each, in the order of their names. Arrays keep their order.
pub open spec fn canonical(value: JsonView) -> JsonView
    decreases value,
{
    match value {
        JsonView::Array(items) => JsonView::Array(canonical_items(items)),
        JsonView::Object(fields) => JsonView::Object(canonical_fields(fields)),
        scalar => scalar,
    }
}

/// The canonical forms of a list of values, in the same order.
pub open spec fn canonical_items(items: Seq<JsonView>) -> Seq<JsonView>
    decreases items,
{
    if items.len() == 0 {
        Seq::empty()
    } else {
        canonical_items(items.drop_last()).push(canonical(items.last()))
    }
}

/// The fields of an object in canonical form.
pub open spec fn canonical_fields(fields: Seq<(Seq<char>, JsonView)>) -> Seq<(Seq<char>, JsonView)>
    decreases fields,
{
    if fields.len() == 0 {
        Seq::empty()
    } else {
        with_field(
            canonical_fields(fields.drop_last()),
            fields.last().0,
            canonical(fields.last().1),
        )
    }
}

/// A list of fields in the order of their names, with one more field put in
/// its place. A field of the same name is replaced.
pub open spec fn with_field(
    fields: Seq<(Seq<char>, JsonView)>,
    name: Seq<char>,
    value: JsonView,
) -> Seq<(Seq<char>, JsonView)>
    decreases fields.len(),
{
    if fields.len() == 0 || text::lex_less(name, fields[0].0) {
        seq![(name, value)] + fields
    } else if name == fields[0].0 {
        seq![(name, value)] + fields.skip(1)
    } else {
        seq![fields[0]] + with_field(fields.skip(1), name, value)
    }
}

proof fn lemma_with_field_at(
    fields: Seq<(Seq<char>, JsonView)>,
    name: Seq<char>,
    value: JsonView,
    at: int,
)
    requires
        0 <= at <= fields.len(),
        forall|i: int| 0 <= i < at ==> !text::lex_less(name, #[trigger] fields[i].0) && name != fields[i].0,
        at < fields.len() ==> text::lex_less(name, fields[at].0) || name == fields[at].0,
    ensures
        at < fields.len() && name == fields[at].0 ==> with_field(fields, name, value)
            == fields.update(at, (name, value)),
        !(at < fields.len() && name == fields[at].0) ==> with_field(fields, name, value)
            == fields.insert(at, (name, value)),
    decreases at,
{
    if at == 0 {
        if fields.len() > 0 {
            text::lemma_lex_irreflexive(name);
        }
        assert(fields.len() > 0 ==> fields.update(0, (name, value)) =~= seq![(name, value)]
            + fields.skip(1));
        assert(fields.insert(0, (name, value)) =~= seq![(name, value)] + fields);
    } else {
        let rest = fields.skip(1);
        assert forall|i: int| 0 <= i < at - 1 implies !text::lex_less(name, #[trigger] rest[i].0) && name
            != rest[i].0 by {
            assert(rest[i] == fields[i + 1]);
        }
        lemma_with_field_at(rest, name, value, at - 1);
        assert(at < fields.len() ==> seq![fields[0]] + rest.update(at - 1, (name, value))
            =~= fields.update(at, (name, value)));
        assert(seq![fields[0]] + rest.insert(at - 1, (name, value)) =~= fields.insert(
            at,
            (name, value),
        ));
        assert(!text::lex_less(name, fields[0].0) && name != fields[0].0);
    }
}

proof fn lemma_items_view(items: Seq<Json>)
    ensures
        items_view(items).len() == items.len(),
        forall|i: int| 0 <= i < items.len() ==> #[trigger] items_view(items)[i] == items[i].view(),
    decreases items,
{
    if items.len() > 0 {
        lemma_items_view(items.drop_last());
    }
}

proof fn lemma_fields_view(fields: Seq<(String, Json)>)
    ensures
        fields_view(fields).len() == fields.len(),
        forall|i: int|
            0 <= i < fields.len() ==> #[trigger] fields_view(fields)[i] == (
                fields[i].0@,
                fields[i].1.view(),
            ),
    decreases fields,
{
    if fields.len() > 0 {
        lemma_fields_view(fields.drop_last());
    }
}

proof fn lemma_canonical_items(items: Seq<JsonView>)
    ensures
        canonical_items(items).len() == items.len(),
        forall|i: int|
            0 <= i < items.len() ==> #[trigger] canonical_items(items)[i] == canonical(items[i]),
    decreases items.len(),
{
    if items.len() > 0 {
        lemma_canonical_items(items.drop_last());
    }
}

/// Puts a value into canonical form.
pub fn canonicalize(value: Json) -> (result: Json)
    ensures
        result@ == canonical(value@),
    decreases value,
{
    match value {
        Json::Array(items) => {
            let mut rest = items;
            let mut reversed: Vec<Json> = Vec::new();
            while rest.len() > 0
                invariant
                    value matches Json::Array(all) && all@ == items@,
                    rest@ == items@.take(rest@.len() as int),
                    rest@.len() + reversed@.len() == items@.len(),
                    forall|i: int|
                        0 <= i < reversed@.len() ==> #[trigger] reversed@[i]@ == canonical(
                            items@[items@.len() - 1 - i]@,
                        ),
                decreases rest.len(),
            {
                let item = rest.pop().unwrap();
                reversed.push(canonicalize(item));
            }
            let mut ordered: Vec<Json> = Vec::new();
            while reversed.len() > 0
                invariant
                    reversed@.len() + ordered@.len() == items@.len(),
                    forall|i: int|
                        0 <= i < reversed@.len() ==> #[trigger] reversed@[i]@ == canonical(
                            items@[items@.len() - 1 - i]@,
                        ),
                    forall|i: int|
                        0 <= i < ordered@.len() ==> #[trigger] ordered@[i]@ == canonical(items@[i]@),
                decreases reversed.len(),
            {
                let item = reversed.pop().unwrap();
                ordered.push(item);
            }
            proof {
                lemma_items_view(items@);
                lemma_items_view(ordered@);
                lemma_canonical_items(items_view(items@));
                assert(items_view(ordered@) =~= canonical_items(items_view(items@)));
            }
            Json::Array(ordered)
        },
        Json::Object(fields) => {
            let mut rest = fields;
            let mut reversed: Vec<(String, Json)> = Vec::new();
            while rest.len() > 0
                invariant
                    value matches Json::Object(all) && all@ == fields@,
                    rest@ == fields@.take(rest@.len() as int),
                    rest@.len() + reversed@.len() == fields@.len(),
                    forall|i: int|
                        0 <= i < reversed@.len() ==> (#[trigger] reversed@[i]).0@
                            == fields@[fields@.len() - 1 - i].0@ && reversed@[i].1@ == canonical(
                            fields@[fields@.len() - 1 - i].1@,
                        ),
                decreases rest.len(),
            {
                let (name, item) = rest.pop().unwrap();
                reversed.push((name, canonicalize(item)));
            }
            let mut sorted: Vec<(String, Json)> = Vec::new();
            let ghost shown = fields_view(fields@);
            proof {
                lemma_fields_view(fields@);
                assert(shown.take(0) =~= Seq::empty());
            }
            while reversed.len() > 0
                invariant
                    shown == fields_view(fields@),
                    shown.len() == fields@.len(),
                    forall|i: int|
                        0 <= i < fields@.len() ==> #[trigger] shown[i] == (
                            fields@[i].0@,
                            fields@[i].1@,
                        ),
                    reversed@.len() <= fields@.len(),
                    forall|i: int|
                        0 <= i < reversed@.len() ==> (#[trigger] reversed@[i]).0@
                            == fields@[fields@.len() - 1 - i].0@ && reversed@[i].1@ == canonical(
                            fields@[fields@.len() - 1 - i].1@,
                        ),
                    fields_view(sorted@) == canonical_fields(shown.take(fields@.len() - reversed@.len())),
                decreases reversed.len(),
            {
                let (name, item) = reversed.pop().unwrap();
                let ghost done = fields@.len() - reversed@.len() - 1;
                proof {
                    assert(shown.take(done + 1).drop_last() =~= shown.take(done));
                    assert(shown.take(done + 1).last() == shown[done]);
                }
                sorted = put_field(sorted, name, item);
            }
            assert(shown.take(shown.len() as int) =~= shown);
            Json::Object(sorted)
        },
        scalar => scalar,
    }
}

/// Puts a field in its place in a list ordered by name, or replaces the field
/// of that name.
fn put_field(fields: Vec<(String, Json)>, name: String, value: Json) -> (result: Vec<(String, Json)>)
    ensures
        fields_view(result@) == with_field(fields_view(fields@), name@, value@),
{
    let mut fields = fields;
    let mut at: usize = 0;
    proof {
        lemma_fields_view(fields@);
    }
    while at < fields.len() && name != fields[at].0 && !text_less(name.as_str(), fields[at].0.as_str())
        invariant
            at <= fields.len(),
            forall|i: int|
                0 <= i < at ==> !text::lex_less(name@, (#[trigger] fields@[i]).0@) && name@
                    != fields@[i].0@,
        decreases fields.len() - at,
    {
        at = at + 1;
    }
    let ghost before = fields@;
    let ghost shown = fields_view(fields@);
    let ghost field = (name@, value@);
    proof {
        lemma_with_field_at(shown, name@, value@, at as int);
    }
    if at < fields.len() && name == fields[at].0 {
        fields.set(at, (name, value));
        proof {
            lemma_fields_view(fields@);
            assert(fields_view(fields@) =~= shown.update(at as int, field));
        }
    } else {
        fields.insert(at, (name, value));
        proof {
            lemma_fields_view(fields@);
            assert(fields_view(fields@) =~= shown.insert(at as int, field));
        }
    }
    fields
}

/// The value that each name has in a list of fields: a later field replaces an
/// earlier one.
pub open spec fn fields_map(fields: Seq<(Seq<char>, JsonView)>) -> Map<Seq<char>, JsonView>
    decreases fields.len(),
{
    if fields.len() == 0 {
        Map::empty()
    } else {
        fields_map(fields.drop_last()).insert(fields.last().0, fields.last().1)
    }
}

/// Whether the names of the fields ascend, so that none occurs twice.
pub open spec fn ascending(fields: Seq<(Seq<char>, JsonView)>) -> bool {
    forall|i: int, j: int|
        0 <= i < j < fields.len() ==> text::lex_less((#[trigger] fields[i]).0, (#[trigger] fields[j]).0)
}

proof fn lemma_ascending_map(fields: Seq<(Seq<char>, JsonView)>)
    requires
        ascending(fields),
    ensures
        forall|i: int|
            0 <= i < fields.len() ==> fields_map(fields).contains_key((#[trigger] fields[i]).0)
                && fields_map(fields)[fields[i].0] == fields[i].1,
        forall|name: Seq<char>| #[trigger]
            fields_map(fields).contains_key(name) ==> exists|i: int|
                0 <= i < fields.len() && (#[trigger] fields[i]).0 == name,
    decreases fields.len(),
{
    if fields.len() > 0 {
        let rest = fields.drop_last();
        assert(ascending(rest));
        lemma_ascending_map(rest);
        assert forall|i: int| 0 <= i < fields.len() implies fields_map(fields).contains_key(
            (#[trigger] fields[i]).0,
        ) && fields_map(fields)[fields[i].0] == fields[i].1 by {
            if i < rest.len() {
                assert(rest[i] == fields[i]);
                assert(text::lex_less(fields[i].0, fields[fields.len() - 1].0));
                text::lemma_lex_irreflexive(fields[i].0);
            }
        }
        assert forall|name: Seq<char>| #[trigger]
            fields_map(fields).contains_key(name) implies exists|i: int|
            0 <= i < fields.len() && (#[trigger] fields[i]).0 == name by {
            if name == fields.last().0 {
                assert(fields[fields.len() - 1].0 == name);
            } else {
                assert(fields_map(rest).contains_key(name));
                let i = choose|i: int| 0 <= i < rest.len() && (#[trigger] rest[i]).0 == name;
                assert(fields[i].0 == name);
            }
        }
    }
}

proof fn lemma_field_place(fields: Seq<(Seq<char>, JsonView)>, name: Seq<char>) -> (at: int)
    requires
        ascending(fields),
    ensures
        0 <= at <= fields.len(),
        forall|i: int|
            0 <= i < at ==> !text::lex_less(name, (#[trigger] fields[i]).0) && name != fields[i].0
                && text::lex_less(fields[i].0, name),
        at < fields.len() ==> text::lex_less(name, fields[at].0) || name == fields[at].0,
        forall|i: int| at < i < fields.len() ==> text::lex_less(name, (#[trigger] fields[i]).0),
    decreases fields.len(),
{
    if fields.len() == 0 {
        0
    } else {
        let rest = fields.drop_last();
        assert(ascending(rest));
        let at = lemma_field_place(rest, name);
        let last = fields[fields.len() - 1];
        assert forall|i: int| 0 <= i < at implies !text::lex_less(name, (#[trigger] fields[i]).0)
            && name != fields[i].0 && text::lex_less(fields[i].0, name) by {
            assert(rest[i] == fields[i]);
        }
        if at < rest.len() {
            assert(rest[at] == fields[at]);
            assert(text::lex_less(fields[at].0, last.0));
            if text::lex_less(name, fields[at].0) {
                text::lemma_lex_transitive(name, fields[at].0, last.0);
            }
            assert forall|i: int| at < i < fields.len() implies text::lex_less(
                name,
                (#[trigger] fields[i]).0,
            ) by {
                if i < rest.len() {
                    assert(rest[i] == fields[i]);
                }
            }
            at
        } else if name == last.0 || text::lex_less(name, last.0) {
            at
        } else {
            text::lemma_lex_total(name, last.0);
            fields.len() as int
        }
    }
}

proof fn lemma_with_field(
    fields: Seq<(Seq<char>, JsonView)>,
    name: Seq<char>,
    value: JsonView,
)
    requires
        ascending(fields),
    ensures
        ascending(with_field(fields, name, value)),
        fields_map(with_field(fields, name, value)) == fields_map(fields).insert(name, value),
        forall|i: int|
            0 <= i < with_field(fields, name, value).len() ==> (#[trigger] with_field(
                fields,
                name,
                value,
            )[i]) == (name, value) || fields.contains(with_field(fields, name, value)[i]),
{
    let at = lemma_field_place(fields, name);
    lemma_with_field_at(fields, name, value, at);
    let result = with_field(fields, name, value);
    let replaced = at < fields.len() && name == fields[at].0;
    assert forall|i: int| 0 <= i < result.len() implies (#[trigger] result[i]) == (name, value)
        || fields.contains(result[i]) by {
        if i < at {
            assert(result[i] == fields[i]);
        } else if i > at {
            assert(result[i] == if replaced {
                fields[i]
            } else {
                fields[i - 1]
            });
        }
    }
    assert forall|i: int, j: int| 0 <= i < j < result.len() implies text::lex_less(
        (#[trigger] result[i]).0,
        (#[trigger] result[j]).0,
    ) by {
        let shift: int = if replaced {
            0
        } else {
            1
        };
        if j < at {
            assert(result[i] == fields[i] && result[j] == fields[j]);
        } else if j == at {
            assert(result[i] == fields[i]);
        } else {
            assert(result[j] == fields[j - shift]);
            if i < at {
                assert(result[i] == fields[i]);
            } else if i > at {
                assert(result[i] == fields[i - shift]);
            }
        }
    }
    lemma_ascending_map(fields);
    lemma_ascending_map(result);
    assert(result[at] == (name, value));
    let left = fields_map(result);
    let right = fields_map(fields).insert(name, value);
    assert forall|key: Seq<char>| #[trigger]
        left.contains_key(key) implies right.contains_key(key) && left[key] == right[key] by {
        let i = choose|i: int| 0 <= i < result.len() && (#[trigger] result[i]).0 == key;
        if i != at {
            assert(fields.contains(result[i]));
            let j = choose|j: int| 0 <= j < fields.len() && fields[j] == result[i];
            assert(fields_map(fields).contains_key(fields[j].0));
            if key == name {
                text::lemma_lex_irreflexive(name);
                if i < at {
                    assert(text::lex_less(result[i].0, result[at].0));
                } else {
                    assert(text::lex_less(result[at].0, result[i].0));
                }
            }
        }
    }
    assert forall|key: Seq<char>| #[trigger] right.contains_key(key) implies left.contains_key(
        key,
    ) by {
        if key == name {
            assert(left.contains_key(result[at].0));
        } else {
            let j = choose|j: int| 0 <= j < fields.len() && (#[trigger] fields[j]).0 == key;
            if j < at {
                assert(result[j] == fields[j]);
            } else if replaced {
                assert(result[j] == fields[j]);
            } else {
                assert(result[j + 1] == fields[j]);
            }
        }
    }
    assert(left =~= right);
}

proof fn lemma_canonical_fields(fields: Seq<(Seq<char>, JsonView)>)
    ensures
        ascending(canonical_fields(fields)),
        fields_map(canonical_fields(fields)) == fields_map(fields).map_values(
            |value: JsonView| canonical(value),
        ),
    decreases fields.len(),
{
    let canon = |value: JsonView| canonical(value);
    if fields.len() == 0 {
        assert(fields_map(fields).map_values(canon) =~= Map::empty());
    } else {
        let rest = fields.drop_last();
        lemma_canonical_fields(rest);
        lemma_with_field(canonical_fields(rest), fields.last().0, canonical(fields.last().1));
        assert(fields_map(fields).map_values(canon) =~= fields_map(rest).map_values(canon).insert(
            fields.last().0,
            canonical(fields.last().1),
        ));
    }
}

proof fn lemma_ascending_unique(
    a: Seq<(Seq<char>, JsonView)>,
    b: Seq<(Seq<char>, JsonView)>,
)
    requires
        ascending(a),
        ascending(b),
        fields_map(a) == fields_map(b),
    ensures
        a == b,
    decreases a.len(),
{
    lemma_ascending_map(a);
    lemma_ascending_map(b);
    if a.len() == 0 {
        if b.len() > 0 {
            assert(fields_map(a).contains_key(b[0].0));
        }
        assert(a =~= b);
    } else {
        let last = a[a.len() - 1];
        assert(fields_map(b).contains_key(last.0));
        let j = choose|j: int| 0 <= j < b.len() && (#[trigger] b[j]).0 == last.0;
        let end = b[b.len() - 1];
        assert(fields_map(a).contains_key(end.0));
        let i = choose|i: int| 0 <= i < a.len() && (#[trigger] a[i]).0 == end.0;
        if j < b.len() - 1 {
            assert(text::lex_less(b[j].0, end.0));
            if i < a.len() - 1 {
                assert(text::lex_less(a[i].0, last.0));
                text::lemma_lex_transitive(last.0, end.0, last.0);
            }
            text::lemma_lex_irreflexive(last.0);
        }
        assert(end == last);
        let rest_a = a.drop_last();
        let rest_b = b.drop_last();
        assert(ascending(rest_a) && ascending(rest_b));
        lemma_ascending_map(rest_a);
        lemma_ascending_map(rest_b);
        assert forall|name: Seq<char>| #[trigger]
            fields_map(rest_a).contains_key(name) implies fields_map(rest_b).contains_key(name)
            && fields_map(rest_a)[name] == fields_map(rest_b)[name] by {
            let k = choose|k: int| 0 <= k < rest_a.len() && (#[trigger] rest_a[k]).0 == name;
            assert(text::lex_less(a[k].0, last.0));
            text::lemma_lex_irreflexive(last.0);
            assert(fields_map(a).contains_key(name));
            assert(fields_map(b).contains_key(name));
        }
        assert forall|name: Seq<char>| #[trigger]
            fields_map(rest_b).contains_key(name) implies fields_map(rest_a).contains_key(name) by {
            let k = choose|k: int| 0 <= k < rest_b.len() && (#[trigger] rest_b[k]).0 == name;
            assert(text::lex_less(b[k].0, last.0));
            text::lemma_lex_irreflexive(last.0);
            assert(fields_map(b).contains_key(name));
            assert(fields_map(a).contains_key(name));
        }
        assert(fields_map(rest_a) =~= fields_map(rest_b));
        lemma_ascending_unique(rest_a, rest_b);
        assert(a =~= rest_a.push(last));
        assert(b =~= rest_b.push(last));
    }
}

/// Whether two lists of fields give the same names values of the same
/// canonical form.
pub open spec fn fields_agree(a: Seq<(Seq<char>, JsonView)>, b: Seq<(Seq<char>, JsonView)>) -> bool {
    &&& fields_map(a).dom() == fields_map(b).dom()
    &&& forall|name: Seq<char>| #[trigger]
        fields_map(a).contains_key(name) ==> canonical(fields_map(a)[name]) == canonical(
            fields_map(b)[name],
        )
}

/// The order in which an object lists its fields has no influence on its
/// canonical form, at any depth.
pub proof fn law_field_order_is_irrelevant(
    a: Seq<(Seq<char>, JsonView)>,
    b: Seq<(Seq<char>, JsonView)>,
)
    requires
        fields_agree(a, b),
    ensures
        canonical(JsonView::Object(a)) == canonical(JsonView::Object(b)),
{
    let canon = |value: JsonView| canonical(value);
    lemma_canonical_fields(a);
    lemma_canonical_fields(b);
    assert forall|name: Seq<char>| fields_map(b).contains_key(name) implies fields_map(
        a,
    ).contains_key(name) by {
        assert(fields_map(a).dom().contains(name));
    }
    assert(fields_map(a).map_values(canon) =~= fields_map(b).map_values(canon));
    lemma_ascending_unique(canonical_fields(a), canonical_fields(b));
}

/// Objects have the same canonical form only if their fields agree: no nested
/// value is left out.
pub proof fn law_every_field_counts(a: Seq<(Seq<char>, JsonView)>, b: Seq<(Seq<char>, JsonView)>)
    requires
        canonical(JsonView::Object(a)) == canonical(JsonView::Object(b)),
    ensures
        fields_agree(a, b),
{
    let canon = |value: JsonView| canonical(value);
    lemma_canonical_fields(a);
    lemma_canonical_fields(b);
    let left = fields_map(a).map_values(canon);
    let right = fields_map(b).map_values(canon);
    assert(left == right);
    assert(fields_map(a).dom() =~= left.dom());
    assert(fields_map(b).dom() =~= right.dom());
    assert forall|name: Seq<char>| #[trigger] fields_map(a).contains_key(name) implies canonical(
        fields_map(a)[name],
    ) == canonical(fields_map(b)[name]) by {
        assert(left[name] == right[name]);
    }
}

/// The order of an array counts: two arrays have the same canonical form only
/// if they have the same length and their items agree place by place.
pub proof fn law_array_order_is_relevant(a: Seq<JsonView>, b: Seq<JsonView>)
    ensures
        canonical(JsonView::Array(a)) == canonical(JsonView::Array(b)) <==> (a.len() == b.len()
            && forall|i: int| 0 <= i < a.len() ==> canonical(#[trigger] a[i]) == canonical(b[i])),
{
    lemma_canonical_items(a);
    lemma_canonical_items(b);
    if canonical(JsonView::Array(a)) == canonical(JsonView::Array(b)) {
        assert(canonical_items(a) == canonical_items(b));
        assert forall|i: int| 0 <= i < a.len() implies canonical(#[trigger] a[i]) == canonical(
            b[i],
        ) by {
            assert(canonical_items(a)[i] == canonical_items(b)[i]);
        }
    }
    if a.len() == b.len() && forall|i: int|
        0 <= i < a.len() ==> canonical(#[trigger] a[i]) == canonical(b[i]) {
        assert(canonical_items(a) =~= canonical_items(b));
    }
}

proof fn lemma_ascending_is_fixed(fields: Seq<(Seq<char>, JsonView)>)
    requires
        ascending(fields),
        forall|i: int| 0 <= i < fields.len() ==> canonical((#[trigger] fields[i]).1) == fields[i].1,
    ensures
        canonical_fields(fields) == fields,
    decreases fields.len(),
{
    if fields.len() > 0 {
        let rest = fields.drop_last();
        assert(ascending(rest));
        assert forall|i: int| 0 <= i < rest.len() implies canonical((#[trigger] rest[i]).1)
            == rest[i].1 by {
            assert(rest[i] == fields[i]);
        }
        lemma_ascending_is_fixed(rest);
        let last = fields[fields.len() - 1];
        let at = lemma_field_place(rest, last.0);
        text::lemma_lex_irreflexive(last.0);
        if at < rest.len() {
            assert(rest[at] == fields[at]);
            assert(text::lex_less(fields[at].0, last.0));
            if text::lex_less(last.0, rest[at].0) {
                text::lemma_lex_transitive(last.0, rest[at].0, last.0);
            }
        }
        lemma_with_field_at(rest, last.0, last.1, at);
        assert(rest.insert(at, last) =~= fields);
    } else {
        assert(fields =~= Seq::empty());
    }
}

proof fn lemma_fixed_items(items: Seq<JsonView>)
    ensures
        canonical_items(canonical_items(items)) == canonical_items(items),
    decreases items,
{
    if items.len() > 0 {
        lemma_fixed_items(items.drop_last());
        law_canonical_is_stable(items.last());
        let done = canonical_items(items);
        assert(done.drop_last() =~= canonical_items(items.drop_last()));
    }
}

proof fn lemma_fixed_fields(fields: Seq<(Seq<char>, JsonView)>)
    ensures
        forall|i: int|
            0 <= i < canonical_fields(fields).len() ==> canonical(
                (#[trigger] canonical_fields(fields)[i]).1,
            ) == canonical_fields(fields)[i].1,
    decreases fields,
{
    if fields.len() > 0 {
        let rest = fields.drop_last();
        lemma_fixed_fields(rest);
        lemma_canonical_fields(rest);
        law_canonical_is_stable(fields.last().1);
        let prior = canonical_fields(rest);
        let done = canonical_fields(fields);
        lemma_with_field(prior, fields.last().0, canonical(fields.last().1));
        assert forall|i: int| 0 <= i < done.len() implies canonical((#[trigger] done[i]).1)
            == done[i].1 by {
            if prior.contains(done[i]) {
                let j = choose|j: int| 0 <= j < prior.len() && prior[j] == done[i];
                assert(canonical(prior[j].1) == prior[j].1);
            }
        }
    }
}

/// A canonical form is its own canonical form.
pub proof fn law_canonical_is_stable(value: JsonView)
    ensures
        canonical(canonical(value)) == canonical(value),
    decreases value,
{
    match value {
        JsonView::Array(items) => {
            lemma_fixed_items(items);
        },
        JsonView::Object(fields) => {
            lemma_fixed_fields(fields);
            lemma_canonical_fields(fields);
            lemma_ascending_is_fixed(canonical_fields(fields));
        },
        _ => {},
    }
}

proof fn lemma_fields_map_last(fields: Seq<(Seq<char>, JsonView)>, i: int)
    requires
        0 <= i < fields.len(),
        forall|j: int| i < j < fields.len() ==> (#[trigger] fields[j]).0 != fields[i].0,
    ensures
        fields_map(fields).contains_key(fields[i].0),
        fields_map(fields)[fields[i].0] == fields[i].1,
    decreases fields.len(),
{
    if i < fields.len() - 1 {
        let rest = fields.drop_last();
        assert forall|j: int| i < j < rest.len() implies (#[trigger] rest[j]).0 != rest[i].0 by {
            assert(fields[j].0 != fields[i].0);
        }
        lemma_fields_map_last(rest, i);
        assert(fields[fields.len() - 1].0 != fields[i].0);
    }
}

proof fn lemma_fields_map_names(fields: Seq<(Seq<char>, JsonView)>, name: Seq<char>)
    requires
        fields_map(fields).contains_key(name),
    ensures
        exists|i: int| 0 <= i < fields.len() && (#[trigger] fields[i]).0 == name,
    decreases fields.len(),
{
    if fields.last().0 == name {
        assert(fields[fields.len() - 1].0 == name);
    } else {
        let rest = fields.drop_last();
        lemma_fields_map_names(rest, name);
        let i = choose|i: int| 0 <= i < rest.len() && (#[trigger] rest[i]).0 == name;
        assert(fields[i].0 == name);
    }
}

/// A canonical form keeps every value. Scalars stay as they are. An array keeps
/// its length and its order, with each item in canonical form. An object lists
/// each of its names once, in ascending order and with no other name, and under
/// each the canonical form of the last value that it had.
pub proof fn law_canonical_forms_keep_every_value(value: Json, form: Json, i: int, part: Json)
    requires
        call_ensures(canonicalize, (value,), form),
        value matches Json::Array(items) ==> (0 <= i < items@.len() ==> call_ensures(
            canonicalize,
            (items@[i],),
            part,
        )),
        value matches Json::Object(fields) ==> (0 <= i < fields@.len() ==> call_ensures(
            canonicalize,
            (fields@[i].1,),
            part,
        )),
    ensures
        match value {
            Json::Null => form is Null,
            Json::Bool(b) => form matches Json::Bool(kept) && kept == b,
            Json::Number(n) => form matches Json::Number(kept) && kept == n,
            Json::Text(s) => form matches Json::Text(kept) && kept@ == s@,
            Json::Array(items) => form matches Json::Array(kept) && {
                &&& kept@.len() == items@.len()
                &&& 0 <= i < items@.len() ==> kept@[i]@ == part@
            },
            Json::Object(fields) => form matches Json::Object(kept) && {
                &&& forall|a: int, b: int|
                    0 <= a < b < kept@.len() ==> text::lex_less(
                        (#[trigger] kept@[a]).0@,
                        (#[trigger] kept@[b]).0@,
                    )
                &&& forall|k: int|
                    0 <= k < kept@.len() ==> exists|j: int|
                        0 <= j < fields@.len() && (#[trigger] fields@[j]).0@ == (
                        #[trigger] kept@[k]).0@
                &&& 0 <= i < fields@.len() && (forall|j: int|
                    i < j < fields@.len() ==> (#[trigger] fields@[j]).0@ != fields@[i].0@)
                    ==> exists|k: int|
                    0 <= k < kept@.len() && (#[trigger] kept@[k]).0@ == fields@[i].0@ && kept@[k].1@
                        == part@
            },
        },
{
    match value {
        Json::Array(items) => {
            lemma_items_view(items@);
            lemma_canonical_items(items_view(items@));
            if let Json::Array(kept) = form {
                lemma_items_view(kept@);
                assert(items_view(kept@) == canonical_items(items_view(items@)));
                if 0 <= i < items@.len() {
                    assert(items_view(kept@)[i] == kept@[i].view());
                    assert(canonical_items(items_view(items@))[i] == canonical(
                        items_view(items@)[i],
                    ));
                    assert(items_view(items@)[i] == items@[i].view());
                }
            }
        },
        Json::Object(fields) => {
            lemma_fields_view(fields@);
            let read = fields_view(fields@);
            let done = canonical_fields(read);
            lemma_canonical_fields(read);
            lemma_ascending_map(done);
            if let Json::Object(kept) = form {
                lemma_fields_view(kept@);
                assert(fields_view(kept@) == done);
                assert forall|a: int, b: int| 0 <= a < b < kept@.len() implies text::lex_less(
                    (#[trigger] kept@[a]).0@,
                    (#[trigger] kept@[b]).0@,
                ) by {
                    assert(done[a].0 == kept@[a].0@ && done[b].0 == kept@[b].0@);
                }
                assert forall|k: int| 0 <= k < kept@.len() implies exists|j: int|
                    0 <= j < fields@.len() && (#[trigger] fields@[j]).0@ == (
                    #[trigger] kept@[k]).0@ by {
                    assert(done[k].0 == kept@[k].0@);
                    assert(fields_map(done).contains_key(done[k].0));
                    assert(fields_map(read).contains_key(done[k].0));
                    lemma_fields_map_names(read, done[k].0);
                    let j = choose|j: int| 0 <= j < read.len() && (#[trigger] read[j]).0 == done[k].0;
                    assert(fields@[j].0@ == kept@[k].0@);
                }
                if 0 <= i < fields@.len() && forall|j: int|
                    i < j < fields@.len() ==> (#[trigger] fields@[j]).0@ != fields@[i].0@ {
                    assert forall|j: int| i < j < read.len() implies (#[trigger] read[j]).0
                        != read[i].0 by {
                        assert(fields@[j].0@ != fields@[i].0@);
                    }
                    lemma_fields_map_last(read, i);
                    let name = read[i].0;
                    assert(fields_map(done).contains_key(name));
                    assert(fields_map(done)[name] == canonical(read[i].1));
                    let k = choose|k: int| 0 <= k < done.len() && (#[trigger] done[k]).0 == name;
                    assert(done[k].1 == canonical(read[i].1));
                    assert(kept@[k].0@ == fields@[i].0@ && kept@[k].1@ == part@);
                }
            }
        },
        _ => {},
    }
}

} // verus!
