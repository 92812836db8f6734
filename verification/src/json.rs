//! JSON values whose objects keep their keys in ascending order.

use vstd::prelude::*;
use vstd::string::*;
use crate::serde_value::{clone_number, number_as_i64, number_as_u64, number_from_u64};
use crate::{serde_value, text};

verus! {

/// A JSON number: what the logic may ask of it is its integer value.
pub enum NumberView {
    Unsigned(u64),
    Negative(i64),
    /// A number with a fraction or an exponent, by the bits of its binary form.
    Float(u64),
}

/// What a JSON value holds.
#[verifier::ext_equal]
pub enum JsonView {
    Null,
    Bool(bool),
    Number(NumberView),
    Text(Seq<char>),
    Array(Seq<JsonView>),
    Object(Seq<(Seq<char>, JsonView)>),
}

/// The fields of an object in the order of their keys.
pub type Fields = Seq<(Seq<char>, JsonView)>;

/// The value of the first field with this key.
pub open spec fn field(fields: Fields, key: Seq<char>) -> Option<JsonView>
    decreases fields.len(),
{
    if fields.len() == 0 {
        None
    } else if fields[0].0 == key {
        Some(fields[0].1)
    } else {
        field(fields.drop_first(), key)
    }
}

/// The fields once `key` holds `value`: replaced where it was, else placed in order.
pub open spec fn with_field(fields: Fields, key: Seq<char>, value: JsonView) -> Fields
    decreases fields.len(),
{
    if fields.len() == 0 {
        seq![(key, value)]
    } else if fields[0].0 == key {
        seq![(key, value)] + fields.drop_first()
    } else if text::text_less(key, fields[0].0) {
        seq![(key, value)] + fields
    } else {
        seq![fields[0]] + with_field(fields.drop_first(), key, value)
    }
}

/// The fields without the first one of this key.
pub open spec fn without_field(fields: Fields, key: Seq<char>) -> Fields
    decreases fields.len(),
{
    if fields.len() == 0 {
        fields
    } else if fields[0].0 == key {
        fields.drop_first()
    } else {
        seq![fields[0]] + without_field(fields.drop_first(), key)
    }
}

/// The first key that is not among `allowed`.
pub open spec fn first_other_key(fields: Fields, allowed: Seq<Seq<char>>) -> Option<Seq<char>>
    decreases fields.len(),
{
    if fields.len() == 0 {
        None
    } else if !allowed.contains(fields[0].0) {
        Some(fields[0].0)
    } else {
        first_other_key(fields.drop_first(), allowed)
    }
}

/// Whether the keys are in strictly ascending order.
pub open spec fn ascending(fields: Fields) -> bool {
    forall|i: int, j: int|
        0 <= i < j < fields.len() ==> text::text_less(
            (#[trigger] fields[i]).0,
            (#[trigger] fields[j]).0,
        )
}

impl JsonView {
    /// The object without fields.
    pub open spec fn empty() -> JsonView {
        JsonView::Object(Seq::empty())
    }

    /// The field of an object; nothing else has fields.
    pub open spec fn get(self, key: Seq<char>) -> Option<JsonView> {
        match self {
            JsonView::Object(fields) => field(fields, key),
            _ => None,
        }
    }

    /// An object once `key` holds `value`; anything else stays as it is.
    pub open spec fn with(self, key: Seq<char>, value: JsonView) -> JsonView {
        match self {
            JsonView::Object(fields) => JsonView::Object(with_field(fields, key, value)),
            _ => self,
        }
    }

    /// What a value is once `key` holds `value`: the null value becomes an object.
    pub open spec fn put(self, key: Seq<char>, value: JsonView) -> JsonView {
        match self {
            JsonView::Null => JsonView::empty().with(key, value),
            _ => self.with(key, value),
        }
    }

    /// An object without the field `key`; anything else stays as it is.
    pub open spec fn without(self, key: Seq<char>) -> JsonView {
        match self {
            JsonView::Object(fields) => JsonView::Object(without_field(fields, key)),
            _ => self,
        }
    }

    /// The text of a string field.
    pub open spec fn text_at(self, key: Seq<char>) -> Option<Seq<char>> {
        match self.get(key) {
            Some(JsonView::Text(s)) => Some(s),
            _ => None,
        }
    }

    /// Whether this is a number without a fraction or an exponent.
    pub open spec fn is_integer(self) -> bool {
        match self {
            JsonView::Number(NumberView::Float(_)) => false,
            JsonView::Number(_) => true,
            _ => false,
        }
    }

    /// The value of a number that is a non-negative integer.
    pub open spec fn as_u64(self) -> Option<u64> {
        match self {
            JsonView::Number(NumberView::Unsigned(n)) => Some(n),
            _ => None,
        }
    }
}

/// A JSON value.
pub enum Json {
    Null,
    Bool(bool),
    Number(serde_json::Number),
    Text(String),
    Array(Vec<Json>),
    Object(Object),
}

/// A JSON object, its fields in ascending order of their keys.
pub struct Object {
    entries: Vec<(String, Json)>,
}

impl Json {
    /// What the value holds.
    pub open spec fn view(&self) -> JsonView
        decreases self,
    {
        match *self {
            Json::Null => JsonView::Null,
            Json::Bool(b) => JsonView::Bool(b),
            Json::Number(n) => JsonView::Number(serde_value::number_kind(n)),
            Json::Text(s) => JsonView::Text(s@),
            Json::Array(items) => JsonView::Array(
                Seq::new(
                    items@.len(),
                    |i: int|
                        if 0 <= i < items@.len() {
                            items@[i].view()
                        } else {
                            JsonView::Null
                        },
                ),
            ),
            Json::Object(object) => JsonView::Object(object.view()),
        }
    }
}

impl Object {
    /// The fields in order.
    pub closed spec fn view(&self) -> Fields
        decreases self,
    {
        Seq::new(
            self.entries@.len(),
            |i: int|
                if 0 <= i < self.entries@.len() {
                    (self.entries@[i].0@, self.entries@[i].1.view())
                } else {
                    (Seq::empty(), JsonView::Null)
                },
        )
    }
}


impl Json {
    /// A string value.
    pub fn text(s: &str) -> (r: Json)
        ensures
            r@ == JsonView::Text(s@),
    {
        Json::Text(s.to_owned())
    }

    /// The object without fields.
    pub fn object() -> (r: Json)
        ensures
            r@ == JsonView::empty(),
    {
        let o = Object { entries: Vec::new() };
        assert(o.view() =~= Seq::empty());
        Json::Object(o)
    }

    /// An array of these items.
    pub fn array(items: Vec<Json>) -> (r: Json)
        ensures
            r@ == JsonView::Array(views(items@)),
    {
        let r = Json::Array(items);
        assert(r@->Array_0 =~= views(items@));
        r
    }

    /// A non-negative integer.
    pub fn unsigned(n: u64) -> (r: Json)
        ensures
            r@ == JsonView::Number(NumberView::Unsigned(n)),
    {
        Json::Number(number_from_u64(n))
    }

    /// Whether this is the null value.
    pub fn is_null(&self) -> (r: bool)
        ensures
            r == (self@ is Null),
    {
        match self {
            Json::Null => true,
            _ => false,
        }
    }

    /// Whether this is an object.
    pub fn is_object(&self) -> (r: bool)
        ensures
            r == (self@ is Object),
    {
        match self {
            Json::Object(_) => true,
            _ => false,
        }
    }

    /// The text of a string value.
    pub fn as_str(&self) -> (r: Option<&str>)
        ensures
            match r {
                Some(s) => self@ == JsonView::Text(s@),
                None => !(self@ is Text),
            },
    {
        match self {
            Json::Text(s) => Some(s.as_str()),
            _ => None,
        }
    }

    /// The value of a boolean.
    pub fn as_bool(&self) -> (r: Option<bool>)
        ensures
            match r {
                Some(b) => self@ == JsonView::Bool(b),
                None => !(self@ is Bool),
            },
    {
        match self {
            Json::Bool(b) => Some(*b),
            _ => None,
        }
    }

    /// The value of a number that is a non-negative integer.
    pub fn as_u64(&self) -> (r: Option<u64>)
        ensures
            r == self@.as_u64(),
    {
        match self {
            Json::Number(n) => number_as_u64(n),
            _ => None,
        }
    }

    /// Whether this is a number without a fraction or an exponent.
    pub fn is_integer(&self) -> (r: bool)
        ensures
            r == self@.is_integer(),
    {
        match self {
            Json::Number(n) => number_as_u64(n).is_some() || number_as_i64(n).is_some(),
            _ => false,
        }
    }

    /// The items of an array.
    pub fn as_array(&self) -> (r: Option<&Vec<Json>>)
        ensures
            match r {
                Some(items) => self@ == JsonView::Array(views(items@)),
                None => !(self@ is Array),
            },
    {
        match self {
            Json::Array(items) => {
                assert(self@->Array_0 =~= views(items@));
                Some(items)
            },
            _ => None,
        }
    }

    /// The fields of an object.
    pub fn as_object(&self) -> (r: Option<&Object>)
        ensures
            match r {
                Some(object) => self@ == JsonView::Object(object@),
                None => !(self@ is Object),
            },
    {
        match self {
            Json::Object(object) => Some(object),
            _ => None,
        }
    }

    /// The field of an object; nothing else has fields.
    pub fn get(&self, key: &str) -> (r: Option<&Json>)
        ensures
            match r {
                Some(value) => self@.get(key@) == Some(value@),
                None => self@.get(key@) is None,
            },
    {
        match self {
            Json::Object(object) => object.get(key),
            _ => None,
        }
    }

    /// The text of a string field.
    pub fn text_at(&self, key: &str) -> (r: Option<&str>)
        ensures
            match r {
                Some(s) => self@.text_at(key@) == Some(s@),
                None => self@.text_at(key@) is None,
            },
    {
        match self.get(key) {
            Some(value) => value.as_str(),
            None => None,
        }
    }

    /// Lets the field `key` of an object hold `value`; anything else stays as it is.
    pub fn set(&mut self, key: &str, value: Json)
        ensures
            final(self)@ == old(self)@.with(key@, value@),
    {
        match self {
            Json::Object(object) => {
                object.insert(key.to_owned(), value);
            },
            _ => {},
        }
    }

    /// Lets the field `key` hold `value`; the null value becomes an object.
    pub fn put(&mut self, key: &str, value: Json)
        ensures
            final(self)@ == old(self)@.put(key@, value@),
    {
        if self.is_null() {
            *self = Json::object();
        }
        self.set(key, value);
    }

    /// The value with one more field.
    pub fn having(self, key: &str, value: Json) -> (r: Json)
        ensures
            r@ == self@.with(key@, value@),
    {
        let mut r = self;
        r.set(key, value);
        r
    }

    /// Takes the field `key` out of an object.
    pub fn take(&mut self, key: &str) -> (r: Option<Json>)
        ensures
            final(self)@ == old(self)@.without(key@),
            match r {
                Some(value) => old(self)@.get(key@) == Some(value@),
                None => old(self)@.get(key@) is None,
            },
    {
        match self {
            Json::Object(object) => object.remove(key),
            _ => None,
        }
    }
}

impl Clone for Json {
    fn clone(&self) -> (r: Self)
        ensures
            r@ == self@,
        decreases self,
    {
        match self {
            Json::Null => Json::Null,
            Json::Bool(b) => Json::Bool(*b),
            Json::Number(n) => Json::Number(clone_number(n)),
            Json::Text(s) => Json::Text(s.clone()),
            Json::Array(items) => {
                let mut out: Vec<Json> = Vec::new();
                let mut i: usize = 0;
                while i < items.len()
                    invariant
                        *self == Json::Array(*items),
                        i <= items@.len(),
                        out@.len() == i,
                        forall|j: int| 0 <= j < i ==> (#[trigger] out@[j])@ == items@[j]@,
                    decreases items@.len() - i,
                {
                    assert(decreases_to!(*self => self->Array_0));
                    assert(decreases_to!(self->Array_0 => self->Array_0@[i as int]));
                    let item = items[i].clone();
                    out.push(item);
                    i += 1;
                }
                let r = Json::Array(out);
                assert(r@->Array_0 =~= self@->Array_0);
                r
            },
            Json::Object(object) => Json::Object(object.clone()),
        }
    }
}

impl Clone for Object {
    fn clone(&self) -> (r: Self)
        ensures
            r@ == self@,
        decreases self,
    {
        proof {
            use_type_invariant(self);
        }
        let mut out: Vec<(String, Json)> = Vec::new();
        let mut i: usize = 0;
        while i < self.entries.len()
            invariant
                i <= self.entries@.len(),
                out@.len() == i,
                forall|j: int|
                    0 <= j < i ==> (#[trigger] out@[j]).0@ == self.entries@[j].0@ && out@[j].1@
                        == self.entries@[j].1@,
            decreases self.entries@.len() - i,
        {
            assert(decreases_to!(*self => self.entries@[i as int].1));
            let value = self.entries[i].1.clone();
            out.push((self.entries[i].0.clone(), value));
            i += 1;
        }
        proof {
            assert forall|a: int, b: int| 0 <= a < b < out@.len() implies text::text_less(
                (#[trigger] out@[a]).0@,
                (#[trigger] out@[b]).0@,
            ) by {
                assert(text::text_less(self.entries@[a].0@, self.entries@[b].0@));
            }
        }
        let r = Object { entries: out };
        assert(r@ =~= self@);
        r
    }
}

pub proof fn lemma_array_view(items: Vec<Json>)
    ensures
        Json::Array(items)@ == JsonView::Array(views(items@)),
{
    assert(Json::Array(items)@->Array_0 =~= views(items@));
}

/// The views of a sequence of values.
pub open spec fn views(items: Seq<Json>) -> Seq<JsonView> {
    Seq::new(items.len(), |i: int| items[i].view())
}

impl Object {
    #[verifier::type_invariant]
    spec fn well_formed(self) -> bool {
        keys_ascend(self.entries@)
    }

    /// An object without fields.
    pub fn new() -> (r: Object)
        ensures
            r@ == Seq::<(Seq<char>, JsonView)>::empty(),
    {
        let r = Object { entries: Vec::new() };
        assert(r@ =~= Seq::<(Seq<char>, JsonView)>::empty());
        r
    }

    pub(crate) fn from_ascending(entries: Vec<(String, Json)>) -> (r: Object)
        requires
            ascending(entry_views(entries@)),
        ensures
            r@ == entry_views(entries@),
    {
        proof {
            assert forall|i: int, j: int| 0 <= i < j < entries@.len() implies text::text_less(
                (#[trigger] entries@[i]).0@,
                (#[trigger] entries@[j]).0@,
            ) by {
                assert(entry_views(entries@)[i].0 == entries@[i].0@);
                assert(entry_views(entries@)[j].0 == entries@[j].0@);
            }
        }
        let r = Object { entries };
        assert(r@ =~= entry_views(entries@));
        r
    }

    /// How many fields there are; their keys are in strictly ascending order.
    pub fn len(&self) -> (r: usize)
        ensures
            r == self@.len(),
            ascending(self@),
    {
        proof {
            use_type_invariant(self);
            assert forall|i: int, j: int| 0 <= i < j < self@.len() implies text::text_less(
                (#[trigger] self@[i]).0,
                (#[trigger] self@[j]).0,
            ) by {
                assert(text::text_less(self.entries@[i].0@, self.entries@[j].0@));
            }
        }
        self.entries.len()
    }

    /// The key of a field by its place in the order.
    pub fn key(&self, i: usize) -> (r: &str)
        requires
            i < self@.len(),
        ensures
            r@ == self@[i as int].0,
    {
        self.entries[i].0.as_str()
    }

    /// The value of a field by its place in the order.
    pub fn value(&self, i: usize) -> (r: &Json)
        requires
            i < self@.len(),
        ensures
            r@ == self@[i as int].1,
    {
        &self.entries[i].1
    }

    /// Puts another value at a place in the order and hands back the one that was there.
    pub(crate) fn exchange(&mut self, i: usize, value: Json) -> (r: Json)
        requires
            i < old(self)@.len(),
        ensures
            r@ == old(self)@[i as int].1,
            final(self)@ == old(self)@.update(i as int, (old(self)@[i as int].0, value@)),
    {
        proof {
            use_type_invariant(&*self);
        }
        let ghost before = self@;
        let mut entries: Vec<(String, Json)> = Vec::new();
        std::mem::swap(&mut entries, &mut self.entries);
        let ghost start = entries@;
        let entry = entries.remove(i);
        entries.insert(i, (entry.0, value));
        proof {
            assert(entries@ =~= start.update(i as int, (entry.0, value)));
            assert forall|a: int, b: int| 0 <= a < b < entries@.len() implies text::text_less(
                (#[trigger] entries@[a]).0@,
                (#[trigger] entries@[b]).0@,
            ) by {
                assert(start[a].0 == entries@[a].0 && start[b].0 == entries@[b].0);
            }
        }
        self.entries = entries;
        assert(self@ =~= before.update(i as int, (before[i as int].0, value@)));
        entry.1
    }

    /// Drops the field with the smallest key.
    pub(crate) fn remove_first(&mut self)
        requires
            old(self)@.len() > 0,
        ensures
            final(self)@ == old(self)@.drop_first(),
    {
        proof {
            use_type_invariant(&*self);
        }
        let ghost before = self@;
        let mut entries: Vec<(String, Json)> = Vec::new();
        std::mem::swap(&mut entries, &mut self.entries);
        let ghost start = entries@;
        let _ = entries.remove(0);
        proof {
            assert forall|a: int, b: int| 0 <= a < b < entries@.len() implies text::text_less(
                (#[trigger] entries@[a]).0@,
                (#[trigger] entries@[b]).0@,
            ) by {
                assert(start[a + 1] == entries@[a] && start[b + 1] == entries@[b]);
            }
        }
        self.entries = entries;
        assert(self@ =~= before.drop_first());
    }

    /// The value of the field `key`.
    pub fn get(&self, key: &str) -> (r: Option<&Json>)
        ensures
            match r {
                Some(value) => field(self@, key@) == Some(value@),
                None => field(self@, key@) is None,
            },
    {
        let mut i: usize = 0;
        while i < self.entries.len()
            invariant
                i <= self.entries@.len(),
                forall|j: int| 0 <= j < i ==> (#[trigger] self@[j]).0 != key@,
            decreases self.entries@.len() - i,
        {
            if text::same_text(self.entries[i].0.as_str(), key) {
                proof {
                    lemma_field_at(self@, key@, i as int);
                }
                return Some(&self.entries[i].1);
            }
            i += 1;
        }
        proof {
            lemma_field_at(self@, key@, i as int);
        }
        None
    }

    /// The first key that is not among `allowed`.
    pub fn first_other_key(&self, allowed: &Vec<&str>) -> (r: Option<&str>)
        ensures
            match r {
                Some(key) => first_other_key(self@, text::texts(allowed@)) == Some(key@),
                None => first_other_key(self@, text::texts(allowed@)) is None,
            },
    {
        let count: usize = self.len();
        let mut i: usize = 0;
        assert(self@.skip(0) =~= self@);
        while i < count
            invariant
                count == self@.len(),
                i <= count,
                first_other_key(self@, text::texts(allowed@)) == first_other_key(
                    self@.skip(i as int),
                    text::texts(allowed@),
                ),
            decreases count - i,
        {
            assert(self@.skip(i as int)[0] == self@[i as int]);
            assert(self@.skip(i as int).drop_first() =~= self@.skip(i + 1));
            if !text::among(allowed, self.key(i)) {
                return Some(self.key(i));
            }
            i += 1;
        }
        None
    }

    /// Lets the field `key` hold `value`.
    pub fn insert(&mut self, key: String, value: Json)
        ensures
            final(self)@ == with_field(old(self)@, key@, value@),
    {
        proof {
            use_type_invariant(&*self);
        }
        let ghost before = self@;
        let mut entries: Vec<(String, Json)> = Vec::new();
        std::mem::swap(&mut entries, &mut self.entries);
        let ghost start = entries@;
        assert(entry_views(start) =~= before);
        let mut i: usize = 0;
        while i < entries.len()
            invariant
                i <= entries@.len(),
                entries@ == start,
                keys_ascend(start),
                forall|j: int|
                    0 <= j < i ==> (#[trigger] start[j]).0@ != key@ && !text::text_less(
                        key@,
                        start[j].0@,
                    ),
            ensures
                i <= entries@.len(),
                entries@ == start,
                i < start.len() ==> start[i as int].0@ == key@ || text::text_less(
                    key@,
                    start[i as int].0@,
                ),
                forall|j: int|
                    0 <= j < i ==> (#[trigger] start[j]).0@ != key@ && !text::text_less(
                        key@,
                        start[j].0@,
                    ),
            decreases entries@.len() - i,
        {
            if text::same_text(entries[i].0.as_str(), key.as_str()) || text::precedes(
                key.as_str(),
                entries[i].0.as_str(),
            ) {
                break;
            }
            i += 1;
        }
        proof {
            let views = entry_views(start);
            assert forall|j: int| 0 <= j < i implies (#[trigger] views[j]).0 != key@
                && !text::text_less(key@, views[j].0) by {
                assert(start[j].0@ != key@);
            }
            lemma_with_field_at(views, key@, value@, i as int);
            lemma_entry_views(start, (key, value), i as int);
            lemma_key_place(start, (key, value), i as int);
        }
        if i < entries.len() && text::same_text(entries[i].0.as_str(), key.as_str()) {
            entries.set(i, (key, value));
        } else {
            entries.insert(i, (key, value));
        }
        self.entries = entries;
        assert(self@ =~= entry_views(entries@));
    }

    /// Takes the field `key` out.
    pub fn remove(&mut self, key: &str) -> (r: Option<Json>)
        ensures
            final(self)@ == without_field(old(self)@, key@),
            match r {
                Some(value) => field(old(self)@, key@) == Some(value@),
                None => field(old(self)@, key@) is None,
            },
    {
        proof {
            use_type_invariant(&*self);
        }
        let ghost before = self@;
        let mut i: usize = 0;
        while i < self.entries.len()
            invariant
                self@ == before,
                i <= self.entries@.len(),
                keys_ascend(self.entries@),
                forall|j: int| 0 <= j < i ==> (#[trigger] before[j]).0 != key@,
            ensures
                self@ == before,
                keys_ascend(self.entries@),
                i <= before.len(),
                i < before.len() ==> before[i as int].0 == key@,
                forall|j: int| 0 <= j < i ==> (#[trigger] before[j]).0 != key@,
            decreases self.entries@.len() - i,
        {
            if text::same_text(self.entries[i].0.as_str(), key) {
                break;
            }
            i += 1;
        }
        proof {
            lemma_field_at(before, key@, i as int);
            lemma_without_field_at(before, key@, i as int);
        }
        if i == self.entries.len() {
            return None;
        }
        let mut entries: Vec<(String, Json)> = Vec::new();
        std::mem::swap(&mut entries, &mut self.entries);
        let ghost start = entries@;
        assert(entry_views(start) =~= before);
        let taken = entries.remove(i);
        proof {
            assert(entry_views(entries@) =~= before.remove(i as int));
            assert forall|a: int, b: int| 0 <= a < b < entries@.len() implies text::text_less(
                (#[trigger] entries@[a]).0@,
                (#[trigger] entries@[b]).0@,
            ) by {
                let a0 = if a < i { a } else { a + 1 };
                let b0 = if b < i { b } else { b + 1 };
                assert(entries@[a] == start[a0] && entries@[b] == start[b0]);
            }
        }
        self.entries = entries;
        assert(self@ =~= entry_views(entries@));
        Some(taken.1)
    }
}

/// The views of keys and values.
pub open spec fn entry_views(entries: Seq<(String, Json)>) -> Fields {
    Seq::new(entries.len(), |i: int| (entries[i].0@, entries[i].1.view()))
}

proof fn lemma_entry_views(entries: Seq<(String, Json)>, entry: (String, Json), i: int)
    requires
        0 <= i <= entries.len(),
    ensures
        entry_views(entries.insert(i, entry)) == entry_views(entries).insert(
            i,
            (entry.0@, entry.1@),
        ),
        i < entries.len() ==> entry_views(entries.update(i, entry)) == entry_views(entries).update(
            i,
            (entry.0@, entry.1@),
        ),
{
    assert(entry_views(entries.insert(i, entry)) =~= entry_views(entries).insert(
        i,
        (entry.0@, entry.1@),
    ));
    if i < entries.len() {
        assert(entry_views(entries.update(i, entry)) =~= entry_views(entries).update(
            i,
            (entry.0@, entry.1@),
        ));
    }
}

/// A key that stands where the first not smaller key was keeps the keys in order.
proof fn lemma_key_place(entries: Seq<(String, Json)>, entry: (String, Json), i: int)
    requires
        keys_ascend(entries),
        0 <= i <= entries.len(),
        forall|j: int|
            0 <= j < i ==> (#[trigger] entries[j]).0@ != entry.0@ && !text::text_less(
                entry.0@,
                entries[j].0@,
            ),
    ensures
        i < entries.len() && entries[i].0@ == entry.0@ ==> keys_ascend(entries.update(i, entry)),
        i < entries.len() && text::text_less(entry.0@, entries[i].0@) ==> keys_ascend(
            entries.insert(i, entry),
        ),
        i == entries.len() ==> keys_ascend(entries.insert(i, entry)),
{
    let key = entry.0@;
    assert forall|j: int| 0 <= j < i implies text::text_less((#[trigger] entries[j]).0@, key) by {
        text::lemma_text_less_total(entries[j].0@, key);
    }
    if i < entries.len() && entries[i].0@ == key {
        let after = entries.update(i, entry);
        assert forall|a: int, b: int| 0 <= a < b < after.len() implies text::text_less(
            (#[trigger] after[a]).0@,
            (#[trigger] after[b]).0@,
        ) by {
            assert(after[a].0@ == entries[a].0@ && after[b].0@ == entries[b].0@);
        }
    }
    if i == entries.len() || text::text_less(key, entries[i].0@) {
        let after = entries.insert(i, entry);
        assert forall|a: int, b: int| 0 <= a < b < after.len() implies text::text_less(
            (#[trigger] after[a]).0@,
            (#[trigger] after[b]).0@,
        ) by {
            if a < i && b < i {
                assert(after[a] == entries[a] && after[b] == entries[b]);
            } else if a < i && b == i {
                assert(after[a] == entries[a]);
            } else if a < i {
                assert(after[a] == entries[a] && after[b] == entries[b - 1]);
            } else if a == i {
                assert(after[b] == entries[b - 1]);
                if b - 1 > i {
                    text::lemma_text_less_transitive(key, entries[i].0@, entries[b - 1].0@);
                }
            } else {
                assert(after[a] == entries[a - 1] && after[b] == entries[b - 1]);
            }
        }
    }
}

pub proof fn lemma_field_at(fields: Fields, key: Seq<char>, i: int)
    requires
        0 <= i <= fields.len(),
        forall|j: int| 0 <= j < i ==> (#[trigger] fields[j]).0 != key,
        i < fields.len() ==> fields[i].0 == key,
    ensures
        i < fields.len() ==> field(fields, key) == Some(fields[i].1),
        i == fields.len() ==> field(fields, key) is None,
    decreases i,
{
    if i > 0 {
        let rest = fields.drop_first();
        assert(fields[0].0 != key);
        assert forall|j: int| 0 <= j < i - 1 implies (#[trigger] rest[j]).0 != key by {
            assert(rest[j] == fields[j + 1]);
        }
        lemma_field_at(rest, key, i - 1);
    }
}

proof fn lemma_with_field_at(fields: Fields, key: Seq<char>, value: JsonView, i: int)
    requires
        0 <= i <= fields.len(),
        forall|j: int|
            0 <= j < i ==> (#[trigger] fields[j]).0 != key && !text::text_less(key, fields[j].0),
    ensures
        i < fields.len() && fields[i].0 == key ==> with_field(fields, key, value) == fields.update(
            i,
            (key, value),
        ),
        i < fields.len() && fields[i].0 != key && text::text_less(key, fields[i].0) ==> with_field(
            fields,
            key,
            value,
        ) == fields.insert(i, (key, value)),
        i == fields.len() ==> with_field(fields, key, value) == fields.insert(i, (key, value)),
    decreases i,
{
    let result = with_field(fields, key, value);
    if i > 0 {
        let rest = fields.drop_first();
        assert(fields[0].0 != key);
        assert forall|j: int| 0 <= j < i - 1 implies (#[trigger] rest[j]).0 != key
            && !text::text_less(key, rest[j].0) by {
            assert(rest[j] == fields[j + 1]);
        }
        lemma_with_field_at(rest, key, value, i - 1);
        assert(result == seq![fields[0]] + with_field(rest, key, value));
        if i < fields.len() {
            assert(rest[i - 1] == fields[i]);
            if fields[i].0 == key {
                assert(result =~= fields.update(i, (key, value)));
            } else if text::text_less(key, fields[i].0) {
                assert(result =~= fields.insert(i, (key, value)));
            }
        } else {
            assert(result =~= fields.insert(i, (key, value)));
        }
    } else if fields.len() > 0 {
        if fields[0].0 == key {
            assert(result =~= fields.update(0, (key, value)));
        } else if text::text_less(key, fields[0].0) {
            assert(result =~= fields.insert(0, (key, value)));
        }
    } else {
        assert(result =~= fields.insert(0, (key, value)));
    }
}

/// A field that holds a value already is left as it is when it is given that value again.
pub proof fn setting_a_field_to_its_value_changes_nothing(
    fields: Fields,
    key: Seq<char>,
    value: JsonView,
)
    requires
        ascending(fields),
        field(fields, key) == Some(value),
    ensures
        with_field(fields, key, value) == fields,
{
    let i = lemma_field_place(fields, key);
    assert forall|j: int| 0 <= j < i implies (#[trigger] fields[j]).0 != key && !text::text_less(
        key,
        fields[j].0,
    ) by {
        assert(text::text_less(fields[j].0, fields[i].0));
        text::lemma_text_less_irreflexive(key);
        if text::text_less(key, fields[j].0) {
            text::lemma_text_less_transitive(key, fields[j].0, key);
        }
    }
    lemma_with_field_at(fields, key, value, i);
    assert(fields.update(i, (key, value)) =~= fields);
}

/// Where the first field of a key stands.
pub proof fn lemma_field_place(fields: Fields, key: Seq<char>) -> (i: int)
    requires
        field(fields, key) is Some,
    ensures
        0 <= i < fields.len(),
        fields[i].0 == key,
        field(fields, key) == Some(fields[i].1),
        forall|j: int| 0 <= j < i ==> (#[trigger] fields[j]).0 != key,
    decreases fields.len(),
{
    if fields[0].0 == key {
        0
    } else {
        let rest = fields.drop_first();
        let i = lemma_field_place(rest, key) + 1;
        assert(fields[i] == rest[i - 1]);
        assert forall|j: int| 0 <= j < i implies (#[trigger] fields[j]).0 != key by {
            if j > 0 {
                assert(rest[j - 1].0 != key);
            }
        }
        i
    }
}

/// Setting a field keeps the keys in order.
pub proof fn lemma_with_field_ascending(fields: Fields, key: Seq<char>, value: JsonView)
    requires
        ascending(fields),
    ensures
        ascending(with_field(fields, key, value)),
    decreases fields.len(),
{
    let after = with_field(fields, key, value);
    let i = lemma_insert_place(fields, key);
    lemma_with_field_at(fields, key, value, i);
    assert forall|j: int| 0 <= j < i implies text::text_less((#[trigger] fields[j]).0, key) by {
        text::lemma_text_less_total(fields[j].0, key);
    }
    assert forall|a: int, b: int| 0 <= a < b < after.len() implies text::text_less(
        (#[trigger] after[a]).0,
        (#[trigger] after[b]).0,
    ) by {
        if i < fields.len() && fields[i].0 == key {
            assert(after[a].0 == fields[a].0 && after[b].0 == fields[b].0);
        } else if a < i && b < i {
            assert(after[a] == fields[a] && after[b] == fields[b]);
        } else if a < i && b == i {
            assert(after[a] == fields[a]);
        } else if a < i {
            assert(after[a] == fields[a] && after[b] == fields[b - 1]);
        } else if a == i {
            assert(after[b] == fields[b - 1]);
            if b - 1 > i {
                text::lemma_text_less_transitive(key, fields[i].0, fields[b - 1].0);
            }
        } else {
            assert(after[a] == fields[a - 1] && after[b] == fields[b - 1]);
        }
    }
}

proof fn lemma_insert_place(fields: Fields, key: Seq<char>) -> (i: int)
    ensures
        0 <= i <= fields.len(),
        forall|j: int|
            0 <= j < i ==> (#[trigger] fields[j]).0 != key && !text::text_less(key, fields[j].0),
        i < fields.len() ==> fields[i].0 == key || text::text_less(key, fields[i].0),
    decreases fields.len(),
{
    if fields.len() == 0 || fields[0].0 == key || text::text_less(key, fields[0].0) {
        0
    } else {
        let rest = fields.drop_first();
        let i = lemma_insert_place(rest, key) + 1;
        assert(i < fields.len() ==> fields[i] == rest[i - 1]);
        assert forall|j: int| 0 <= j < i implies (#[trigger] fields[j]).0 != key
            && !text::text_less(key, fields[j].0) by {
            if j > 0 {
                assert(fields[j] == rest[j - 1]);
            }
        }
        i
    }
}

/// A field that was set reads back, and setting it leaves every other field as it was.
pub proof fn a_field_reads_back_what_was_set(
    fields: Fields,
    key: Seq<char>,
    value: JsonView,
    other: Seq<char>,
)
    ensures
        field(with_field(fields, key, value), key) == Some(value),
        other != key ==> field(with_field(fields, key, value), other) == field(fields, other),
    decreases fields.len(),
{
    let after = with_field(fields, key, value);
    if fields.len() == 0 {
        assert(after.drop_first() =~= fields);
    } else if fields[0].0 == key {
        assert(after.drop_first() =~= fields.drop_first());
    } else if text::text_less(key, fields[0].0) {
        assert(after.drop_first() =~= fields);
    } else {
        assert(after.drop_first() =~= with_field(fields.drop_first(), key, value));
        a_field_reads_back_what_was_set(fields.drop_first(), key, value, other);
    }
}

/// Setting a field again leaves the later value, and nothing of the earlier one.
pub proof fn setting_a_field_again_replaces_it(
    fields: Fields,
    key: Seq<char>,
    earlier: JsonView,
    later: JsonView,
)
    ensures
        with_field(with_field(fields, key, earlier), key, later) == with_field(fields, key, later),
    decreases fields.len(),
{
    let once = with_field(fields, key, earlier);
    let twice = with_field(once, key, later);
    if fields.len() == 0 {
        assert(once.drop_first() =~= Seq::empty());
        assert(twice =~= seq![(key, later)]);
    } else if fields[0].0 == key {
        assert(once.drop_first() =~= fields.drop_first());
    } else if text::text_less(key, fields[0].0) {
        assert(once.drop_first() =~= fields);
    } else {
        let rest = fields.drop_first();
        assert(once[0] == fields[0]);
        assert(once.drop_first() =~= with_field(rest, key, earlier));
        setting_a_field_again_replaces_it(rest, key, earlier, later);
    }
}

/// A removed field is gone where keys occur once, and every other field is as it was.
pub proof fn a_removed_field_is_gone(fields: Fields, key: Seq<char>, other: Seq<char>)
    ensures
        other != key ==> field(without_field(fields, key), other) == field(fields, other),
        ascending(fields) ==> field(without_field(fields, key), key) is None,
    decreases fields.len(),
{
    let after = without_field(fields, key);
    if fields.len() > 0 {
        let rest = fields.drop_first();
        if ascending(fields) {
            assert forall|i: int, j: int| 0 <= i < j < rest.len() implies text::text_less(
                (#[trigger] rest[i]).0,
                (#[trigger] rest[j]).0,
            ) by {
                assert(rest[i] == fields[i + 1] && rest[j] == fields[j + 1]);
            }
        }
        a_removed_field_is_gone(rest, key, other);
        if fields[0].0 == key {
            if ascending(fields) && field(rest, key) is Some {
                let i = lemma_field_place(rest, key);
                assert(rest[i] == fields[i + 1]);
                assert(text::text_less(fields[0].0, fields[i + 1].0));
                text::lemma_text_less_irreflexive(key);
            }
        } else {
            assert(after.drop_first() =~= without_field(rest, key));
        }
    }
}

proof fn lemma_without_field_at(fields: Fields, key: Seq<char>, i: int)
    requires
        0 <= i <= fields.len(),
        forall|j: int| 0 <= j < i ==> (#[trigger] fields[j]).0 != key,
        i < fields.len() ==> fields[i].0 == key,
    ensures
        i < fields.len() ==> without_field(fields, key) == fields.remove(i),
        i == fields.len() ==> without_field(fields, key) == fields,
    decreases i,
{
    let result = without_field(fields, key);
    if i > 0 {
        let rest = fields.drop_first();
        assert(fields[0].0 != key);
        assert forall|j: int| 0 <= j < i - 1 implies (#[trigger] rest[j]).0 != key by {
            assert(rest[j] == fields[j + 1]);
        }
        if i < fields.len() {
            assert(rest[i - 1] == fields[i]);
        }
        lemma_without_field_at(rest, key, i - 1);
        assert(result == seq![fields[0]] + without_field(rest, key));
        if i < fields.len() {
            assert(result =~= fields.remove(i));
        } else {
            assert(result =~= fields);
        }
    } else if fields.len() > 0 {
        assert(result =~= fields.remove(0));
    }
}

spec fn keys_ascend(entries: Seq<(String, Json)>) -> bool {
    forall|i: int, j: int|
        0 <= i < j < entries.len() ==> text::text_less(
            (#[trigger] entries[i]).0@,
            (#[trigger] entries[j]).0@,
        )
}

/// An object that is given a field is an object.
pub broadcast proof fn a_given_field_keeps_an_object(value: JsonView, key: Seq<char>, to: JsonView)
    ensures
        value is Object ==> (#[trigger] value.with(key, to)) is Object,
{
}

/// An object that is given a field holds it, and every other field as before.
pub broadcast proof fn a_given_field_reads_back(
    value: JsonView,
    key: Seq<char>,
    to: JsonView,
    other: Seq<char>,
)
    ensures
        value is Object ==> #[trigger] value.with(key, to).get(other) == (if other == key {
            Some(to)
        } else {
            value.get(other)
        }),
{
    if value is Object {
        a_field_reads_back_what_was_set(value->Object_0, key, to, other);
    }
}

/// The object without fields has none.
pub broadcast proof fn the_empty_object_has_no_field(key: Seq<char>)
    ensures
        #[trigger] JsonView::empty().get(key) is None,
{
}

pub broadcast group group_fields_read_back {
    a_given_field_keeps_an_object,
    a_given_field_reads_back,
    the_empty_object_has_no_field,
}

} // verus!
