//! How the properties of a schema stand in the generated JSON schema.
use vstd::prelude::*;

use crate::dsl::enums::EnumerationValue;
use crate::dsl::schema::{Property, PropertyEntry, PropertyList};
use crate::dsl::types::ObjectType;
use crate::json::{json_get, json_seq, lemma_json_seq_push, Json, JsonMap, JsonValue};

verus! {

/// `m` with the members that describe an object type: its `type`, and for a
/// hostname its `format`.
pub open spec fn with_object_type(m: Map<Seq<char>, Json>, t: ObjectType) -> Map<Seq<char>, Json> {
    match t {
        ObjectType::Object => m.insert("type"@, Json::Str("object"@)),
        ObjectType::String => m.insert("type"@, Json::Str("string"@)),
        ObjectType::Hostname => m.insert("type"@, Json::Str("string"@)).insert(
            "format"@,
            Json::Str("hostname"@),
        ),
    }
}

/// An enumeration value in a JSON schema: where it has a title, the title and the
/// one-element `enum` that holds the value; then the members of its type.
pub open spec fn enumeration_value_json(v: EnumerationValue) -> Json {
    let titled = match v.display_information.title {
        Some(t) => Map::empty().insert("title"@, Json::Str(t@)).insert(
            "enum"@,
            Json::Array(seq![v.value@]),
        ),
        None => Map::empty(),
    };
    Json::Object(with_object_type(titled, v.type_spec))
}

/// The values that a property may take, in order: none where it is not enumerated.
pub open spec fn possible_values(p: Property) -> Seq<EnumerationValue> {
    match p.type_information.enumeration_values {
        Some(values) => values.possible_values@,
        None => Seq::empty(),
    }
}

/// A property in a JSON schema: its title where it has one, the members of its type
/// where it has one, and under `oneOf` each of the values it may take, where it may
/// take any.
pub open spec fn property_members(p: Property) -> Map<Seq<char>, Json> {
    let titled = match p.display_information.title {
        Some(t) => Map::empty().insert("title"@, Json::Str(t@)),
        None => Map::empty(),
    };
    let typed = match p.type_information.type_spec {
        Some(ts) => with_object_type(titled, ts.spec_inner()),
        None => titled,
    };
    let values = possible_values(p);
    if values.len() > 0 {
        typed.insert(
            "oneOf"@,
            Json::Array(values.map_values(|v: EnumerationValue| enumeration_value_json(v))),
        )
    } else {
        typed
    }
}

/// The properties of a list in a JSON schema: each name maps to the last property
/// of the list with that name.
pub open spec fn property_list_members(entries: Seq<PropertyEntry>) -> Map<Seq<char>, Json>
    decreases entries.len(),
{
    if entries.len() == 0 {
        Map::empty()
    } else {
        property_list_members(entries.drop_last()).insert(
            entries.last().name@,
            Json::Object(property_members(entries.last().property)),
        )
    }
}

/// Adds to `map` the members that describe `object_type`.
pub fn serialize_object_type(object_type: &ObjectType, map: &mut JsonMap)
    ensures
        final(map)@ == with_object_type(old(map)@, *object_type),
{
    match object_type {
        ObjectType::Object => {
            map.insert("type".to_owned(), JsonValue::String("object".to_owned()));
        },
        ObjectType::String => {
            map.insert("type".to_owned(), JsonValue::String("string".to_owned()));
        },
        ObjectType::Hostname => {
            map.insert("type".to_owned(), JsonValue::String("string".to_owned()));
            map.insert("format".to_owned(), JsonValue::String("hostname".to_owned()));
        },
    }
}

impl ObjectType {
    /// The object that describes this type in a JSON schema.
    pub fn to_json(&self) -> (res: JsonValue)
        ensures
            res@ == Json::Object(with_object_type(Map::empty(), *self)),
    {
        let mut map = JsonMap::new();
        serialize_object_type(self, &mut map);
        JsonValue::Object(map)
    }
}

impl EnumerationValue {
    /// This value as it stands in a JSON schema.
    pub fn to_json(&self) -> (res: JsonValue)
        ensures
            res@ == enumeration_value_json(*self),
    {
        let mut map = JsonMap::new();
        match &self.display_information.title {
            Some(title) => {
                map.insert("title".to_owned(), JsonValue::String(title.clone()));
                let mut values: Vec<JsonValue> = Vec::new();
                let value = self.value.duplicate();
                proof {
                    lemma_json_seq_push(values@, value);
                    assert(json_seq(values@) =~= Seq::<Json>::empty());
                }
                values.push(value);
                assert(json_seq(values@) =~= seq![self.value@]);
                map.insert("enum".to_owned(), JsonValue::Array(values));
            },
            None => {},
        }
        serialize_object_type(&self.type_spec, &mut map);
        JsonValue::Object(map)
    }
}

impl Property {
    /// This property as it stands in a JSON schema.
    pub fn to_json(&self) -> (res: JsonValue)
        ensures
            res@ == Json::Object(property_members(*self)),
            self.display_information.title matches Some(t) ==> json_get(res@, "title"@) == Some(
                Json::Str(t@),
            ),
            self.display_information.title is None ==> json_get(res@, "title"@) is None,
    {
        proof {
            lemma_property_title(*self);
        }
        let mut map = JsonMap::new();
        match &self.display_information.title {
            Some(title) => {
                map.insert("title".to_owned(), JsonValue::String(title.clone()));
            },
            None => {},
        }
        match &self.type_information.type_spec {
            Some(type_spec) => {
                let inner = type_spec.inner();
                serialize_object_type(&inner, &mut map);
            },
            None => {},
        }
        let ghost values = possible_values(*self);
        let mut enumeration_possible_values: Vec<JsonValue> = Vec::new();
        match &self.type_information.enumeration_values {
            Some(some_enumeration_values) => {
                let possible = &some_enumeration_values.possible_values;
                let mut i: usize = 0;
                while i < possible.len()
                    invariant
                        i <= possible.len(),
                        possible@ == values,
                        json_seq(enumeration_possible_values@) == values.take(i as int).map_values(
                            |v: EnumerationValue| enumeration_value_json(v),
                        ),
                    decreases possible.len() - i,
                {
                    let v = possible[i].to_json();
                    proof {
                        lemma_json_seq_push(enumeration_possible_values@, v);
                        assert(values.take(i + 1) =~= values.take(i as int).push(values[i as int]));
                        assert(values.take(i + 1).map_values(
                            |v: EnumerationValue| enumeration_value_json(v),
                        ) =~= values.take(i as int).map_values(
                            |v: EnumerationValue| enumeration_value_json(v),
                        ).push(enumeration_value_json(values[i as int])));
                    }
                    enumeration_possible_values.push(v);
                    i = i + 1;
                }
                assert(values.take(possible.len() as int) =~= values);
            },
            None => {
                assert(json_seq(enumeration_possible_values@) =~= values.map_values(
                    |v: EnumerationValue| enumeration_value_json(v),
                ));
            },
        }
        proof {
            lemma_json_seq_push(enumeration_possible_values@, JsonValue::Null);
        }
        if enumeration_possible_values.len() > 0 {
            map.insert("oneOf".to_owned(), JsonValue::Array(enumeration_possible_values));
        }
        JsonValue::Object(map)
    }
}

impl PropertyList {
    /// The properties of this list as a JSON schema's `properties` object.
    pub fn to_json(&self) -> (res: JsonValue)
        ensures
            res@ == Json::Object(property_list_members(self.entries@)),
    {
        let mut map = JsonMap::new();
        let mut i: usize = 0;
        while i < self.entries.len()
            invariant
                i <= self.entries.len(),
                map@ == property_list_members(self.entries@.take(i as int)),
            decreases self.entries.len() - i,
        {
            let entry = &self.entries[i];
            let property = entry.property.to_json();
            proof {
                assert(self.entries@.take(i + 1).drop_last() =~= self.entries@.take(i as int));
            }
            map.insert(entry.name.clone(), property);
            i = i + 1;
        }
        assert(self.entries@.take(self.entries.len() as int) =~= self.entries@);
        JsonValue::Object(map)
    }
}

} // verus!

verus! {

/// A property lists the values it may take under `oneOf` exactly when it is
/// enumerated with at least one value.
pub proof fn lemma_one_of_iff_enumerated(p: Property)
    ensures
        property_members(p).dom().contains("oneOf"@) <==> possible_values(p).len() > 0,
{
    reveal_strlit("oneOf");
    reveal_strlit("title");
    reveal_strlit("type");
    reveal_strlit("format");
    assert("oneOf"@.len() == 5 && "oneOf"@[0] == 'o');
    assert("title"@.len() == 5 && "title"@[0] == 't');
    assert("type"@.len() == 4 && "format"@.len() == 6);
}

} // verus!

verus! {

/// A property that has a title carries it under `title` in the JSON schema, whatever
/// its type and values; one without a title has no `title`.
pub proof fn lemma_property_title(p: Property)
    ensures
        p.display_information.title matches Some(t) ==> json_get(
            Json::Object(property_members(p)),
            "title"@,
        ) == Some(Json::Str(t@)),
        p.display_information.title is None ==> json_get(
            Json::Object(property_members(p)),
            "title"@,
        ) is None,
{
    reveal_strlit("oneOf");
    reveal_strlit("title");
    reveal_strlit("type");
    reveal_strlit("format");
    assert("oneOf"@.len() == 5 && "oneOf"@[0] == 'o');
    assert("title"@.len() == 5 && "title"@[0] == 't');
    assert("type"@.len() == 4 && "format"@.len() == 6);
}

/// A property of some type carries the JSON Schema name of that type under `type`
/// (`object` for an object, `string` otherwise), and `format: hostname` exactly
/// when it is a hostname, whether required or optional; a property without a type
/// has neither member.
pub proof fn lemma_property_type(p: Property)
    ensures
        p.type_information.type_spec matches Some(ts) ==> json_get(
            Json::Object(property_members(p)),
            "type"@,
        ) == Some(
            Json::Str(
                if ts.spec_inner() is Object {
                    "object"@
                } else {
                    "string"@
                },
            ),
        ),
        p.type_information.type_spec matches Some(ts) ==> (json_get(
            Json::Object(property_members(p)),
            "format"@,
        ) == if ts.spec_inner() is Hostname {
            Some(Json::Str("hostname"@))
        } else {
            None
        }),
        p.type_information.type_spec is None ==> json_get(
            Json::Object(property_members(p)),
            "type"@,
        ) is None && json_get(Json::Object(property_members(p)), "format"@) is None,
{
    reveal_strlit("oneOf");
    reveal_strlit("title");
    reveal_strlit("type");
    reveal_strlit("format");
    assert("oneOf"@.len() == 5 && "oneOf"@[0] == 'o');
    assert("title"@.len() == 5 && "title"@[0] == 't');
    assert("type"@.len() == 4 && "format"@.len() == 6);
}

} // verus!
