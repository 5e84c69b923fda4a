//! Generates, from a validated schema, the JSON schema of the configuration and the
//! object that tells a user interface how to show it.
use vstd::prelude::*;

use crate::dsl::schema::{PropertyEntry, PropertyList, ValidatedSchema};
use crate::dsl::types::{spec_schema_type, ObjectType, TypeSpec};
use crate::json::{
    clone_opt_string, find_key, json_get, json_opt_str, json_seq, json_str_array, keys_distinct,
    lemma_json_seq_push, lemma_keys_distinct_set, opt_view, Json, JsonMap, JsonNumber, JsonValue,
};
use crate::ui_configuration::properties::property_list_members;

verus! {

/// The JSON Schema dialect that generated schemas declare.
pub const SCHEMA_URL: &'static str = "http://json-schema.org/draft-04/schema#";

/// Turns a validated schema into the documents that describe a configuration.
pub struct Generator {
    compiled_schema: ValidatedSchema,
}

/// The names of the required properties, in order.
pub open spec fn required_names(entries: Seq<PropertyEntry>) -> Seq<Seq<char>>
    decreases entries.len(),
{
    if entries.len() == 0 {
        Seq::empty()
    } else {
        let before = required_names(entries.drop_last());
        match entries.last().property.type_information.type_spec {
            Some(TypeSpec::Required(_)) => before.push(entries.last().name@),
            _ => before,
        }
    }
}

/// The views of a sequence of strings.
pub open spec fn string_views(s: Seq<String>) -> Seq<Seq<char>> {
    s.map_values(|t: String| t@)
}

/// The views of a sequence of string slices.
pub open spec fn str_views(s: Seq<&str>) -> Seq<Seq<char>> {
    s.map_values(|t: &str| t@)
}

/// The members of the JSON schema that a validated schema generates: the version,
/// the dialect, the type `object` and the title; where it has properties, those
/// properties, the order in which they are listed, and the names of the required
/// ones where there are any.
pub open spec fn json_schema_members(s: ValidatedSchema) -> Map<Seq<char>, Json> {
    let header = Map::empty().insert(
        "$$version"@,
        Json::Number(JsonNumber::PosInt(s.version)),
    ).insert("$schema"@, Json::Str(SCHEMA_URL@)).insert("type"@, Json::Str("object"@)).insert(
        "title"@,
        Json::Str(s.title@),
    );
    match s.property_list {
        Some(list) => {
            let listed = header.insert(
                "properties"@,
                Json::Object(property_list_members(list.entries@)),
            ).insert("$$order"@, json_str_array(string_views(list.property_names@)));
            let required = required_names(list.entries@);
            if required.len() > 0 {
                listed.insert("required"@, json_str_array(required))
            } else {
                listed
            }
        },
        None => header,
    }
}

/// The JSON schema of a configuration.
pub struct JsonSchema<'a> {
    pub version: u64,
    pub schema_url: String,
    pub type_spec: TypeSpec,
    pub title: String,
    pub properties: Option<&'a PropertyList>,
    pub order: Option<&'a Vec<String>>,
    pub required: Option<Vec<&'a str>>,
}

impl<'a> JsonSchema<'a> {
    /// The members of this schema as a JSON object.
    pub open spec fn members(&self) -> Map<Seq<char>, Json> {
        let header = Map::empty().insert(
            "$$version"@,
            Json::Number(JsonNumber::PosInt(self.version)),
        ).insert("$schema"@, Json::Str(self.schema_url@)).insert(
            "type"@,
            Json::Str(spec_schema_type(self.type_spec.spec_inner())),
        ).insert("title"@, Json::Str(self.title@));
        let with_properties = match self.properties {
            Some(list) => header.insert(
                "properties"@,
                Json::Object(property_list_members(list.entries@)),
            ),
            None => header,
        };
        let with_order = match self.order {
            Some(names) => with_properties.insert(
                "$$order"@,
                json_str_array(string_views(names@)),
            ),
            None => with_properties,
        };
        match self.required {
            Some(names) => with_order.insert("required"@, json_str_array(str_views(names@))),
            None => with_order,
        }
    }

    /// The JSON schema of a validated schema.
    pub fn from_schema(schema: &'a ValidatedSchema) -> (res: JsonSchema<'a>)
        ensures
            res.members() == json_schema_members(*schema),
            res.version == schema.version,
            res.schema_url@ == SCHEMA_URL@,
            res.type_spec == TypeSpec::Required(ObjectType::Object),
            res.title@ == schema.title@,
            res.properties.is_some() == schema.property_list.is_some(),
            res.properties matches Some(list) ==> schema.property_list == Some(*list),
            res.order.is_some() == schema.property_list.is_some(),
            res.order matches Some(names) ==> *names == schema.property_list.unwrap().property_names,
            match res.required {
                Some(names) => schema.property_list is Some && str_views(names@) == required_names(
                    schema.property_list.unwrap().entries@,
                ) && names@.len() > 0,
                None => schema.property_list is None || required_names(
                    schema.property_list.unwrap().entries@,
                ).len() == 0,
            },
    {
        let property_names = match &schema.property_list {
            Some(list) => Some(&list.property_names),
            None => None,
        };
        let required = match &schema.property_list {
            Some(list) => required_property_names(list),
            None => None,
        };
        let properties = match &schema.property_list {
            Some(list) => Some(list),
            None => None,
        };
        let res = JsonSchema {
            version: schema.version,
            title: schema.title.clone(),
            properties,
            required,
            order: property_names,
            type_spec: TypeSpec::Required(ObjectType::Object),
            schema_url: SCHEMA_URL.to_owned(),
        };
        assert(res.members() =~= json_schema_members(*schema));
        res
    }

    /// This schema as a JSON document.
    pub fn to_json(&self) -> (res: JsonValue)
        ensures
            res@ == Json::Object(self.members()),
    {
        let mut map = JsonMap::new();
        map.insert("$$version".to_owned(), JsonValue::Number(JsonNumber::PosInt(self.version)));
        map.insert("$schema".to_owned(), JsonValue::String(self.schema_url.clone()));
        map.insert("type".to_owned(), self.type_spec.to_json());
        map.insert("title".to_owned(), JsonValue::String(self.title.clone()));
        match self.properties {
            Some(list) => {
                map.insert("properties".to_owned(), list.to_json());
            },
            None => {},
        }
        match self.order {
            Some(names) => {
                let names_json = strings_to_json(names);
                map.insert("$$order".to_owned(), names_json);
            },
            None => {},
        }
        match &self.required {
            Some(names) => {
                let names_json = strs_to_json(names);
                map.insert("required".to_owned(), names_json);
            },
            None => {},
        }
        JsonValue::Object(map)
    }
}

/// A JSON array of the given strings.
pub fn strings_to_json(names: &Vec<String>) -> (res: JsonValue)
    ensures
        res@ == json_str_array(string_views(names@)),
{
    let mut items: Vec<JsonValue> = Vec::new();
    let mut i: usize = 0;
    while i < names.len()
        invariant
            i <= names.len(),
            json_seq(items@) == string_views(names@.take(i as int)).map_values(
                |t: Seq<char>| Json::Str(t),
            ),
        decreases names.len() - i,
    {
        let item = JsonValue::String(names[i].clone());
        proof {
            lemma_json_seq_push(items@, item);
            assert(names@.take(i + 1) =~= names@.take(i as int).push(names@[i as int]));
            assert(string_views(names@.take(i + 1)).map_values(|t: Seq<char>| Json::Str(t))
                =~= string_views(names@.take(i as int)).map_values(|t: Seq<char>| Json::Str(t)).push(
                Json::Str(names@[i as int]@),
            ));
        }
        items.push(item);
        i = i + 1;
    }
    assert(names@.take(names.len() as int) =~= names@);
    JsonValue::Array(items)
}

/// A JSON array of the given strings.
pub fn strs_to_json(names: &Vec<&str>) -> (res: JsonValue)
    ensures
        res@ == json_str_array(str_views(names@)),
{
    let mut items: Vec<JsonValue> = Vec::new();
    let mut i: usize = 0;
    while i < names.len()
        invariant
            i <= names.len(),
            json_seq(items@) == str_views(names@.take(i as int)).map_values(
                |t: Seq<char>| Json::Str(t),
            ),
        decreases names.len() - i,
    {
        let item = JsonValue::String(names[i].to_owned());
        proof {
            lemma_json_seq_push(items@, item);
            assert(names@.take(i + 1) =~= names@.take(i as int).push(names@[i as int]));
            assert(str_views(names@.take(i + 1)).map_values(|t: Seq<char>| Json::Str(t))
                =~= str_views(names@.take(i as int)).map_values(|t: Seq<char>| Json::Str(t)).push(
                Json::Str(names@[i as int]@),
            ));
        }
        items.push(item);
        i = i + 1;
    }
    assert(names@.take(names.len() as int) =~= names@);
    JsonValue::Array(items)
}

/// The names of the required properties of a list, in order; `None` where no
/// property is required.
pub fn required_property_names(property_list: &PropertyList) -> (res: Option<Vec<&str>>)
    ensures
        match res {
            Some(names) => str_views(names@) == required_names(property_list.entries@)
                && names@.len() > 0,
            None => required_names(property_list.entries@).len() == 0,
        },
        res is None <==> forall|i: int|
            0 <= i < property_list.entries@.len()
                ==> !(#[trigger] property_list.entries@[i].property.type_information.type_spec matches Some(
                TypeSpec::Required(_),
            )),
        res matches Some(names) ==> forall|k: Seq<char>|
            str_views(names@).contains(k) <==> exists|i: int|
                0 <= i < property_list.entries@.len() && #[trigger] property_list.entries@[i].name@
                    == k && property_list.entries@[i].property.type_information.type_spec matches Some(
                    TypeSpec::Required(_),
                ),
{
    proof {
        let es = property_list.entries@;
        assert forall|k: Seq<char>|
            required_names(es).contains(k) <==> exists|i: int|
                0 <= i < es.len() && #[trigger] es[i].name@ == k
                    && es[i].property.type_information.type_spec matches Some(
                    TypeSpec::Required(_),
                ) by {
            lemma_required_names_membership(es, k);
        }
        if required_names(es).len() > 0 {
            assert(required_names(es).contains(required_names(es)[0]));
        }
        assert forall|i: int|
            0 <= i < es.len() && (#[trigger] es[i].property.type_information.type_spec matches Some(
                TypeSpec::Required(_),
            )) implies required_names(es).len() > 0 by {
            lemma_required_names_membership(es, es[i].name@);
        }
    }
    let entries = &property_list.entries;
    let mut names: Vec<&str> = Vec::new();
    let mut i: usize = 0;
    while i < entries.len()
        invariant
            i <= entries.len(),
            str_views(names@) == required_names(entries@.take(i as int)),
        decreases entries.len() - i,
    {
        let entry = &entries[i];
        proof {
            assert(entries@.take(i + 1).drop_last() =~= entries@.take(i as int));
        }
        match &entry.property.type_information.type_spec {
            Some(type_spec) => {
                if type_spec.is_required() {
                    let ghost before = names@;
                    names.push(entry.name.as_str());
                    assert(str_views(names@) =~= str_views(before).push(entry.name@));
                }
            },
            None => {},
        }
        i = i + 1;
    }
    assert(entries@.take(entries.len() as int) =~= entries@);
    if names.len() > 0 {
        Some(names)
    } else {
        None
    }
}

/// How a user interface shows one property.
pub struct UiObjectProperty {
    pub help: Option<String>,
    pub warning: Option<String>,
    pub description: Option<String>,
}

/// What a user interface is told of one property.
pub struct UiPropertyView {
    pub help: Option<Seq<char>>,
    pub warning: Option<Seq<char>>,
    pub description: Option<Seq<char>>,
}

impl View for UiObjectProperty {
    type V = UiPropertyView;

    open spec fn view(&self) -> UiPropertyView {
        UiPropertyView {
            help: opt_view(self.help),
            warning: opt_view(self.warning),
            description: opt_view(self.description),
        }
    }
}

/// How a user interface shows each property, by name: one pair per name, in the
/// order in which the names first occur. Where `entries` is filled otherwise and
/// holds a name twice, the later pair is the one that counts.
pub struct UiObject {
    pub entries: Vec<(String, UiObjectProperty)>,
}

/// The properties of a user interface object, by name: the one given last wins.
pub open spec fn ui_members(entries: Seq<(String, UiObjectProperty)>) -> Map<
    Seq<char>,
    UiPropertyView,
>
    decreases entries.len(),
{
    if entries.len() == 0 {
        Map::empty()
    } else {
        ui_members(entries.drop_last()).insert(entries.last().0@, entries.last().1@)
    }
}

/// Setting the pair at the last position of a name sets that name.
pub proof fn lemma_ui_members_update(
    entries: Seq<(String, UiObjectProperty)>,
    i: int,
    e: (String, UiObjectProperty),
)
    requires
        0 <= i < entries.len(),
        entries[i].0@ == e.0@,
        forall|j: int| i < j < entries.len() ==> entries[j].0@ != e.0@,
    ensures
        ui_members(entries.update(i, e)) == ui_members(entries).insert(e.0@, e.1@),
    decreases entries.len(),
{
    let updated = entries.update(i, e);
    if i == entries.len() - 1 {
        assert(updated.drop_last() =~= entries.drop_last());
    } else {
        assert(updated.drop_last() =~= entries.drop_last().update(i, e));
        lemma_ui_members_update(entries.drop_last(), i, e);
    }
    assert(ui_members(updated) =~= ui_members(entries).insert(e.0@, e.1@));
}

impl View for UiObject {
    type V = Map<Seq<char>, UiPropertyView>;

    open spec fn view(&self) -> Map<Seq<char>, UiPropertyView> {
        ui_members(self.entries@)
    }
}

/// What a user interface is told of each property of a list, by name.
pub open spec fn ui_model(entries: Seq<PropertyEntry>) -> Map<Seq<char>, UiPropertyView>
    decreases entries.len(),
{
    if entries.len() == 0 {
        Map::empty()
    } else {
        let p = entries.last().property;
        ui_model(entries.drop_last()).insert(
            entries.last().name@,
            UiPropertyView {
                help: opt_view(p.help),
                warning: opt_view(p.warning),
                description: opt_view(p.description),
            },
        )
    }
}

/// What a user interface is told of each property of a validated schema.
pub open spec fn ui_schema_model(s: ValidatedSchema) -> Map<Seq<char>, UiPropertyView> {
    match s.property_list {
        Some(list) => ui_model(list.entries@),
        None => Map::empty(),
    }
}

/// One property of a user interface object as JSON: its help, warning and
/// description, `null` where absent.
pub open spec fn ui_property_json(p: UiPropertyView) -> Json {
    Json::Object(
        Map::empty().insert("ui:help"@, json_opt_str(p.help)).insert(
            "ui:warning"@,
            json_opt_str(p.warning),
        ).insert("ui:description"@, json_opt_str(p.description)),
    )
}

/// A user interface object as JSON.
pub open spec fn ui_object_json(m: Map<Seq<char>, UiPropertyView>) -> Map<Seq<char>, Json> {
    m.map_values(|p: UiPropertyView| ui_property_json(p))
}

fn opt_string_to_json(s: &Option<String>) -> (res: JsonValue)
    ensures
        res@ == json_opt_str(opt_view(*s)),
{
    match s {
        Some(t) => JsonValue::String(t.clone()),
        None => JsonValue::Null,
    }
}

impl UiObjectProperty {
    /// This property as JSON.
    pub fn to_json(&self) -> (res: JsonValue)
        ensures
            res@ == ui_property_json(self@),
    {
        let mut map = JsonMap::new();
        map.insert("ui:help".to_owned(), opt_string_to_json(&self.help));
        map.insert("ui:warning".to_owned(), opt_string_to_json(&self.warning));
        map.insert("ui:description".to_owned(), opt_string_to_json(&self.description));
        JsonValue::Object(map)
    }
}

impl UiObject {
    /// How a user interface shows each property of a validated schema.
    pub fn from_schema(schema: &ValidatedSchema) -> (res: UiObject)
        ensures
            res@ == ui_schema_model(*schema),
            keys_distinct(res.entries@),
            schema.property_list matches Some(list) ==> forall|i: int|
                0 <= i < list.entries@.len() && (forall|j: int|
                    i < j < list.entries@.len() ==> list.entries@[j].name@
                        != list.entries@[i].name@) ==> {
                    let e = #[trigger] list.entries@[i];
                    &&& res@.dom().contains(e.name@)
                    &&& res@[e.name@].help == opt_view(e.property.help)
                    &&& res@[e.name@].warning == opt_view(e.property.warning)
                    &&& res@[e.name@].description == opt_view(e.property.description)
                },
    {
        let mut ui_object_entries: Vec<(String, UiObjectProperty)> = Vec::new();
        match &schema.property_list {
            Some(list) => {
                let entries = &list.entries;
                let mut i: usize = 0;
                while i < entries.len()
                    invariant
                        i <= entries.len(),
                        ui_members(ui_object_entries@) == ui_model(entries@.take(i as int)),
                        keys_distinct(ui_object_entries@),
                    decreases entries.len() - i,
                {
                    let property_entry = &entries[i];
                    let property = UiObjectProperty {
                        help: clone_opt_string(&property_entry.property.help),
                        warning: clone_opt_string(&property_entry.property.warning),
                        description: clone_opt_string(&property_entry.property.description),
                    };
                    let name = property_entry.name.clone();
                    let found = find_key(&ui_object_entries, &name);
                    let ghost before = ui_object_entries@;
                    proof {
                        lemma_keys_distinct_set(before, found, (name, property));
                        assert(entries@.take(i + 1).drop_last() =~= entries@.take(i as int));
                    }
                    match found {
                        Some(at) => {
                            proof {
                                lemma_ui_members_update(before, at as int, (name, property));
                            }
                            ui_object_entries.set(at, (name, property));
                        },
                        None => {
                            ui_object_entries.push((name, property));
                            assert(ui_object_entries@.drop_last() =~= before);
                        },
                    }
                    i = i + 1;
                }
                assert(entries@.take(entries.len() as int) =~= entries@);
            },
            None => {},
        }
        proof {
            if schema.property_list is Some {
                let list = schema.property_list.unwrap();
                assert forall|i: int|
                    0 <= i < list.entries@.len() && (forall|j: int|
                        i < j < list.entries@.len() ==> list.entries@[j].name@
                            != list.entries@[i].name@) implies {
                    let e = #[trigger] list.entries@[i];
                    &&& ui_model(list.entries@).dom().contains(e.name@)
                    &&& ui_model(list.entries@)[e.name@].help == opt_view(e.property.help)
                    &&& ui_model(list.entries@)[e.name@].warning == opt_view(e.property.warning)
                    &&& ui_model(list.entries@)[e.name@].description == opt_view(
                        e.property.description,
                    )
                } by {
                    lemma_ui_model_last(list.entries@, i);
                }
            }
        }
        UiObject { entries: ui_object_entries }
    }

    /// This object as JSON: each name maps to its property.
    pub fn to_json(&self) -> (res: JsonValue)
        ensures
            res@ == Json::Object(ui_object_json(self@)),
    {
        let mut map = JsonMap::new();
        let mut i: usize = 0;
        while i < self.entries.len()
            invariant
                i <= self.entries.len(),
                map@ == ui_object_json(ui_members(self.entries@.take(i as int))),
            decreases self.entries.len() - i,
        {
            let property = self.entries[i].1.to_json();
            proof {
                assert(self.entries@.take(i + 1).drop_last() =~= self.entries@.take(i as int));
                assert(ui_object_json(ui_members(self.entries@.take(i + 1))) =~= ui_object_json(
                    ui_members(self.entries@.take(i as int)),
                ).insert(self.entries@[i as int].0@, property@));
            }
            map.insert(self.entries[i].0.clone(), property);
            i = i + 1;
        }
        assert(self.entries@.take(self.entries.len() as int) =~= self.entries@);
        JsonValue::Object(map)
    }
}

impl Generator {
    /// The validated schema that this generator describes.
    pub closed spec fn compiled_schema(&self) -> ValidatedSchema {
        self.compiled_schema
    }

    /// A generator for a validated schema.
    pub fn new(compiled_schema: ValidatedSchema) -> (res: Generator)
        ensures
            res.compiled_schema() == compiled_schema,
    {
        Generator { compiled_schema }
    }

    /// The JSON schema of the configuration, and the object that tells a user
    /// interface how to show each property.
    pub fn generate(self) -> (res: (JsonValue, JsonValue))
        ensures
            res.0@ == Json::Object(json_schema_members(self.compiled_schema())),
            res.1@ == Json::Object(ui_object_json(ui_schema_model(self.compiled_schema()))),
    {
        let schema = JsonSchema::from_schema(&self.compiled_schema);
        let ui_object = UiObject::from_schema(&self.compiled_schema);
        (schema.to_json(), ui_object.to_json())
    }
}

} // verus!

verus! {

/// The JSON schema that any validated schema generates is an object of type
/// `object` that declares the draft-04 dialect and carries the schema's title and
/// version.
pub proof fn lemma_generated_schema_header(s: ValidatedSchema)
    ensures
        json_get(Json::Object(json_schema_members(s)), "type"@) == Some(Json::Str("object"@)),
        json_get(Json::Object(json_schema_members(s)), "$schema"@) == Some(
            Json::Str(SCHEMA_URL@),
        ),
        json_get(Json::Object(json_schema_members(s)), "title"@) == Some(Json::Str(s.title@)),
        json_get(Json::Object(json_schema_members(s)), "$$version"@) == Some(
            Json::Number(JsonNumber::PosInt(s.version)),
        ),
{
    reveal_strlit("type");
    reveal_strlit("$schema");
    reveal_strlit("title");
    reveal_strlit("$$version");
    reveal_strlit("properties");
    reveal_strlit("$$order");
    reveal_strlit("required");
    let m = json_schema_members(s);
    assert("type"@.len() == 4 && "title"@.len() == 5 && "$$version"@.len() == 9);
    assert("$schema"@.len() == 7 && "$schema"@[1] == 's');
    assert("properties"@.len() == 10 && "required"@.len() == 8);
    assert("$$order"@.len() == 7 && "$$order"@[1] == '$');
    assert(m.dom().contains("type"@) && m["type"@] == Json::Str("object"@));
    assert(m.dom().contains("$schema"@) && m["$schema"@] == Json::Str(SCHEMA_URL@));
    assert(m.dom().contains("title"@) && m["title"@] == Json::Str(s.title@));
    assert(m.dom().contains("$$version"@));
}

/// Every property that the JSON schema lists as required is one of the properties
/// it describes.
pub proof fn lemma_required_are_properties(entries: Seq<PropertyEntry>)
    ensures
        forall|i: int|
            0 <= i < required_names(entries).len() ==> property_list_members(entries).dom().contains(
                #[trigger] required_names(entries)[i],
            ),
    decreases entries.len(),
{
    if entries.len() > 0 {
        let before = entries.drop_last();
        lemma_required_are_properties(before);
        assert forall|i: int|
            0 <= i < required_names(entries).len() implies property_list_members(
            entries,
        ).dom().contains(#[trigger] required_names(entries)[i]) by {
            if i < required_names(before).len() {
                assert(required_names(entries)[i] == required_names(before)[i]);
            }
        }
    }
}

/// The user interface object names exactly the properties that the JSON schema
/// describes.
pub proof fn lemma_ui_object_matches_properties(entries: Seq<PropertyEntry>)
    ensures
        ui_model(entries).dom() == property_list_members(entries).dom(),
    decreases entries.len(),
{
    if entries.len() > 0 {
        lemma_ui_object_matches_properties(entries.drop_last());
    }
    assert(ui_model(entries).dom() =~= property_list_members(entries).dom());
}

} // verus!

verus! {

/// The user interface model of a property list holds, under each name, the help,
/// warning and description of the last property with that name.
pub proof fn lemma_ui_model_last(entries: Seq<PropertyEntry>, i: int)
    requires
        0 <= i < entries.len(),
        forall|j: int| i < j < entries.len() ==> entries[j].name@ != entries[i].name@,
    ensures
        ui_model(entries).dom().contains(entries[i].name@),
        ui_model(entries)[entries[i].name@].help == opt_view(entries[i].property.help),
        ui_model(entries)[entries[i].name@].warning == opt_view(entries[i].property.warning),
        ui_model(entries)[entries[i].name@].description == opt_view(
            entries[i].property.description,
        ),
    decreases entries.len(),
{
    if i < entries.len() - 1 {
        lemma_ui_model_last(entries.drop_last(), i);
        assert(entries.drop_last()[i] == entries[i]);
    }
}

/// In the user interface object that a generator writes, the member of each
/// property is the object of its help under `ui:help`, its warning under
/// `ui:warning` and its description under `ui:description`, each `null` where the
/// property has none; of properties that share a name, the last one counts.
pub proof fn lemma_ui_object_property_fields(s: ValidatedSchema, i: int)
    requires
        s.property_list is Some,
        0 <= i < s.property_list.unwrap().entries@.len(),
        forall|j: int|
            i < j < s.property_list.unwrap().entries@.len() ==> s.property_list.unwrap().entries@[j].name@
                != s.property_list.unwrap().entries@[i].name@,
    ensures
        ({
            let entry = s.property_list.unwrap().entries@[i];
            let doc = Json::Object(ui_object_json(ui_schema_model(s)));
            &&& json_get(doc, entry.name@) is Some
            &&& json_get(json_get(doc, entry.name@).unwrap(), "ui:help"@) == Some(
                json_opt_str(opt_view(entry.property.help)),
            )
            &&& json_get(json_get(doc, entry.name@).unwrap(), "ui:warning"@) == Some(
                json_opt_str(opt_view(entry.property.warning)),
            )
            &&& json_get(json_get(doc, entry.name@).unwrap(), "ui:description"@) == Some(
                json_opt_str(opt_view(entry.property.description)),
            )
        }),
{
    let entries = s.property_list.unwrap().entries@;
    lemma_ui_model_last(entries, i);
    reveal_strlit("ui:help");
    reveal_strlit("ui:warning");
    reveal_strlit("ui:description");
    assert("ui:help"@.len() == 7 && "ui:warning"@.len() == 10 && "ui:description"@.len() == 14);
}

/// A name is among the required names exactly when some property with that name
/// is of a required type.
pub proof fn lemma_required_names_membership(entries: Seq<PropertyEntry>, k: Seq<char>)
    ensures
        required_names(entries).contains(k) <==> exists|i: int|
            0 <= i < entries.len() && #[trigger] entries[i].name@ == k
                && entries[i].property.type_information.type_spec matches Some(
                TypeSpec::Required(_),
            ),
    decreases entries.len(),
{
    if entries.len() > 0 {
        let before = entries.drop_last();
        lemma_required_names_membership(before, k);
        let r = required_names(before);
        if r.contains(k) {
            let j = choose|j: int| 0 <= j < r.len() && r[j] == k;
            assert(required_names(entries)[j] == k);
            let i = choose|i: int|
                0 <= i < before.len() && #[trigger] before[i].name@ == k
                    && before[i].property.type_information.type_spec matches Some(
                    TypeSpec::Required(_),
                );
            assert(entries[i] == before[i]);
        }
        if required_names(entries).contains(k) {
            let j = choose|j: int|
                0 <= j < required_names(entries).len() && required_names(entries)[j] == k;
            if j < r.len() {
                assert(r[j] == k);
            } else {
                assert(entries[entries.len() - 1].name@ == k);
            }
        }
        if exists|i: int|
            0 <= i < entries.len() && #[trigger] entries[i].name@ == k
                && entries[i].property.type_information.type_spec matches Some(
                TypeSpec::Required(_),
            ) {
            let i = choose|i: int|
                0 <= i < entries.len() && #[trigger] entries[i].name@ == k
                    && entries[i].property.type_information.type_spec matches Some(
                    TypeSpec::Required(_),
                );
            if i < entries.len() - 1 {
                assert(before[i] == entries[i]);
            } else {
                assert(required_names(entries)[required_names(entries).len() - 1] == k);
            }
        }
    }
}

/// The required names of two lists one after the other are those of the first
/// list followed by those of the second: the names keep the order of the entries.
pub proof fn lemma_required_names_concat(a: Seq<PropertyEntry>, b: Seq<PropertyEntry>)
    ensures
        required_names(a + b) == required_names(a) + required_names(b),
    decreases b.len(),
{
    if b.len() == 0 {
        assert(a + b =~= a);
        assert(required_names(a) + required_names(b) =~= required_names(a));
    } else {
        lemma_required_names_concat(a, b.drop_last());
        assert((a + b).drop_last() =~= a + b.drop_last());
        assert((a + b).last() == b.last());
        assert(required_names(a + b) =~= required_names(a) + required_names(b));
    }
}

/// A single property gives its name when its type is required, and nothing
/// otherwise, whatever else it holds.
pub proof fn lemma_required_names_single(e: PropertyEntry)
    ensures
        required_names(seq![e]) == (if e.property.type_information.type_spec matches Some(
            TypeSpec::Required(_),
        ) {
            seq![e.name@]
        } else {
            Seq::<Seq<char>>::empty()
        }),
{
    assert(seq![e].drop_last() =~= Seq::<PropertyEntry>::empty());
    assert(seq![e].last() == e);
    assert(required_names(Seq::<PropertyEntry>::empty()) =~= Seq::<Seq<char>>::empty());
    assert(required_names(seq![e]) == (match e.property.type_information.type_spec {
        Some(TypeSpec::Required(_)) => required_names(seq![e].drop_last()).push(e.name@),
        _ => required_names(seq![e].drop_last()),
    }));
    assert(Seq::<Seq<char>>::empty().push(e.name@) =~= seq![e.name@]);
    assert(required_names(seq![e]) =~= (if e.property.type_information.type_spec matches Some(
        TypeSpec::Required(_),
    ) {
        seq![e.name@]
    } else {
        Seq::<Seq<char>>::empty()
    }));
}

} // verus!
