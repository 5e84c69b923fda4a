use vstd::prelude::*;

use crate::dsl::schema::{DocumentRoot, KeysSchema, Schema, SchemaEntry, SchemaList};
use crate::json::{
    clone_opt_string, find_key, keys_distinct, lemma_keys_distinct_set, opt_view, Json, JsonMap,
    JsonValue,
};
use crate::output::{
    lemma_ui_nodes_update, ui_nodes, UiNode, UiObject, UiObjectProperty, UiObjectRoot,
};

verus! {

/// What a user interface is told of a schema node: its annotations, how to show
/// its children where it has any, and the title of its keys where the user chooses
/// them.
pub open spec fn schema_node(schema: Schema) -> UiNode
    decreases schema,
{
    UiNode {
        help: opt_view(schema.annotations.help),
        warning: opt_view(schema.annotations.warning),
        description: opt_view(schema.annotations.description),
        widget: opt_view(schema.annotations.widget),
        properties: match schema.children {
            Some(children) => Some(schema_list_nodes(children.entries@)),
            None => None,
        },
        keys: match schema.dynamic {
            Some(dynamic) => Some(opt_view(dynamic.keys.title)),
            None => None,
        },
    }
}

/// What a user interface is told of each child, by name: a child that tells it
/// nothing is left out, and of two children with one name the later one wins.
pub open spec fn schema_list_nodes(entries: Seq<SchemaEntry>) -> Map<Seq<char>, UiNode>
    decreases entries,
{
    if entries.len() == 0 {
        Map::empty()
    } else {
        let before = schema_list_nodes(entries.drop_last());
        let node = schema_node(entries.last().schema);
        if node.is_empty() {
            before
        } else {
            before.insert(entries.last().name@, node)
        }
    }
}

/// The keys of a user-keyed object as JSON: their title under `ui:keys`, where
/// they have one.
pub open spec fn keys_schema_json(keys: KeysSchema) -> Json {
    match keys.title {
        Some(title) => Json::Object(
            Map::empty().insert(
                "ui:keys"@,
                Json::Object(Map::empty().insert("ui:title"@, Json::Str(title@))),
            ),
        ),
        None => Json::Object(Map::empty()),
    }
}

impl KeysSchema {
    /// A copy of these keys.
    pub fn duplicate(&self) -> (res: KeysSchema)
        ensures
            opt_view(res.title) == opt_view(self.title),
    {
        KeysSchema { title: clone_opt_string(&self.title) }
    }

    /// These keys as JSON.
    pub fn to_json(&self) -> (res: JsonValue)
        ensures
            res@ == keys_schema_json(*self),
    {
        let mut map = JsonMap::new();
        if let Some(title) = &self.title {
            let mut keys_definition = JsonMap::new();
            keys_definition.insert("ui:title".to_owned(), JsonValue::String(title.clone()));
            map.insert("ui:keys".to_owned(), JsonValue::Object(keys_definition));
        }
        JsonValue::Object(map)
    }
}

impl UiObjectRoot {
    /// How a user interface shows a document.
    pub fn from_document_root(schema: &DocumentRoot) -> (res: UiObjectRoot)
        ensures
            res.0.is_some() == schema.schema.is_some(),
            res.0 matches Some(p) ==> p@ == schema_node(schema.schema.unwrap()),
    {
        match &schema.schema {
            Some(root) => UiObjectRoot(Some(UiObjectProperty::from_schema(root))),
            None => UiObjectRoot(None),
        }
    }
}

impl UiObject {
    /// How a user interface shows each child of a list that tells it something.
    pub fn from_schema_list(list: &SchemaList) -> (res: UiObject)
        ensures
            res@ == schema_list_nodes(list.entries@),
            keys_distinct(res.0@),
        decreases list,
    {
        let entries = list.entries();
        let mut ui_object_entries: Vec<(String, UiObjectProperty)> = Vec::new();
        let mut i: usize = 0;
        #[verifier::loop_isolation(false)]
        while i < entries.len()
            invariant
                i <= entries.len(),
                ui_nodes(ui_object_entries@) == schema_list_nodes(entries@.take(i as int)),
                keys_distinct(ui_object_entries@),
            decreases entries.len() - i,
        {
            let entry = &entries[i];
            proof {
                assert(decreases_to!(entries@ => entries@[i as int]));
                assert(entries@.take(i + 1).drop_last() =~= entries@.take(i as int));
            }
            let property = UiObjectProperty::from_schema(&entry.schema);
            if !property.is_empty() {
                let name = entry.name.clone();
                let found = find_key(&ui_object_entries, &name);
                let ghost before = ui_object_entries@;
                proof {
                    lemma_keys_distinct_set(before, found, (name, property));
                }
                match found {
                    Some(at) => {
                        proof {
                            lemma_ui_nodes_update(before, at as int, (name, property));
                        }
                        ui_object_entries.set(at, (name, property));
                    },
                    None => {
                        ui_object_entries.push((name, property));
                        assert(ui_object_entries@.drop_last() =~= before);
                    },
                }
            }
            i = i + 1;
        }
        assert(entries@.take(entries.len() as int) =~= entries@);
        UiObject(ui_object_entries)
    }
}

impl UiObjectProperty {
    /// How a user interface shows a schema node.
    pub fn from_schema(schema: &Schema) -> (res: UiObjectProperty)
        ensures
            res@ == schema_node(*schema),
            res.properties matches Some(children) ==> keys_distinct(children.0@),
            opt_view(res.help) == opt_view(schema.annotations.help),
            opt_view(res.warning) == opt_view(schema.annotations.warning),
            opt_view(res.description) == opt_view(schema.annotations.description),
            opt_view(res.widget) == opt_view(schema.annotations.widget),
            res.properties is Some == schema.children is Some,
            res.keys is Some == schema.dynamic is Some,
            res.keys matches Some(keys) ==> opt_view(keys.title) == opt_view(
                schema.dynamic.unwrap().keys.title,
            ),
        decreases schema,
    {
        let keys_values = match &schema.dynamic {
            Some(keys_values) => Some(keys_values.keys.duplicate()),
            None => None,
        };
        let children = match &schema.children {
            Some(children) => Some(UiObject::from_schema_list(children)),
            None => None,
        };
        UiObjectProperty {
            help: clone_opt_string(&schema.annotations.help),
            warning: clone_opt_string(&schema.annotations.warning),
            description: clone_opt_string(&schema.annotations.description),
            widget: clone_opt_string(&schema.annotations.widget),
            properties: children,
            keys: keys_values,
        }
    }
}

} // verus!

verus! {

/// No child in a user interface object is one that tells the user interface nothing.
pub proof fn lemma_no_empty_nodes(entries: Seq<SchemaEntry>)
    ensures
        forall|k: Seq<char>|
            #[trigger] schema_list_nodes(entries).dom().contains(k) ==> !schema_list_nodes(
                entries,
            )[k].is_empty(),
    decreases entries.len(),
{
    if entries.len() > 0 {
        let before = entries.drop_last();
        lemma_no_empty_nodes(before);
        assert forall|k: Seq<char>|
            #[trigger] schema_list_nodes(entries).dom().contains(k) implies !schema_list_nodes(
            entries,
        )[k].is_empty() by {
            if schema_list_nodes(before).dom().contains(k) {
                assert(!schema_list_nodes(before)[k].is_empty());
            }
        }
    }
}

/// A child is in the user interface object exactly when some child of the list
/// with its name tells the user interface something.
pub proof fn lemma_node_present_iff_informative(entries: Seq<SchemaEntry>, k: Seq<char>)
    ensures
        schema_list_nodes(entries).dom().contains(k) <==> exists|i: int|
            0 <= i < entries.len() && #[trigger] entries[i].name@ == k && !schema_node(
                entries[i].schema,
            ).is_empty(),
    decreases entries.len(),
{
    if entries.len() > 0 {
        let before = entries.drop_last();
        lemma_node_present_iff_informative(before, k);
        if schema_list_nodes(before).dom().contains(k) {
            let i = choose|i: int|
                0 <= i < before.len() && #[trigger] before[i].name@ == k && !schema_node(
                    before[i].schema,
                ).is_empty();
            assert(entries[i] == before[i]);
        }
        if exists|i: int|
            0 <= i < entries.len() && #[trigger] entries[i].name@ == k && !schema_node(
                entries[i].schema,
            ).is_empty() {
            let i = choose|i: int|
                0 <= i < entries.len() && #[trigger] entries[i].name@ == k && !schema_node(
                    entries[i].schema,
                ).is_empty();
            if i < entries.len() - 1 {
                assert(before[i] == entries[i]);
            }
        }
    }
}

} // verus!

verus! {

/// Every schema node tells a user interface its own help, warning, description
/// and widget, whether or not it has children; it has a children object exactly
/// when it has children, and keys exactly when the user chooses its keys, with
/// their title.
pub proof fn lemma_schema_node_annotations(schema: Schema)
    ensures
        schema_node(schema).help == opt_view(schema.annotations.help),
        schema_node(schema).warning == opt_view(schema.annotations.warning),
        schema_node(schema).description == opt_view(schema.annotations.description),
        schema_node(schema).widget == opt_view(schema.annotations.widget),
        schema_node(schema).properties is Some == schema.children is Some,
        schema_node(schema).keys == (match schema.dynamic {
            Some(d) => Some(opt_view(d.keys.title)),
            None => None,
        }),
{
}

/// A node with a widget, or any other annotation, is never left out of its
/// parent's user interface object for being empty.
pub proof fn lemma_annotated_node_informative(schema: Schema)
    ensures
        schema.annotations.widget is Some || schema.annotations.help is Some
            || schema.annotations.warning is Some || schema.annotations.description is Some
            || schema.children is Some || schema.dynamic is Some ==> !schema_node(
            schema,
        ).is_empty(),
{
}

} // verus!
