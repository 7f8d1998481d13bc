//! Per-collection configuration: which keys of a document's properties are
//! pulled up into dedicated, typed fields of the target document, and the
//! coercion each extracted value goes through.

use vstd::prelude::*;
use crate::models::{
    dec_int, i64_to_decimal, lower_of, lower_str, parse_i64, spec_parse_i64, PropValue, PropView,
};

verus! {

/// Configuration for one collection.
#[derive(Debug, Clone)]
pub struct CollectionConfig {
    pub address: String,
    pub name: String,
    pub extracted_fields: Vec<ExtractedField>,
}

/// One field to extract from a document's properties for fast queries.
#[derive(Debug, Clone)]
pub struct ExtractedField {
    /// Field name in the target document.
    pub name: String,
    /// Type the target index maps the field to.
    pub field_type: FieldType,
    /// Key to read in the document's properties.
    pub source_key: String,
}

#[derive(Debug, Clone, PartialEq, Eq)]
pub enum FieldType {
    Integer,
    Keyword,
    Text,
}

/// The coercion one property value goes through for a field type: integers
/// parse strings and keep numbers; keywords lowercase; text keeps the value,
/// rendering numbers in decimal. Anything else is dropped.
pub open spec fn spec_extract_typed(v: PropView, ft: FieldType) -> Option<PropView> {
    match ft {
        FieldType::Integer => match v {
            PropView::Int(n) => Some(PropView::Int(n)),
            PropView::Str(s) => match spec_parse_i64(s) {
                Some(m) => Some(PropView::Int(m as int)),
                None => None,
            },
            PropView::Other => None,
        },
        FieldType::Keyword => match v {
            PropView::Int(n) => Some(PropView::Str(lower_of(dec_int(n)))),
            PropView::Str(s) => Some(PropView::Str(lower_of(s))),
            PropView::Other => None,
        },
        FieldType::Text => match v {
            PropView::Int(n) => Some(PropView::Str(dec_int(n))),
            PropView::Str(s) => Some(PropView::Str(s)),
            PropView::Other => None,
        },
    }
}

pub open spec fn option_prop_view(o: Option<PropValue>) -> Option<PropView> {
    match o {
        Some(v) => Some(v@),
        None => None,
    }
}

/// Extracts the typed value a property contributes under a field type, or
/// nothing when the value does not fit the type.
pub fn extract_typed_value(value: &PropValue, field_type: &FieldType) -> (r: Option<PropValue>)
    ensures
        option_prop_view(r) == spec_extract_typed(value@, *field_type),
{
    match field_type {
        FieldType::Integer => match value {
            PropValue::Int(n) => Some(PropValue::Int(*n)),
            PropValue::Str(s) => match parse_i64(s.as_str()) {
                Some(m) => Some(PropValue::Int(m)),
                None => None,
            },
            PropValue::Other => None,
        },
        FieldType::Keyword => match value {
            PropValue::Int(n) => {
                let d = i64_to_decimal(*n);
                Some(PropValue::Str(lower_str(d.as_str())))
            },
            PropValue::Str(s) => Some(PropValue::Str(lower_str(s.as_str()))),
            PropValue::Other => None,
        },
        FieldType::Text => match value {
            PropValue::Int(n) => Some(PropValue::Str(i64_to_decimal(*n))),
            PropValue::Str(s) => Some(PropValue::Str(s.clone())),
            PropValue::Other => None,
        },
    }
}

/// What looking a key up in a document's properties yields: the value of the
/// first pair carrying the key.
pub open spec fn spec_lookup(props: Seq<(String, PropValue)>, key: Seq<char>) -> Option<PropView>
    decreases props.len(),
{
    if props.len() == 0 {
        None
    } else if props[0].0@ == key {
        Some(props[0].1@)
    } else {
        spec_lookup(props.drop_first(), key)
    }
}

fn lookup_prop_index(props: &Vec<(String, PropValue)>, key: &String) -> (r: Option<usize>)
    ensures
        match r {
            Some(j) => j < props@.len() && spec_lookup(props@, key@) == Some(props@[j as int].1@),
            None => spec_lookup(props@, key@) is None,
        },
{
    let n = props.len();
    proof {
        assert(props@.subrange(0, n as int) =~= props@);
    }
    let mut j: usize = 0;
    while j < n
        invariant
            0 <= j <= n,
            n == props@.len(),
            spec_lookup(props@, key@) == spec_lookup(props@.subrange(j as int, n as int), key@),
        decreases n - j,
    {
        proof {
            let suffix = props@.subrange(j as int, n as int);
            assert(suffix[0] == props@[j as int]);
            assert(suffix.drop_first() =~= props@.subrange(j + 1 as int, n as int));
        }
        let pair = &props[j];
        if pair.0 == *key {
            return Some(j);
        }
        j = j + 1;
    }
    proof {
        assert(props@.subrange(n as int, n as int) =~= Seq::<(String, PropValue)>::empty());
    }
    None
}

/// The pairs a configuration extracts from a document's properties: for each
/// configured field in order, the looked-up property value coerced to the
/// field's type, under the field's target name; fields whose key is absent
/// or whose value does not fit contribute nothing.
pub open spec fn spec_extract_fields(
    props: Seq<(String, PropValue)>,
    fields: Seq<ExtractedField>,
) -> Seq<(Seq<char>, PropView)>
    decreases fields.len(),
{
    if fields.len() == 0 {
        Seq::empty()
    } else {
        let rest = spec_extract_fields(props, fields.drop_last());
        let f = fields.last();
        match spec_lookup(props, f.source_key@) {
            Some(v) => match spec_extract_typed(v, f.field_type) {
                Some(w) => rest.push((f.name@, w)),
                None => rest,
            },
            None => rest,
        }
    }
}

pub open spec fn pairs_view(s: Seq<(String, PropValue)>) -> Seq<(Seq<char>, PropView)> {
    s.map_values(|p: (String, PropValue)| (p.0@, p.1@))
}

/// Extracts every configured field from a document's properties.
pub fn extract_collection_fields(
    properties: &Vec<(String, PropValue)>,
    config: &CollectionConfig,
) -> (r: Vec<(String, PropValue)>)
    ensures
        pairs_view(r@) == spec_extract_fields(properties@, config.extracted_fields@),
{
    let fields = &config.extracted_fields;
    let n = fields.len();
    let mut out: Vec<(String, PropValue)> = Vec::new();
    let mut i: usize = 0;
    while i < n
        invariant
            0 <= i <= n,
            n == fields@.len(),
            pairs_view(out@) == spec_extract_fields(properties@, fields@.subrange(0, i as int)),
        decreases n - i,
    {
        let ghost pre = fields@.subrange(0, i as int);
        let ghost cur = fields@.subrange(0, i + 1 as int);
        proof {
            assert(cur.drop_last() =~= pre);
            assert(cur.last() == fields@[i as int]);
        }
        let f = &fields[i];
        match lookup_prop_index(properties, &f.source_key) {
            Some(j) => {
                let v = &properties[j].1;
                match extract_typed_value(v, &f.field_type) {
                    Some(w) => {
                        out.push((f.name.clone(), w));
                        proof {
                            assert(pairs_view(out@) =~= spec_extract_fields(properties@, cur));
                        }
                    },
                    None => {
                        proof {
                            assert(pairs_view(out@) =~= spec_extract_fields(properties@, cur));
                        }
                    },
                }
            },
            None => {
                proof {
                    assert(pairs_view(out@) =~= spec_extract_fields(properties@, cur));
                }
            },
        }
        i = i + 1;
    }
    proof {
        assert(fields@.subrange(0, n as int) =~= fields@);
    }
    out
}

pub open spec fn wildforest_address() -> Seq<char> {
    "0xa038c593115f6fcd673f6833e15462b475994879"@
}

pub open spec fn axie_address() -> Seq<char> {
    "0x32950db2a7164ae833121501c797d79e7b79d74c"@
}

pub open spec fn land_address() -> Seq<char> {
    "0x8c666c2fab1a27c49a01d608e23daa99dfa2b489"@
}

pub open spec fn is_field(
    f: ExtractedField,
    name: Seq<char>,
    ft: FieldType,
    key: Seq<char>,
) -> bool {
    f.name@ == name && f.field_type == ft && f.source_key@ == key
}

pub open spec fn is_wildforest_config(c: CollectionConfig, addr: Seq<char>) -> bool {
    &&& c.address@ == addr
    &&& c.name@ == "Wildforest Units"@
    &&& c.extracted_fields@.len() == 4
    &&& is_field(c.extracted_fields@[0], "tier"@, FieldType::Integer, "tier"@)
    &&& is_field(c.extracted_fields@[1], "level"@, FieldType::Integer, "level"@)
    &&& is_field(c.extracted_fields@[2], "rarity"@, FieldType::Keyword, "rarity"@)
    &&& is_field(c.extracted_fields@[3], "nft_type"@, FieldType::Keyword, "type"@)
}

pub open spec fn is_axie_config(c: CollectionConfig, addr: Seq<char>) -> bool {
    &&& c.address@ == addr
    &&& c.name@ == "Axie"@
    &&& c.extracted_fields@.len() == 3
    &&& is_field(c.extracted_fields@[0], "class"@, FieldType::Keyword, "class"@)
    &&& is_field(c.extracted_fields@[1], "body_part"@, FieldType::Keyword, "body"@)
    &&& is_field(c.extracted_fields@[2], "breed_count"@, FieldType::Integer, "breedCount"@)
}

pub open spec fn is_land_config(c: CollectionConfig, addr: Seq<char>) -> bool {
    &&& c.address@ == addr
    &&& c.name@ == "Land"@
    &&& c.extracted_fields@.len() == 3
    &&& is_field(c.extracted_fields@[0], "land_type"@, FieldType::Keyword, "land_type"@)
    &&& is_field(c.extracted_fields@[1], "x_coordinate"@, FieldType::Integer, "col"@)
    &&& is_field(c.extracted_fields@[2], "y_coordinate"@, FieldType::Integer, "row"@)
}

/// The configuration a collection address selects, matched after
/// lowercasing; unknown collections get none and fall back to the generic
/// mapping. The returned configuration keeps the address as the caller
/// spelled it.
pub fn get_collection_config(address: &str) -> (r: Option<CollectionConfig>)
    ensures
        ({
            let folded = lower_of(address@);
            if folded == wildforest_address() {
                r matches Some(c) && is_wildforest_config(c, address@)
            } else if folded == axie_address() {
                r matches Some(c) && is_axie_config(c, address@)
            } else if folded == land_address() {
                r matches Some(c) && is_land_config(c, address@)
            } else {
                r is None
            }
        }),
{
    let folded = lower_str(address);
    if folded == "0xa038c593115f6fcd673f6833e15462b475994879".to_owned() {
        let mut fields: Vec<ExtractedField> = Vec::new();
        fields.push(
            ExtractedField {
                name: "tier".to_owned(),
                field_type: FieldType::Integer,
                source_key: "tier".to_owned(),
            },
        );
        fields.push(
            ExtractedField {
                name: "level".to_owned(),
                field_type: FieldType::Integer,
                source_key: "level".to_owned(),
            },
        );
        fields.push(
            ExtractedField {
                name: "rarity".to_owned(),
                field_type: FieldType::Keyword,
                source_key: "rarity".to_owned(),
            },
        );
        fields.push(
            ExtractedField {
                name: "nft_type".to_owned(),
                field_type: FieldType::Keyword,
                source_key: "type".to_owned(),
            },
        );
        Some(
            CollectionConfig {
                address: address.to_owned(),
                name: "Wildforest Units".to_owned(),
                extracted_fields: fields,
            },
        )
    } else if folded == "0x32950db2a7164ae833121501c797d79e7b79d74c".to_owned() {
        let mut fields: Vec<ExtractedField> = Vec::new();
        fields.push(
            ExtractedField {
                name: "class".to_owned(),
                field_type: FieldType::Keyword,
                source_key: "class".to_owned(),
            },
        );
        fields.push(
            ExtractedField {
                name: "body_part".to_owned(),
                field_type: FieldType::Keyword,
                source_key: "body".to_owned(),
            },
        );
        fields.push(
            ExtractedField {
                name: "breed_count".to_owned(),
                field_type: FieldType::Integer,
                source_key: "breedCount".to_owned(),
            },
        );
        Some(
            CollectionConfig {
                address: address.to_owned(),
                name: "Axie".to_owned(),
                extracted_fields: fields,
            },
        )
    } else if folded == "0x8c666c2fab1a27c49a01d608e23daa99dfa2b489".to_owned() {
        let mut fields: Vec<ExtractedField> = Vec::new();
        fields.push(
            ExtractedField {
                name: "land_type".to_owned(),
                field_type: FieldType::Keyword,
                source_key: "land_type".to_owned(),
            },
        );
        fields.push(
            ExtractedField {
                name: "x_coordinate".to_owned(),
                field_type: FieldType::Integer,
                source_key: "col".to_owned(),
            },
        );
        fields.push(
            ExtractedField {
                name: "y_coordinate".to_owned(),
                field_type: FieldType::Integer,
                source_key: "row".to_owned(),
            },
        );
        Some(
            CollectionConfig {
                address: address.to_owned(),
                name: "Land".to_owned(),
                extracted_fields: fields,
            },
        )
    } else {
        None
    }
}

} // verus!
