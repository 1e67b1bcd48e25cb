//! The data model of a property mapping: property keys with a coarse relation
//! kind, optional raw values, and the target model.

use vstd::prelude::*;

verus! {

broadcast use vstd::string::group_string_axioms;

/// One declared leaf field of a structured (object) property.
pub struct ObjectField {
    pub name: String,
}

/// A property key: a field name, a free-form kind label, and, for structured
/// fields, the declared leaf selection.
pub struct PropertyKey {
    pub name: String,
    pub kind: String,
    pub object_fields: Option<Vec<ObjectField>>,
}

/// One property of a mapping. The `key` sequence must hold exactly one
/// element: nested assignment through several keys is unsupported and is
/// rejected by the checked entry points.
pub struct PropertyMap {
    pub key: Vec<PropertyKey>,
    pub value: Option<String>,
}

/// The target entity type.
pub struct Model {
    pub name: String,
}

/// A compiled, reusable field-selection fragment. An empty model name yields
/// the empty sentinel fragment (`name == ""`, `gql == ""`).
#[derive(Debug, PartialEq, Eq)]
pub struct GraphQL {
    pub name: String,
    pub gql: String,
}

/// The closed set of relation kinds a label classifies to. Unrecognized
/// labels keep their text in `Other` and behave like `Scalar` downstream.
#[derive(Debug, PartialEq, Eq)]
pub enum PropertyKind {
    Object,
    BelongsTo,
    HasMany,
    HasAndBelongsToMany,
    Scalar,
    Other(String),
}

/// The shape of a relation kind as contracts see it: `Scalar` and `Other`
/// behave alike, as a bare scalar-like field.
pub enum KindView {
    Object,
    BelongsTo,
    HasMany,
    HasAndBelongsToMany,
    ScalarLike,
}

/// How a kind label is classified, as a function of the label text.
pub open spec fn spec_kind(label: Seq<char>) -> KindView {
    if label == "OBJECT"@ {
        KindView::Object
    } else if label == "BELONGS_TO"@ {
        KindView::BelongsTo
    } else if label == "HAS_MANY"@ {
        KindView::HasMany
    } else if label == "HAS_AND_BELONGS_TO_MANY"@ {
        KindView::HasAndBelongsToMany
    } else {
        KindView::ScalarLike
    }
}

/// The shape a classified kind presents to the compilers.
pub open spec fn kind_view(k: PropertyKind) -> KindView {
    match k {
        PropertyKind::Object => KindView::Object,
        PropertyKind::BelongsTo => KindView::BelongsTo,
        PropertyKind::HasMany => KindView::HasMany,
        PropertyKind::HasAndBelongsToMany => KindView::HasAndBelongsToMany,
        PropertyKind::Scalar => KindView::ScalarLike,
        PropertyKind::Other(_) => KindView::ScalarLike,
    }
}

/// Classifies a kind label. Total: an unrecognized label becomes
/// `Other(label)`, which downstream logic treats like `Scalar`.
pub fn classify(label: &String) -> (k: PropertyKind)
    ensures
        kind_view(k) == spec_kind(label@),
        k is Scalar <==> label@ == "STRING"@,
        k matches PropertyKind::Other(l) ==> l@ == label@,
{
    proof {
        reveal_strlit("OBJECT");
        reveal_strlit("BELONGS_TO");
        reveal_strlit("HAS_MANY");
        reveal_strlit("HAS_AND_BELONGS_TO_MANY");
        reveal_strlit("STRING");
        assert("OBJECT"@[0] == 'O' && "STRING"@[0] == 'S');
        assert("OBJECT"@ != "STRING"@);
    }
    if *label == String::from_str("OBJECT") {
        PropertyKind::Object
    } else if *label == String::from_str("BELONGS_TO") {
        PropertyKind::BelongsTo
    } else if *label == String::from_str("HAS_MANY") {
        PropertyKind::HasMany
    } else if *label == String::from_str("HAS_AND_BELONGS_TO_MANY") {
        PropertyKind::HasAndBelongsToMany
    } else if *label == String::from_str("STRING") {
        PropertyKind::Scalar
    } else {
        PropertyKind::Other(label.clone())
    }
}

/// Every property of the mapping supplies exactly one key.
pub open spec fn spec_single_keyed(mapping: Seq<PropertyMap>) -> bool {
    forall|i: int| 0 <= i < mapping.len() ==> (#[trigger] mapping[i].key)@.len() == 1
}

/// Checks that every property supplies exactly one key.
pub fn mapping_single_keyed(mapping: &Vec<PropertyMap>) -> (b: bool)
    ensures
        b == spec_single_keyed(mapping@),
{
    let mut i: usize = 0;
    while i < mapping.len()
        invariant
            i <= mapping@.len(),
            forall|j: int| 0 <= j < i ==> (#[trigger] mapping@[j].key)@.len() == 1,
        decreases mapping@.len() - i,
    {
        if mapping[i].key.len() != 1 {
            return false;
        }
        i = i + 1;
    }
    true
}

} // verus!
