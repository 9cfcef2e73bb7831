//! What a class declares: the interfaces it implements and the fields in
//! which it holds aggregated sub-objects, read off the attributes of a
//! struct declaration.

use crate::layout::{aggregable_fields, generate_aggregable, FieldKind};
use vstd::prelude::*;

verus! {

/// One item inside the parentheses of an attribute.
#[derive(Debug)]
pub enum MetaItemDecl {
    /// A path, given by its segments.
    Path(Vec<String>),
    /// Anything else: a literal, a name with a value, a nested list.
    Other,
}

/// One attribute of a struct or of a field.
#[derive(Debug)]
pub enum AttributeDecl {
    /// A name followed by a parenthesised list; `name` is the last segment
    /// of the attribute's path.
    List { name: String, nested: Vec<MetaItemDecl> },
    /// Any other form of attribute.
    Other,
}

/// One named field of a struct.
#[derive(Debug)]
pub struct FieldDecl {
    pub name: String,
    pub attributes: Vec<AttributeDecl>,
}

/// The fields of a struct.
#[derive(Debug)]
pub enum FieldsDecl {
    /// Fields with names.
    Named(Vec<FieldDecl>),
    /// Fields without names, or none at all.
    Other,
}

/// A struct declaration, as far as the object model reads it.
#[derive(Debug)]
pub struct StructDecl {
    pub name: String,
    pub attributes: Vec<AttributeDecl>,
    pub fields: FieldsDecl,
}

/// An aggregation field and the interfaces its sub-object is advertised
/// as offering.
#[derive(Debug)]
pub struct AggregateDeclaration {
    pub field: String,
    pub interfaces: Vec<String>,
}

/// What a class declares, by name: its interfaces in declaration order,
/// its aggregation fields in declaration order, and the field order of its
/// records.
#[derive(Debug)]
pub struct ClassDeclaration {
    pub name: String,
    pub interfaces: Vec<String>,
    pub aggregates: Vec<AggregateDeclaration>,
    pub record: Vec<FieldKind>,
}

/// Why a declaration cannot be expanded.
#[derive(Clone, Copy, Debug, PartialEq, Eq, Structural)]
pub enum DeclarationFault {
    /// An interface is named by a path of more than one segment, or of none.
    SeveralSegments,
    /// An aggregation attribute lists nothing.
    NoInterface,
    /// The struct's fields have no names.
    UnnamedFields,
}

impl DeclarationFault {
    /// The text that reports this fault.
    pub open spec fn spec_message(self) -> Seq<char> {
        match self {
            DeclarationFault::SeveralSegments => "Incapable of handling multiple path segments yet."@,
            DeclarationFault::NoInterface =>
                "Need to expose at least one interface from aggregated COM object."@,
            DeclarationFault::UnnamedFields => "Found field other than named fields in struct"@,
        }
    }

    /// The text that reports this fault.
    pub fn message(&self) -> (text: String)
        ensures
            text@ == self.spec_message(),
    {
        match self {
            DeclarationFault::SeveralSegments =>
                "Incapable of handling multiple path segments yet.".to_owned(),
            DeclarationFault::NoInterface =>
                "Need to expose at least one interface from aggregated COM object.".to_owned(),
            DeclarationFault::UnnamedFields => "Found field other than named fields in struct".to_owned(),
        }
    }
}

/// The text of each name of a list.
pub open spec fn names_of(list: Seq<String>) -> Seq<Seq<char>> {
    Seq::new(list.len(), |i: int| list[i]@)
}

/// The field and interface names of each entry of a list.
pub open spec fn entries_of(list: Seq<AggregateDeclaration>) -> Seq<(Seq<char>, Seq<Seq<char>>)> {
    Seq::new(list.len(), |i: int| (list[i].field@, names_of(list[i].interfaces@)))
}

/// The name that marks the list of implemented interfaces on a struct.
pub open spec fn implements_key() -> Seq<char> {
    "com_implements"@
}

/// The name that marks an aggregation field.
pub open spec fn aggregate_key() -> Seq<char> {
    "aggr"@
}

/// Every path among `items` has exactly one segment.
pub open spec fn single_segments(items: Seq<MetaItemDecl>) -> bool {
    forall|i: int|
        0 <= i < items.len() ==> (#[trigger] items[i] matches MetaItemDecl::Path(segments)
            ==> segments@.len() == 1)
}

/// Every list attribute under the name `key` holds only paths of one
/// segment and, where `nonempty` is set, at least one item.
pub open spec fn lists_supported(attributes: Seq<AttributeDecl>, key: Seq<char>, nonempty: bool) -> bool {
    forall|i: int|
        0 <= i < attributes.len() ==> (#[trigger] attributes[i] matches AttributeDecl::List {
            name,
            nested,
        } ==> name@ == key ==> single_segments(nested@) && (nonempty ==> nested@.len() > 0))
}

/// The names that the paths among `items` give, in order.
pub open spec fn path_names(items: Seq<MetaItemDecl>) -> Seq<Seq<char>>
    decreases items.len(),
{
    if items.len() == 0 {
        Seq::empty()
    } else {
        let rest = path_names(items.drop_last());
        match items.last() {
            MetaItemDecl::Path(segments) => rest.push(segments@.last()@),
            MetaItemDecl::Other => rest,
        }
    }
}

/// The names listed by all the list attributes under the name `key`, in order.
pub open spec fn listed_names(attributes: Seq<AttributeDecl>, key: Seq<char>) -> Seq<Seq<char>>
    decreases attributes.len(),
{
    if attributes.len() == 0 {
        Seq::empty()
    } else {
        let rest = listed_names(attributes.drop_last(), key);
        match attributes.last() {
            AttributeDecl::List { name, nested } => if name@ == key {
                rest + path_names(nested@)
            } else {
                rest
            },
            AttributeDecl::Other => rest,
        }
    }
}

/// The names listed by the last list attribute under the name `key`, if
/// there is one.
pub open spec fn last_listed(attributes: Seq<AttributeDecl>, key: Seq<char>) -> Option<
    Seq<Seq<char>>,
>
    decreases attributes.len(),
{
    if attributes.len() == 0 {
        None
    } else {
        match attributes.last() {
            AttributeDecl::List { name, nested } => if name@ == key {
                Some(path_names(nested@))
            } else {
                last_listed(attributes.drop_last(), key)
            },
            AttributeDecl::Other => last_listed(attributes.drop_last(), key),
        }
    }
}

/// The first position at or after `from` of an entry for the field `key`.
pub open spec fn entry_position_from(
    entries: Seq<(Seq<char>, Seq<Seq<char>>)>,
    key: Seq<char>,
    from: int,
) -> Option<int>
    decreases entries.len() - from,
{
    if from < 0 || from >= entries.len() {
        None
    } else if entries[from].0 == key {
        Some(from)
    } else {
        entry_position_from(entries, key, from + 1)
    }
}

/// `entry_position_from` returns the least position of an entry for `key`,
/// and nothing exactly when no entry from `from` on is for `key`.
pub proof fn lemma_entry_position_from(
    entries: Seq<(Seq<char>, Seq<Seq<char>>)>,
    key: Seq<char>,
    from: int,
)
    requires
        0 <= from,
    ensures
        match entry_position_from(entries, key, from) {
            Some(i) => from <= i < entries.len() && entries[i].0 == key && forall|j: int|
                from <= j < i ==> (#[trigger] entries[j]).0 != key,
            None => forall|j: int| from <= j < entries.len() ==> (#[trigger] entries[j]).0 != key,
        },
    decreases entries.len() - from,
{
    if from < entries.len() && entries[from].0 != key {
        lemma_entry_position_from(entries, key, from + 1);
    }
}

/// The entries with the field `key` listing `names`: in place of what the
/// field listed before, or as a new last entry.
pub open spec fn with_entry(
    entries: Seq<(Seq<char>, Seq<Seq<char>>)>,
    key: Seq<char>,
    names: Seq<Seq<char>>,
) -> Seq<(Seq<char>, Seq<Seq<char>>)> {
    match entry_position_from(entries, key, 0) {
        Some(i) => entries.update(i, (key, names)),
        None => entries.push((key, names)),
    }
}

/// The aggregation fields among `fields`, in order, each with the names
/// that its last aggregation attribute lists.  A field name has one entry:
/// a later field of the same name replaces what the earlier one listed.
pub open spec fn aggregate_entries(fields: Seq<FieldDecl>) -> Seq<(Seq<char>, Seq<Seq<char>>)>
    decreases fields.len(),
{
    if fields.len() == 0 {
        Seq::empty()
    } else {
        let rest = aggregate_entries(fields.drop_last());
        match last_listed(fields.last().attributes@, aggregate_key()) {
            Some(names) => with_entry(rest, fields.last().name@, names),
            None => rest,
        }
    }
}

/// No two entries are for the same field.
pub open spec fn distinct_fields(entries: Seq<(Seq<char>, Seq<Seq<char>>)>) -> bool {
    forall|i: int, j: int|
        0 <= i < j < entries.len() ==> (#[trigger] entries[i]).0 != (#[trigger] entries[j]).0
}

/// The aggregation fields of a declaration are keyed by their names: no
/// name occurs twice among the entries.
pub proof fn lemma_aggregate_entries_distinct(fields: Seq<FieldDecl>)
    ensures
        distinct_fields(aggregate_entries(fields)),
    decreases fields.len(),
{
    if fields.len() > 0 {
        let rest = aggregate_entries(fields.drop_last());
        lemma_aggregate_entries_distinct(fields.drop_last());
        lemma_entry_position_from(rest, fields.last().name@, 0);
    }
}

/// Every field's aggregation attributes list at least one interface, each
/// by a path of one segment.
pub open spec fn fields_supported(fields: Seq<FieldDecl>) -> bool {
    forall|f: int|
        0 <= f < fields.len() ==> lists_supported(
            (#[trigger] fields[f]).attributes@,
            aggregate_key(),
            true,
        )
}

/// What is wrong with one list: it is empty where it may not be, or one of
/// its paths does not have exactly one segment.
pub open spec fn list_fault(nested: Seq<MetaItemDecl>, nonempty: bool) -> Option<DeclarationFault> {
    if nonempty && nested.len() == 0 {
        Some(DeclarationFault::NoInterface)
    } else if !single_segments(nested) {
        Some(DeclarationFault::SeveralSegments)
    } else {
        None
    }
}

/// What is wrong with the first faulty list attribute under the name `key`.
pub open spec fn attributes_fault(
    attributes: Seq<AttributeDecl>,
    key: Seq<char>,
    nonempty: bool,
) -> Option<DeclarationFault>
    decreases attributes.len(),
{
    if attributes.len() == 0 {
        None
    } else {
        let here = match attributes.first() {
            AttributeDecl::List { name, nested } => if name@ == key {
                list_fault(nested@, nonempty)
            } else {
                None
            },
            AttributeDecl::Other => None,
        };
        if here is Some {
            here
        } else {
            attributes_fault(attributes.drop_first(), key, nonempty)
        }
    }
}

/// What is wrong with the first field that has a faulty aggregation attribute.
pub open spec fn fields_fault(fields: Seq<FieldDecl>) -> Option<DeclarationFault>
    decreases fields.len(),
{
    if fields.len() == 0 {
        None
    } else {
        let here = attributes_fault(fields.first().attributes@, aggregate_key(), true);
        if here is Some {
            here
        } else {
            fields_fault(fields.drop_first())
        }
    }
}

/// The attributes hold no fault exactly when all their lists are supported.
pub proof fn lemma_attributes_fault(attributes: Seq<AttributeDecl>, key: Seq<char>, nonempty: bool)
    ensures
        attributes_fault(attributes, key, nonempty) is None <==> lists_supported(
            attributes,
            key,
            nonempty,
        ),
    decreases attributes.len(),
{
    if attributes.len() > 0 {
        let rest = attributes.drop_first();
        lemma_attributes_fault(rest, key, nonempty);
        if lists_supported(attributes, key, nonempty) {
            assert forall|i: int| 0 <= i < rest.len() implies (#[trigger] rest[i] matches AttributeDecl::List {
                name,
                nested,
            } ==> name@ == key ==> single_segments(nested@) && (nonempty ==> nested@.len() > 0)) by {
                assert(rest[i] == attributes[i + 1]);
            }
            assert(attributes[0] == attributes.first());
        }
        if attributes_fault(attributes, key, nonempty) is None {
            assert forall|i: int| 0 <= i < attributes.len() implies (#[trigger] attributes[i] matches AttributeDecl::List {
                name,
                nested,
            } ==> name@ == key ==> single_segments(nested@) && (nonempty ==> nested@.len() > 0)) by {
                if i > 0 {
                    assert(attributes[i] == rest[i - 1]);
                }
            }
        }
    }
}

/// The fields hold no fault exactly when all of them are supported.
pub proof fn lemma_fields_fault(fields: Seq<FieldDecl>)
    ensures
        fields_fault(fields) is None <==> fields_supported(fields),
    decreases fields.len(),
{
    if fields.len() > 0 {
        let rest = fields.drop_first();
        lemma_fields_fault(rest);
        lemma_attributes_fault(fields.first().attributes@, aggregate_key(), true);
        if fields_supported(fields) {
            assert forall|f: int| 0 <= f < rest.len() implies lists_supported(
                (#[trigger] rest[f]).attributes@,
                aggregate_key(),
                true,
            ) by {
                assert(rest[f] == fields[f + 1]);
            }
            assert(fields[0] == fields.first());
        }
        if fields_fault(fields) is None {
            assert forall|f: int| 0 <= f < fields.len() implies lists_supported(
                (#[trigger] fields[f]).attributes@,
                aggregate_key(),
                true,
            ) by {
                if f > 0 {
                    assert(fields[f] == rest[f - 1]);
                }
            }
        }
    }
}

impl StructDecl {
    /// The first fault of the declaration, in the order in which it is
    /// read: the struct's own attributes, then whether its fields have
    /// names, then the fields one by one.
    pub open spec fn fault(&self) -> Option<DeclarationFault> {
        let own = attributes_fault(self.attributes@, implements_key(), false);
        if own is Some {
            own
        } else {
            match self.fields {
                FieldsDecl::Named(fields) => fields_fault(fields@),
                FieldsDecl::Other => Some(DeclarationFault::UnnamedFields),
            }
        }
    }

    /// A declaration is supported exactly when it has no fault.
    pub proof fn lemma_fault(&self)
        ensures
            self.fault() is None <==> self.supported(),
    {
        lemma_attributes_fault(self.attributes@, implements_key(), false);
        match self.fields {
            FieldsDecl::Named(fields) => {
                lemma_fields_fault(fields@);
            },
            FieldsDecl::Other => {},
        }
    }

    /// The declaration can be expanded: its interfaces are named by paths
    /// of one segment, its fields have names, and every aggregation field
    /// lists at least one interface, each by a path of one segment.
    pub open spec fn supported(&self) -> bool {
        &&& lists_supported(self.attributes@, implements_key(), false)
        &&& self.fields matches FieldsDecl::Named(fields) && fields_supported(fields@)
    }
}

fn is_named(name: &String, key: &str) -> (same: bool)
    ensures
        same == (name@ == key@),
{
    let owned = key.to_owned();
    *name == owned
}

fn push_path_names(items: &Vec<MetaItemDecl>, names: &mut Vec<String>)
    requires
        single_segments(items@),
    ensures
        names_of(final(names)@) == names_of(old(names)@) + path_names(items@),
{
    let mut i: usize = 0;
    assert(items@.take(0) =~= Seq::empty());
    assert(names_of(names@) =~= names_of(old(names)@) + path_names(items@.take(0)));
    while i < items.len()
        invariant
            i <= items@.len(),
            single_segments(items@),
            names_of(names@) == names_of(old(names)@) + path_names(items@.take(i as int)),
        decreases items@.len() - i,
    {
        let ghost before = names@;
        proof {
            assert(items@.take(i + 1).drop_last() =~= items@.take(i as int));
            assert(items@.take(i + 1).last() == items@[i as int]);
        }
        match &items[i] {
            MetaItemDecl::Path(segments) => {
                assert(segments@.len() == 1);
                names.push(segments[0].clone());
                assert(names_of(names@) =~= names_of(before).push(segments@.last()@));
            },
            MetaItemDecl::Other => {},
        }
        i += 1;
    }
    assert(items@.take(items@.len() as int) =~= items@);
}

fn list_supported(items: &Vec<MetaItemDecl>) -> (yes: bool)
    ensures
        yes == single_segments(items@),
{
    let mut i: usize = 0;
    while i < items.len()
        invariant
            i <= items@.len(),
            forall|j: int|
                0 <= j < i ==> (#[trigger] items@[j] matches MetaItemDecl::Path(segments)
                    ==> segments@.len() == 1),
        decreases items@.len() - i,
    {
        match &items[i] {
            MetaItemDecl::Path(segments) => {
                if segments.len() != 1 {
                    return false;
                }
            },
            MetaItemDecl::Other => {},
        }
        i += 1;
    }
    true
}

fn find_attributes_fault(attributes: &Vec<AttributeDecl>, key: &str, nonempty: bool) -> (fault: Option<
    DeclarationFault,
>)
    ensures
        fault == attributes_fault(attributes@, key@, nonempty),
{
    let mut i: usize = 0;
    assert(attributes@.skip(0) =~= attributes@);
    while i < attributes.len()
        invariant
            i <= attributes@.len(),
            attributes_fault(attributes@, key@, nonempty) == attributes_fault(
                attributes@.skip(i as int),
                key@,
                nonempty,
            ),
        decreases attributes@.len() - i,
    {
        proof {
            assert(attributes@.skip(i as int).drop_first() =~= attributes@.skip(i + 1));
            assert(attributes@.skip(i as int).first() == attributes@[i as int]);
        }
        match &attributes[i] {
            AttributeDecl::List { name, nested } => {
                if is_named(name, key) {
                    if nonempty && nested.len() == 0 {
                        return Some(DeclarationFault::NoInterface);
                    }
                    if !list_supported(nested) {
                        return Some(DeclarationFault::SeveralSegments);
                    }
                }
            },
            AttributeDecl::Other => {},
        }
        i += 1;
    }
    None
}

/// The names of the interfaces that `item` declares as implemented: those
/// listed under `com_implements`, in the order written.
pub fn get_base_interface_idents(item: &StructDecl) -> (names: Vec<String>)
    requires
        lists_supported(item.attributes@, implements_key(), false),
    ensures
        names_of(names@) == listed_names(item.attributes@, implements_key()),
{
    let mut names: Vec<String> = Vec::new();
    let mut i: usize = 0;
    assert(item.attributes@.take(0) =~= Seq::empty());
    assert(names_of(names@) =~= listed_names(item.attributes@.take(0), implements_key()));
    while i < item.attributes.len()
        invariant
            i <= item.attributes@.len(),
            lists_supported(item.attributes@, implements_key(), false),
            names_of(names@) == listed_names(item.attributes@.take(i as int), implements_key()),
        decreases item.attributes@.len() - i,
    {
        proof {
            assert(item.attributes@.take(i + 1).drop_last() =~= item.attributes@.take(i as int));
            assert(item.attributes@.take(i + 1).last() == item.attributes@[i as int]);
        }
        match &item.attributes[i] {
            AttributeDecl::List { name, nested } => {
                if is_named(name, "com_implements") {
                    push_path_names(nested, &mut names);
                }
            },
            AttributeDecl::Other => {},
        }
        i += 1;
    }
    assert(item.attributes@.take(item.attributes@.len() as int) =~= item.attributes@);
    names
}

fn last_aggregate_list(attributes: &Vec<AttributeDecl>) -> (names: Option<Vec<String>>)
    requires
        lists_supported(attributes@, aggregate_key(), true),
    ensures
        match names {
            Some(list) => last_listed(attributes@, aggregate_key()) == Some(names_of(list@)),
            None => last_listed(attributes@, aggregate_key()) is None,
        },
{
    let mut i: usize = attributes.len();
    assert(attributes@.take(i as int) =~= attributes@);
    while i > 0
        invariant
            i <= attributes@.len(),
            lists_supported(attributes@, aggregate_key(), true),
            last_listed(attributes@, aggregate_key()) == last_listed(
                attributes@.take(i as int),
                aggregate_key(),
            ),
        decreases i,
    {
        proof {
            assert(attributes@.take(i as int).drop_last() =~= attributes@.take(i - 1));
            assert(attributes@.take(i as int).last() == attributes@[i - 1]);
        }
        i -= 1;
        match &attributes[i] {
            AttributeDecl::List { name, nested } => {
                if is_named(name, "aggr") {
                    let mut list: Vec<String> = Vec::new();
                    push_path_names(nested, &mut list);
                    assert(names_of(list@) =~= path_names(nested@));
                    return Some(list);
                }
            },
            AttributeDecl::Other => {},
        }
    }
    None
}

fn find_entry(entries: &Vec<AggregateDeclaration>, key: &String) -> (found: Option<usize>)
    ensures
        match found {
            Some(i) => entry_position_from(entries_of(entries@), key@, 0) == Some(i as int) && i
                < entries@.len(),
            None => entry_position_from(entries_of(entries@), key@, 0) is None,
        },
{
    let mut i: usize = 0;
    while i < entries.len()
        invariant
            i <= entries@.len(),
            entry_position_from(entries_of(entries@), key@, 0) == entry_position_from(
                entries_of(entries@),
                key@,
                i as int,
            ),
        decreases entries@.len() - i,
    {
        if entries[i].field == *key {
            return Some(i);
        }
        i += 1;
    }
    None
}

/// The aggregation fields that `item` declares: each field that carries
/// an `aggr` attribute, in declaration order, with the interfaces that the
/// attribute lists.  No field name occurs twice in the result.
pub fn get_aggr_map(item: &StructDecl) -> (entries: Vec<AggregateDeclaration>)
    requires
        item.fields matches FieldsDecl::Named(fields) && fields_supported(fields@),
    ensures
        entries_of(entries@) == aggregate_entries(item.fields->Named_0@),
        distinct_fields(entries_of(entries@)),
{
    let mut entries: Vec<AggregateDeclaration> = Vec::new();
    match &item.fields {
        FieldsDecl::Named(fields) => {
            let mut f: usize = 0;
            assert(fields@.take(0) =~= Seq::empty());
            assert(entries_of(entries@) =~= aggregate_entries(fields@.take(0)));
            while f < fields.len()
                invariant
                    f <= fields@.len(),
                    fields_supported(fields@),
                    entries_of(entries@) == aggregate_entries(fields@.take(f as int)),
                decreases fields@.len() - f,
            {
                let ghost before = entries@;
                proof {
                    assert(fields@.take(f + 1).drop_last() =~= fields@.take(f as int));
                    assert(fields@.take(f + 1).last() == fields@[f as int]);
                }
                match last_aggregate_list(&fields[f].attributes) {
                    Some(interfaces) => {
                        let field = fields[f].name.clone();
                        let ghost entry = (fields@[f as int].name@, names_of(interfaces@));
                        match find_entry(&entries, &field) {
                            Some(i) => {
                                entries.set(i, AggregateDeclaration { field, interfaces });
                                assert(entries_of(entries@) =~= entries_of(before).update(
                                    i as int,
                                    entry,
                                ));
                            },
                            None => {
                                entries.push(AggregateDeclaration { field, interfaces });
                                assert(entries_of(entries@) =~= entries_of(before).push(entry));
                            },
                        }
                    },
                    None => {},
                }
                f += 1;
            }
            assert(fields@.take(fields@.len() as int) =~= fields@);
            proof {
                lemma_aggregate_entries_distinct(fields@);
            }
        },
        FieldsDecl::Other => {},
    }
    entries
}

impl StructDecl {
    /// Looks for the first fault of the declaration.
    pub fn check(&self) -> (fault: Option<DeclarationFault>)
        ensures
            fault == self.fault(),
            fault is None <==> self.supported(),
    {
        proof {
            self.lemma_fault();
        }
        let own = find_attributes_fault(&self.attributes, "com_implements", false);
        if own.is_some() {
            return own;
        }
        match &self.fields {
            FieldsDecl::Named(fields) => {
                let mut f: usize = 0;
                assert(fields@.skip(0) =~= fields@);
                while f < fields.len()
                    invariant
                        f <= fields@.len(),
                        self.fields matches FieldsDecl::Named(named) && named@ == fields@,
                        attributes_fault(self.attributes@, implements_key(), false) is None,
                        self.fault() is None <==> self.supported(),
                        fields_fault(fields@) == fields_fault(fields@.skip(f as int)),
                    decreases fields@.len() - f,
                {
                    proof {
                        assert(fields@.skip(f as int).drop_first() =~= fields@.skip(f + 1));
                        assert(fields@.skip(f as int).first() == fields@[f as int]);
                    }
                    let here = find_attributes_fault(&fields[f].attributes, "aggr", true);
                    if here.is_some() {
                        return here;
                    }
                    f += 1;
                }
                None
            },
            FieldsDecl::Other => Some(DeclarationFault::UnnamedFields),
        }
    }

    /// Whether the declaration can be expanded.
    pub fn is_supported(&self) -> (yes: bool)
        ensures
            yes == self.supported(),
    {
        self.check().is_none()
    }
}

/// Expands the declaration of an aggregable class into what the object
/// model needs of it: the interfaces it implements, its aggregation fields,
/// and the field order of its records.  A declaration with a fault is
/// refused with its first fault.
pub fn expand_derive_aggr_com_class(item: &StructDecl) -> (expanded: Result<
    ClassDeclaration,
    DeclarationFault,
>)
    ensures
        expanded is Ok <==> item.supported(),
        expanded matches Err(fault) ==> item.fault() == Some(fault),
        expanded matches Ok(class) ==> {
            &&& class.name@ == item.name@
            &&& names_of(class.interfaces@) == listed_names(item.attributes@, implements_key())
            &&& entries_of(class.aggregates@) == aggregate_entries(item.fields->Named_0@)
            &&& distinct_fields(entries_of(class.aggregates@))
            &&& class.record@ == aggregable_fields(class.interfaces@.len())
        },
{
    match item.check() {
        Some(fault) => Err(fault),
        None => {
            let interfaces = get_base_interface_idents(item);
            let aggregates = get_aggr_map(item);
            let record = generate_aggregable(interfaces.len());
            Ok(ClassDeclaration { name: item.name.clone(), interfaces, aggregates, record })
        },
    }
}

} // verus!
