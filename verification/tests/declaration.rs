use co_class::declaration::{
    expand_derive_aggr_com_class, get_aggr_map, get_base_interface_idents, AttributeDecl,
    DeclarationFault, FieldDecl, FieldsDecl, MetaItemDecl, StructDecl,
};
use co_class::layout::FieldKind;

fn path(name: &str) -> MetaItemDecl {
    MetaItemDecl::Path(vec![name.to_string()])
}

fn list(name: &str, nested: Vec<MetaItemDecl>) -> AttributeDecl {
    AttributeDecl::List { name: name.to_string(), nested }
}

fn field(name: &str, attributes: Vec<AttributeDecl>) -> FieldDecl {
    FieldDecl { name: name.to_string(), attributes }
}

fn file_manager() -> StructDecl {
    StructDecl {
        name: "FileManager".to_string(),
        attributes: vec![
            AttributeDecl::Other,
            list("derive", vec![path("Debug")]),
            list("com_implements", vec![path("IFileManager"), MetaItemDecl::Other, path("IStorage")]),
            list("com_implements", vec![path("IPersist")]),
        ],
        fields: FieldsDecl::Named(vec![
            field("user_field", vec![]),
            field(
                "local",
                vec![AttributeDecl::Other, list("aggr", vec![path("ILocalFileManager"), path("ICache")])],
            ),
            field("skipped", vec![list("other", vec![path("INotListed")])]),
            field(
                "remote",
                vec![list("aggr", vec![path("IFirstChoice")]), list("aggr", vec![path("IRemote")])],
            ),
        ]),
    }
}

#[test]
fn implemented_interfaces_come_in_the_order_written() {
    let names = get_base_interface_idents(&file_manager());
    assert_eq!(names, vec!["IFileManager", "IStorage", "IPersist"]);
}

#[test]
fn struct_without_the_attribute_implements_nothing() {
    let item = StructDecl {
        name: "Empty".to_string(),
        attributes: vec![list("derive", vec![path("Clone")]), AttributeDecl::Other],
        fields: FieldsDecl::Named(vec![]),
    };
    assert!(item.is_supported());
    assert!(get_base_interface_idents(&item).is_empty());
    assert!(get_aggr_map(&item).is_empty());
}

#[test]
fn aggregation_fields_come_in_declaration_order() {
    let entries = get_aggr_map(&file_manager());
    assert_eq!(entries.len(), 2);
    assert_eq!(entries[0].field, "local");
    assert_eq!(entries[0].interfaces, vec!["ILocalFileManager", "ICache"]);
    assert_eq!(entries[1].field, "remote");
    assert_eq!(entries[1].interfaces, vec!["IRemote"]);
}

#[test]
fn expansion_gathers_names_and_record_layout() {
    let item = file_manager();
    assert!(item.is_supported());
    assert_eq!(item.check(), None);
    let class = expand_derive_aggr_com_class(&item).expect("a supported declaration expands");
    assert_eq!(class.name, "FileManager");
    assert_eq!(class.interfaces, vec!["IFileManager", "IStorage", "IPersist"]);
    assert_eq!(class.aggregates.len(), 2);
    assert_eq!(class.aggregates[1].field, "remote");
    assert_eq!(
        class.record,
        vec![
            FieldKind::InterfaceVptr(0),
            FieldKind::InterfaceVptr(1),
            FieldKind::InterfaceVptr(2),
            FieldKind::NonDelegatingUnknown,
            FieldKind::DelegationTarget,
            FieldKind::ReferenceCount,
            FieldKind::Payload,
        ]
    );
}

#[test]
fn path_of_several_segments_is_not_supported() {
    let mut item = file_manager();
    item.attributes.push(list(
        "com_implements",
        vec![MetaItemDecl::Path(vec!["com".to_string(), "IUnknown".to_string()])],
    ));
    assert!(!item.is_supported());
    assert_eq!(item.check(), Some(DeclarationFault::SeveralSegments));
    assert_eq!(
        expand_derive_aggr_com_class(&item).err(),
        Some(DeclarationFault::SeveralSegments)
    );

    let mut item = file_manager();
    item.attributes.push(list(
        "derive",
        vec![MetaItemDecl::Path(vec!["std".to_string(), "fmt".to_string(), "Debug".to_string()])],
    ));
    assert!(item.is_supported());

    let mut item = file_manager();
    item.fields = FieldsDecl::Named(vec![field(
        "inner",
        vec![list("aggr", vec![MetaItemDecl::Path(vec!["a".to_string(), "IInner".to_string()])])],
    )]);
    assert!(!item.is_supported());
    assert_eq!(item.check(), Some(DeclarationFault::SeveralSegments));

    let mut item = file_manager();
    item.attributes.push(list("com_implements", vec![MetaItemDecl::Path(vec![])]));
    assert_eq!(item.check(), Some(DeclarationFault::SeveralSegments));
}

#[test]
fn aggregation_field_without_interfaces_is_not_supported() {
    let mut item = file_manager();
    item.fields = FieldsDecl::Named(vec![field("inner", vec![list("aggr", vec![])])]);
    assert!(!item.is_supported());
    assert_eq!(item.check(), Some(DeclarationFault::NoInterface));
    assert_eq!(expand_derive_aggr_com_class(&item).err(), Some(DeclarationFault::NoInterface));
    item.fields = FieldsDecl::Named(vec![field("inner", vec![list("aggr", vec![MetaItemDecl::Other])])]);
    assert!(item.is_supported());
    let entries = get_aggr_map(&item);
    assert_eq!(entries.len(), 1);
    assert!(entries[0].interfaces.is_empty());
}

#[test]
fn struct_without_named_fields_is_not_supported() {
    let mut item = file_manager();
    item.fields = FieldsDecl::Other;
    assert!(!item.is_supported());
    assert_eq!(item.check(), Some(DeclarationFault::UnnamedFields));
    assert_eq!(expand_derive_aggr_com_class(&item).err(), Some(DeclarationFault::UnnamedFields));
}

#[test]
fn first_fault_in_reading_order_is_reported() {
    // A faulty list on the struct itself comes before anything about fields.
    let mut item = file_manager();
    item.attributes.push(list(
        "com_implements",
        vec![MetaItemDecl::Path(vec!["a".to_string(), "b".to_string()])],
    ));
    item.fields = FieldsDecl::Other;
    assert_eq!(item.check(), Some(DeclarationFault::SeveralSegments));

    // Among fields the earlier field decides, among attributes the earlier one.
    let several = list("aggr", vec![MetaItemDecl::Path(vec!["a".to_string(), "b".to_string()])]);
    let empty = list("aggr", vec![]);
    let mut item = file_manager();
    item.fields = FieldsDecl::Named(vec![field("one", vec![several]), field("two", vec![empty])]);
    assert_eq!(item.check(), Some(DeclarationFault::SeveralSegments));

    let several = list("aggr", vec![MetaItemDecl::Path(vec!["a".to_string(), "b".to_string()])]);
    let empty = list("aggr", vec![]);
    let mut item = file_manager();
    item.fields = FieldsDecl::Named(vec![field("one", vec![empty, several])]);
    assert_eq!(item.check(), Some(DeclarationFault::NoInterface));

    // An empty list of implemented interfaces is no fault.
    let mut item = file_manager();
    item.attributes.push(list("com_implements", vec![]));
    assert_eq!(item.check(), None);
}

#[test]
fn faults_report_themselves() {
    assert_eq!(
        DeclarationFault::SeveralSegments.message(),
        "Incapable of handling multiple path segments yet."
    );
    assert_eq!(
        DeclarationFault::NoInterface.message(),
        "Need to expose at least one interface from aggregated COM object."
    );
    assert_eq!(
        DeclarationFault::UnnamedFields.message(),
        "Found field other than named fields in struct"
    );
}

#[test]
fn later_field_of_the_same_name_replaces_the_earlier_list() {
    let mut item = file_manager();
    item.fields = FieldsDecl::Named(vec![
        field("inner", vec![list("aggr", vec![path("IFirst")])]),
        field("other", vec![list("aggr", vec![path("IOther")])]),
        field("inner", vec![list("aggr", vec![path("ISecond"), path("IThird")])]),
    ]);
    let entries = get_aggr_map(&item);
    assert_eq!(entries.len(), 2);
    assert_eq!(entries[0].field, "inner");
    assert_eq!(entries[0].interfaces, vec!["ISecond", "IThird"]);
    assert_eq!(entries[1].field, "other");
    assert_eq!(entries[1].interfaces, vec!["IOther"]);
}
