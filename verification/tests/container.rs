use std::io::{Cursor, Write};

use aaf::classes::AAFObject;
use aaf::error::AafError;
use aaf::file::AAFFile;
use aaf::interchange_object::InterchangeObjectDescriptor;
use aaf::properties::{
    PropertyValue, RawProperty, SF_DATA, SF_DATA_STREAM, SF_STRONG_OBJECT_REF,
    SF_STRONG_OBJECT_REF_SET, SF_STRONG_OBJECT_REF_VECTOR, SF_WEAK_OBJECT_REF,
    SF_WEAK_OBJECT_REF_SET, SF_WEAK_OBJECT_REF_VECTOR,
};
use aaf::property_iterator::AAFPropertyIterator;
use aaf::references::WeakObjectReference;
use aaf::types::{Auid, TimeStamp, VersionType};

const ROOT_CLASS: [u8; 16] = [
    0xb3, 0xb3, 0x98, 0xa5, 0x1c, 0x90, 0x11, 0xd4, 0x80, 0x53, 0x08, 0x00, 0x36, 0x21, 0x08, 0x04,
];

const HEADER_CLASS: [u8; 16] = [
    0x0d, 0x01, 0x01, 0x01, 0x01, 0x01, 0x2f, 0x00, 0x06, 0x0e, 0x2b, 0x34, 0x02, 0x06, 0x01, 0x01,
];

const ID_A: [u8; 16] = [0xa0, 1, 2, 3, 4, 5, 6, 7, 8, 9, 10, 11, 12, 13, 14, 15];

const ID_B: [u8; 16] = [0xb0, 1, 2, 3, 4, 5, 6, 7, 8, 9, 10, 11, 12, 13, 14, 15];

const ID_C: [u8; 16] = [0xc0, 1, 2, 3, 4, 5, 6, 7, 8, 9, 10, 11, 12, 13, 14, 15];

const ID_NONE: [u8; 16] = [0xee; 16];

fn stored_name(name: &str) -> Vec<u8> {
    let mut bytes = Vec::new();
    for unit in name.encode_utf16() {
        bytes.extend_from_slice(&unit.to_le_bytes());
    }
    bytes.extend_from_slice(&[0, 0]);
    bytes
}

fn property_table(records: &[(u16, u16, Vec<u8>)]) -> Vec<u8> {
    let mut bytes = vec![0x4c, 0x20];
    bytes.extend_from_slice(&(records.len() as u16).to_le_bytes());
    for (pid, stored_form, payload) in records {
        bytes.extend_from_slice(&pid.to_le_bytes());
        bytes.extend_from_slice(&stored_form.to_le_bytes());
        bytes.extend_from_slice(&(payload.len() as u16).to_le_bytes());
    }
    for (_, _, payload) in records {
        bytes.extend_from_slice(payload);
    }
    bytes
}

fn vector_index(keys: &[u32]) -> Vec<u8> {
    let mut bytes = Vec::new();
    bytes.extend_from_slice(&(keys.len() as u32).to_le_bytes());
    bytes.extend_from_slice(&100u32.to_le_bytes());
    bytes.extend_from_slice(&200u32.to_le_bytes());
    for key in keys {
        bytes.extend_from_slice(&key.to_le_bytes());
    }
    bytes
}

fn set_index(key_pid: u16, key_size: u8, entries: &[(u32, u32, Vec<u8>)]) -> Vec<u8> {
    let mut bytes = Vec::new();
    bytes.extend_from_slice(&(entries.len() as u32).to_le_bytes());
    bytes.extend_from_slice(&100u32.to_le_bytes());
    bytes.extend_from_slice(&200u32.to_le_bytes());
    bytes.extend_from_slice(&key_pid.to_le_bytes());
    bytes.push(key_size);
    for (local_key, reference_count, identification) in entries {
        bytes.extend_from_slice(&local_key.to_le_bytes());
        bytes.extend_from_slice(&reference_count.to_le_bytes());
        bytes.extend_from_slice(identification);
    }
    bytes
}

fn weak_reference(tag: u16, key_pid: u16, identification: &[u8]) -> Vec<u8> {
    let mut bytes = Vec::new();
    bytes.extend_from_slice(&tag.to_le_bytes());
    bytes.extend_from_slice(&key_pid.to_le_bytes());
    bytes.push(identification.len() as u8);
    bytes.extend_from_slice(identification);
    bytes
}

fn weak_collection(tag: u16, key_pid: u16, key_size: u8, identifications: &[Vec<u8>]) -> Vec<u8> {
    let mut bytes = Vec::new();
    bytes.extend_from_slice(&(identifications.len() as u32).to_le_bytes());
    bytes.extend_from_slice(&tag.to_le_bytes());
    bytes.extend_from_slice(&key_pid.to_le_bytes());
    bytes.push(key_size);
    for identification in identifications {
        bytes.extend_from_slice(identification);
    }
    bytes
}

fn path_table(paths: &[Vec<u16>]) -> Vec<u8> {
    let mut pids: Vec<u16> = Vec::new();
    for path in paths {
        pids.extend_from_slice(path);
        pids.push(0);
    }
    let mut bytes = vec![0x4c];
    bytes.extend_from_slice(&(paths.len() as u16).to_le_bytes());
    bytes.extend_from_slice(&(pids.len() as u32).to_le_bytes());
    for pid in pids {
        bytes.extend_from_slice(&pid.to_le_bytes());
    }
    bytes
}

fn put_stream(comp: &mut cfb::CompoundFile<Cursor<Vec<u8>>>, path: &str, bytes: &[u8]) {
    let mut stream = comp.create_stream(path).unwrap();
    stream.write_all(bytes).unwrap();
}

fn put_storage(comp: &mut cfb::CompoundFile<Cursor<Vec<u8>>>, path: &str, class: [u8; 16]) {
    comp.create_storage(path).unwrap();
    comp.set_storage_clsid(path, uuid::Uuid::from_bytes(class)).unwrap();
}

fn class_definition(identification: [u8; 16], name: &str, parent: Option<[u8; 16]>) -> Vec<u8> {
    let mut records = vec![
        (0x0005u16, SF_DATA, identification.to_vec()),
        (0x0006u16, SF_DATA, stored_name(name)),
    ];
    if let Some(parent) = parent {
        records.push((0x0008u16, SF_WEAK_OBJECT_REF, weak_reference(0, 0x0005, &parent)));
    }
    property_table(&records)
}

/// A small container with a dictionary of three class definitions and a
/// header.
fn sample_image() -> Vec<u8> {
    let mut comp = cfb::CompoundFile::create(Cursor::new(Vec::new())).unwrap();
    comp.set_storage_clsid("/", uuid::Uuid::from_bytes(ROOT_CLASS)).unwrap();
    put_stream(
        &mut comp,
        "/properties",
        &property_table(
            &[
                (0x0001, SF_STRONG_OBJECT_REF, stored_name("MetaDictionary-1")),
                (0x0002, SF_STRONG_OBJECT_REF, stored_name("Header-2")),
            ],
        ),
    );
    put_stream(
        &mut comp,
        "/referenced properties",
        &path_table(&[vec![0x0001, 0x0003], vec![0x0002, 0x3b03, 0x1901], vec![0x0001, 0x0004]]),
    );

    put_storage(&mut comp, "/MetaDictionary-1", [1; 16]);
    put_stream(
        &mut comp,
        "/MetaDictionary-1/properties",
        &property_table(
            &[
                (0x0003, SF_STRONG_OBJECT_REF_SET, stored_name("ClassDefinitions-3")),
                (0x0004, SF_STRONG_OBJECT_REF_SET, stored_name("TypeDefinitions-4")),
            ],
        ),
    );
    put_stream(
        &mut comp,
        "/MetaDictionary-1/ClassDefinitions-3 index",
        &set_index(
            0x0005,
            16,
            &[(0, 1, ID_A.to_vec()), (1, 2, ID_B.to_vec()), (10, 1, ID_C.to_vec())],
        ),
    );
    put_storage(&mut comp, "/MetaDictionary-1/ClassDefinitions-30", [2; 16]);
    put_stream(
        &mut comp,
        "/MetaDictionary-1/ClassDefinitions-30/properties",
        &class_definition(ID_A, "InterchangeObject", None),
    );
    put_storage(&mut comp, "/MetaDictionary-1/ClassDefinitions-31", [2; 16]);
    put_stream(
        &mut comp,
        "/MetaDictionary-1/ClassDefinitions-31/properties",
        &class_definition(ID_B, "Component", Some(ID_A)),
    );
    put_storage(&mut comp, "/MetaDictionary-1/ClassDefinitions-3a", [2; 16]);
    put_stream(
        &mut comp,
        "/MetaDictionary-1/ClassDefinitions-3a/properties",
        &class_definition(ID_C, "Segment", Some(ID_NONE)),
    );
    put_stream(&mut comp, "/MetaDictionary-1/TypeDefinitions-4 index", &set_index(0x0005, 16, &[]));

    put_storage(&mut comp, "/Header-2", HEADER_CLASS);
    put_stream(
        &mut comp,
        "/Header-2/properties",
        &property_table(
            &[
                (0x3b01, SF_DATA, vec![0x49, 0x49]),
                (0x3b02, SF_DATA, vec![0xe5, 0x07, 11, 9, 15, 28, 58, 0]),
                (0x3b03, SF_STRONG_OBJECT_REF, stored_name("Content-3b03")),
                (0x3b05, SF_DATA, vec![1, 1]),
                (0x3b06, SF_STRONG_OBJECT_REF_VECTOR, stored_name("IdentificationList-3b06")),
                (0x3b07, SF_DATA, vec![0x78, 0x56, 0x34, 0x12]),
                (
                    0x3b09,
                    SF_DATA,
                    vec![
                        0x00, 0x01, 0x02, 0x03, 0x04, 0x05, 0x06, 0x07, 0x08, 0x09, 0x0a, 0x0b,
                        0x0c, 0x0d, 0x0e, 0x0f,
                    ],
                ),
                (0x3b0a, SF_WEAK_OBJECT_REF_VECTOR, stored_name("EssenceContainers-3b0a")),
                (0x3b0b, SF_WEAK_OBJECT_REF_SET, stored_name("DescriptiveSchemes-3b0b")),
                (0x3b20, SF_DATA_STREAM, stored_name("Essence-3b20")),
            ],
        ),
    );
    put_storage(&mut comp, "/Header-2/Content-3b03", [3; 16]);
    put_stream(&mut comp, "/Header-2/Content-3b03/properties", &property_table(&[]));
    put_stream(&mut comp, "/Header-2/IdentificationList-3b06 index", &vector_index(&[1, 0]));
    put_storage(&mut comp, "/Header-2/IdentificationList-3b060", [4; 16]);
    put_stream(
        &mut comp,
        "/Header-2/IdentificationList-3b060/properties",
        &property_table(&[(0x3c01, SF_DATA, stored_name("first"))]),
    );
    put_storage(&mut comp, "/Header-2/IdentificationList-3b061", [5; 16]);
    put_stream(
        &mut comp,
        "/Header-2/IdentificationList-3b061/properties",
        &property_table(&[(0x3c01, SF_DATA, stored_name("second"))]),
    );
    put_stream(
        &mut comp,
        "/Header-2/EssenceContainers-3b0a index",
        &weak_collection(0, 0x0005, 16, &[ID_C.to_vec(), ID_A.to_vec()]),
    );
    put_stream(
        &mut comp,
        "/Header-2/DescriptiveSchemes-3b0b index",
        &weak_collection(0, 0x0005, 16, &[ID_B.to_vec()]),
    );
    comp.flush().unwrap();
    comp.into_inner().into_inner()
}

fn sample_file() -> AAFFile {
    AAFFile::open(sample_image()).unwrap()
}

fn descriptor(class: [u8; 16], path: &str) -> InterchangeObjectDescriptor {
    InterchangeObjectDescriptor { auid: Auid { bytes: class }, path: String::from(path) }
}

#[test]
fn test_get_root() {
    let comp = cfb::CompoundFile::open(Cursor::new(sample_image())).unwrap();
    let f = AAFFile::with_cfb(comp).unwrap();
    let _root = f.root_object();
    assert_eq!(_root, Ok(descriptor(ROOT_CLASS, "/")));
}

#[test]
fn test_get_properties() {
    let comp = cfb::CompoundFile::open(Cursor::new(sample_image())).unwrap();
    let mut f = AAFFile::with_cfb(comp).unwrap();
    let root = f.root_object().unwrap();

    let props = f.raw_properties(&root).unwrap();

    assert_eq!(props.len(), 2, "Incorrect number of properties detected");

    let _p1 = f.raw_property_by_pid(&root, 0x01);
    let _p2 = f.raw_property_by_pid(&root, 0x02);
    assert_eq!(
        _p1,
        Ok(
            Some(
                RawProperty {
                    pid: 1,
                    stored_form: SF_STRONG_OBJECT_REF,
                    raw_value: Box::new(stored_name("MetaDictionary-1")),
                },
            ),
        )
    );
    assert_eq!(_p2.unwrap().unwrap().raw_string_value(), Ok(String::from("Header-2")));
}

#[test]
fn test_all_properties() {
    let mut f = AAFFile::open(sample_image()).unwrap();
    let root = f.root_object().unwrap();

    let all = f.all_property_ids(&root).unwrap();

    assert_eq!(all.len(), 2, "Found property ids");
    assert_eq!(all, vec![0x0001, 0x0002]);
}

#[test]
fn test_get_header() {
    let f = AAFFile::open(sample_image()).unwrap();

    let mut h = f.header().unwrap();

    assert_eq!(h.byte_order(), Ok(0x4949));

    assert_eq!(h.last_modified(), Ok(TimeStamp { date: (2021, 11, 9), time: (15, 28, 58, 0) }));

    assert_eq!(h.version(), Ok(VersionType { major: 1, minor: 1 }))
}

#[test]
fn root_header_property_is_a_single_object_below_the_root() {
    let mut f = sample_file();
    let root = f.root_object().unwrap();
    assert_eq!(
        f.resolve(&root, 0x0002),
        Ok(PropertyValue::Single(descriptor(HEADER_CLASS, "/Header-2")))
    );
    assert_eq!(
        f.get_value(&root, 0x0001),
        Some(PropertyValue::Single(descriptor([1; 16], "/MetaDictionary-1")))
    );
}

#[test]
fn header_optional_properties() {
    let mut h = sample_file().header().unwrap();
    assert_eq!(h.object_model_version(), Ok(Some(0x12345678)));
    assert_eq!(
        h.operational_pattern(),
        Ok(
            Some(
                Auid {
                    bytes: [
                        0x03, 0x02, 0x01, 0x00, 0x05, 0x04, 0x07, 0x06, 0x08, 0x09, 0x0a, 0x0b,
                        0x0c, 0x0d, 0x0e, 0x0f,
                    ],
                },
            ),
        )
    );
    assert_eq!(h.generation(), Ok(None));
    assert_eq!(h.get_optional_data::<u64>(0x3b02), Ok(Some(0x003a1c0f090b07e5)));
    assert_eq!(h.get_optional_data::<u64>(0x3b01), Err(AafError::DecodeError));
    assert_eq!(h.get_required_data::<u16>(0x3b77), Err(AafError::PropertyNotFound));
    assert_eq!(h.get_required_data::<u16>(0x3b03), Err(AafError::PropertyNotFound));
    assert_eq!(
        h.get_property_value(0x3b05),
        Some(PropertyValue::Data(Box::new(vec![1, 1])))
    );
}

#[test]
fn inline_data_is_returned_verbatim() {
    let mut f = sample_file();
    let header = descriptor(HEADER_CLASS, "/Header-2");
    assert_eq!(
        f.resolve(&header, 0x3b02),
        Ok(PropertyValue::Data(Box::new(vec![0xe5, 0x07, 11, 9, 15, 28, 58, 0])))
    );
}

#[test]
fn data_stream_is_located_and_not_read() {
    let mut f = sample_file();
    let header = descriptor(HEADER_CLASS, "/Header-2");
    assert_eq!(
        f.resolve(&header, 0x3b20),
        Ok(PropertyValue::Stream(String::from("/Header-2/Essence-3b20")))
    );
}

#[test]
fn strong_vector_follows_the_order_of_its_index() {
    let mut f = sample_file();
    let header = descriptor(HEADER_CLASS, "/Header-2");
    assert_eq!(
        f.resolve(&header, 0x3b06),
        Ok(
            PropertyValue::Vector(
                vec![
                    descriptor([5; 16], "/Header-2/IdentificationList-3b061"),
                    descriptor([4; 16], "/Header-2/IdentificationList-3b060"),
                ],
            ),
        )
    );
}

#[test]
fn strong_set_follows_the_order_of_its_index() {
    let mut f = sample_file();
    let dictionary = descriptor([1; 16], "/MetaDictionary-1");
    assert_eq!(
        f.resolve(&dictionary, 0x0003),
        Ok(
            PropertyValue::ObjectSet(
                vec![
                    descriptor([2; 16], "/MetaDictionary-1/ClassDefinitions-30"),
                    descriptor([2; 16], "/MetaDictionary-1/ClassDefinitions-31"),
                    descriptor([2; 16], "/MetaDictionary-1/ClassDefinitions-3a"),
                ],
            ),
        )
    );
    assert_eq!(f.resolve(&dictionary, 0x0004), Ok(PropertyValue::ObjectSet(vec![])));
}

#[test]
fn weak_reference_finds_the_member_with_its_identification() {
    let mut f = sample_file();
    let component = descriptor([2; 16], "/MetaDictionary-1/ClassDefinitions-31");
    assert_eq!(
        f.resolve(&component, 0x0008),
        Ok(
            PropertyValue::Reference(
                descriptor([2; 16], "/MetaDictionary-1/ClassDefinitions-30"),
            ),
        )
    );
    let direct = WeakObjectReference {
        tag: 0,
        key_pid: 0x0005,
        key_size: 16,
        identification: ID_C.to_vec(),
    };
    assert_eq!(
        f.resolve_weak_reference(direct),
        Ok(
            PropertyValue::Reference(
                descriptor([2; 16], "/MetaDictionary-1/ClassDefinitions-3a"),
            ),
        )
    );
}

#[test]
fn weak_collections_resolve_each_reference_in_order() {
    let mut f = sample_file();
    let header = descriptor(HEADER_CLASS, "/Header-2");
    assert_eq!(
        f.resolve(&header, 0x3b0a),
        Ok(
            PropertyValue::ReferenceVector(
                vec![
                    descriptor([2; 16], "/MetaDictionary-1/ClassDefinitions-3a"),
                    descriptor([2; 16], "/MetaDictionary-1/ClassDefinitions-30"),
                ],
            ),
        )
    );
    assert_eq!(
        f.resolve(&header, 0x3b0b),
        Ok(
            PropertyValue::ReferenceSet(
                vec![descriptor([2; 16], "/MetaDictionary-1/ClassDefinitions-31")],
            ),
        )
    );
}

#[test]
fn dangling_weak_reference_is_an_error() {
    let mut f = sample_file();
    let segment = descriptor([2; 16], "/MetaDictionary-1/ClassDefinitions-3a");
    assert_eq!(f.resolve(&segment, 0x0008), Err(AafError::ReferenceResolutionError));
    assert_eq!(f.get_value(&segment, 0x0008), None);
}

#[test]
fn weak_reference_with_unknown_tag_is_an_error() {
    let mut f = sample_file();
    let unknown = WeakObjectReference {
        tag: 3,
        key_pid: 0x0005,
        key_size: 16,
        identification: ID_A.to_vec(),
    };
    assert_eq!(f.resolve_weak_reference(unknown), Err(AafError::ReferenceResolutionError));
    let far = WeakObjectReference {
        tag: 0xffff,
        key_pid: 0x0005,
        key_size: 16,
        identification: ID_A.to_vec(),
    };
    assert_eq!(f.resolve_weak_reference(far), Err(AafError::ReferenceResolutionError));
}

#[test]
fn weak_reference_with_a_broken_path_is_an_error() {
    let mut f = sample_file();
    // The path of tag 1 goes through the content storage, which has no
    // property 0x1901.
    let broken = WeakObjectReference {
        tag: 1,
        key_pid: 0x0005,
        key_size: 16,
        identification: ID_A.to_vec(),
    };
    assert_eq!(f.resolve_weak_reference(broken), Err(AafError::ReferenceResolutionError));
    // The path of tag 2 ends in a set without members.
    let empty = WeakObjectReference {
        tag: 2,
        key_pid: 0x0005,
        key_size: 16,
        identification: ID_A.to_vec(),
    };
    assert_eq!(f.resolve_weak_reference(empty), Err(AafError::ReferenceResolutionError));
}

#[test]
fn absent_property_is_not_found() {
    let mut f = sample_file();
    let root = f.root_object().unwrap();
    assert_eq!(f.resolve(&root, 0x0003), Err(AafError::PropertyNotFound));
    assert_eq!(f.get_value(&root, 0x0003), None);
    assert_eq!(f.raw_property_by_pid(&root, 0x0003), Ok(None));
    let content = descriptor([3; 16], "/Header-2/Content-3b03");
    assert_eq!(f.all_property_ids(&content), Ok(vec![]));
    assert_eq!(f.resolve(&content, 0x0001), Err(AafError::PropertyNotFound));
}

#[test]
fn missing_storage_is_a_storage_error_with_its_path() {
    let mut f = sample_file();
    assert_eq!(f.object("/Nothing"), Err(AafError::StorageError(String::from("/Nothing"))));
    let ghost = descriptor([0; 16], "/Nothing");
    assert_eq!(
        f.resolve(&ghost, 0x0001),
        Err(AafError::StorageError(String::from("/Nothing/properties")))
    );
    assert_eq!(
        f.stream("/Header-2/Essence-3b20"),
        Err(AafError::StorageError(String::from("/Header-2/Essence-3b20")))
    );
}

#[test]
fn resolving_twice_gives_the_same_value() {
    let mut f = sample_file();
    let header = descriptor(HEADER_CLASS, "/Header-2");
    for pid in [0x3b01u16, 0x3b03, 0x3b06, 0x3b0a, 0x3b0b, 0x3b20, 0x3b99] {
        let first = f.resolve(&header, pid);
        let second = f.resolve(&header, pid);
        assert_eq!(first, second);
    }
}

#[test]
fn resolve_property_value_goes_by_the_record() {
    let mut f = sample_file();
    let header = descriptor(HEADER_CLASS, "/Header-2");
    let record = RawProperty {
        pid: 0x7777,
        stored_form: SF_STRONG_OBJECT_REF,
        raw_value: Box::new(stored_name("Content-3b03")),
    };
    assert_eq!(
        f.resolve_property_value(&header, &record),
        Ok(PropertyValue::Single(descriptor([3; 16], "/Header-2/Content-3b03")))
    );
    let unknown = RawProperty { pid: 0x7777, stored_form: 0x0086, raw_value: Box::new(vec![1]) };
    assert_eq!(f.resolve_property_value(&header, &unknown), Err(AafError::FormatError));
    let unnamed = RawProperty {
        pid: 0x7777,
        stored_form: SF_DATA_STREAM,
        raw_value: Box::new(vec![0x00, 0xd8, 0, 0]),
    };
    assert_eq!(f.resolve_property_value(&header, &unnamed), Err(AafError::FormatError));
    let short = RawProperty { pid: 0x7777, stored_form: SF_DATA_STREAM, raw_value: Box::new(vec![0]) };
    assert_eq!(f.resolve_property_value(&header, &short), Err(AafError::FormatError));
}

#[test]
fn vector_with_a_missing_member_is_a_storage_error() {
    let mut comp = cfb::CompoundFile::create(Cursor::new(Vec::new())).unwrap();
    put_stream(
        &mut comp,
        "/properties",
        &property_table(&[(0x0010, SF_STRONG_OBJECT_REF_VECTOR, stored_name("Items-10"))]),
    );
    put_stream(&mut comp, "/referenced properties", &path_table(&[]));
    put_stream(&mut comp, "/Items-10 index", &vector_index(&[0, 7]));
    put_storage(&mut comp, "/Items-100", [9; 16]);
    comp.flush().unwrap();
    let mut f = AAFFile::open(comp.into_inner().into_inner()).unwrap();
    let root = f.root_object().unwrap();
    assert_eq!(
        f.resolve(&root, 0x0010),
        Err(AafError::StorageError(String::from("/Items-107")))
    );
}

#[test]
fn container_without_path_table_cannot_be_opened() {
    let mut comp = cfb::CompoundFile::create(Cursor::new(Vec::new())).unwrap();
    put_stream(&mut comp, "/properties", &property_table(&[]));
    comp.flush().unwrap();
    let image = comp.into_inner().into_inner();
    assert!(
        matches!(
            AAFFile::open(image),
            Err(AafError::StorageError(path)) if path == "/referenced properties"
        )
    );
    assert!(matches!(AAFFile::open(vec![1, 2, 3]), Err(AafError::FormatError)));
}

#[test]
fn container_with_wrong_byte_order_mark_in_path_table_is_malformed() {
    let mut comp = cfb::CompoundFile::create(Cursor::new(Vec::new())).unwrap();
    let mut table = path_table(&[vec![1, 3]]);
    table[0] = 0x42;
    put_stream(&mut comp, "/referenced properties", &table);
    comp.flush().unwrap();
    assert!(matches!(AAFFile::open(comp.into_inner().into_inner()), Err(AafError::FormatError)));
}

#[test]
fn nested_weak_references_resolve_and_cycles_end() {
    // Tag 0 leads through property 0x20 of the root, which is itself a weak
    // reference with tag 1; tag 1 leads straight to the set 0x30 of the root.
    // Tag 2 leads through property 0x21, a weak reference with tag 2 again.
    let mut comp = cfb::CompoundFile::create(Cursor::new(Vec::new())).unwrap();
    put_stream(
        &mut comp,
        "/properties",
        &property_table(
            &[
                (0x0020, SF_WEAK_OBJECT_REF, weak_reference(1, 0x0005, &[0xb0])),
                (0x0021, SF_WEAK_OBJECT_REF, weak_reference(2, 0x0005, &[0xb0])),
                (0x0030, SF_STRONG_OBJECT_REF_SET, stored_name("Things-30")),
                (0x0040, SF_WEAK_OBJECT_REF, weak_reference(0, 0x0005, &[0xc0])),
                (0x0041, SF_WEAK_OBJECT_REF, weak_reference(2, 0x0005, &[0xc0])),
            ],
        ),
    );
    put_stream(
        &mut comp,
        "/referenced properties",
        &path_table(&[vec![0x0020, 0x0031], vec![0x0030], vec![0x0021, 0x0031]]),
    );
    put_stream(
        &mut comp,
        "/Things-30 index",
        &set_index(0x0005, 1, &[(0, 1, vec![0xa0]), (1, 1, vec![0xb0])]),
    );
    put_storage(&mut comp, "/Things-300", [6; 16]);
    put_stream(
        &mut comp,
        "/Things-300/properties",
        &property_table(&[(0x0005, SF_DATA, vec![0xa0])]),
    );
    put_storage(&mut comp, "/Things-301", [7; 16]);
    put_stream(
        &mut comp,
        "/Things-301/properties",
        &property_table(
            &[
                (0x0005, SF_DATA, vec![0xb0]),
                (0x0031, SF_STRONG_OBJECT_REF_SET, stored_name("Parts-31")),
            ],
        ),
    );
    put_stream(
        &mut comp,
        "/Things-301/Parts-31 index",
        &set_index(0x0005, 1, &[(5, 1, vec![0xc0])]),
    );
    put_storage(&mut comp, "/Things-301/Parts-315", [8; 16]);
    put_stream(
        &mut comp,
        "/Things-301/Parts-315/properties",
        &property_table(&[(0x0005, SF_DATA, vec![0xc0])]),
    );
    comp.flush().unwrap();
    let mut f = AAFFile::open(comp.into_inner().into_inner()).unwrap();
    let root = f.root_object().unwrap();
    assert_eq!(
        f.resolve(&root, 0x0020),
        Ok(PropertyValue::Reference(descriptor([7; 16], "/Things-301")))
    );
    assert_eq!(
        f.resolve(&root, 0x0040),
        Ok(PropertyValue::Reference(descriptor([8; 16], "/Things-301/Parts-315")))
    );
    assert_eq!(f.resolve(&root, 0x0041), Err(AafError::ReferenceResolutionError));
    assert_eq!(f.resolve(&root, 0x0021), Err(AafError::ReferenceResolutionError));
    assert_eq!(f.nesting_limit(), 3);
    assert_eq!(f.path_length(0), Some(2));
    assert_eq!(f.path_length(3), None);
    assert_eq!(f.path_step(2, 1), 0x0031);
}

#[test]
fn first_candidate_in_index_order_wins_a_tie() {
    let mut comp = cfb::CompoundFile::create(Cursor::new(Vec::new())).unwrap();
    put_stream(
        &mut comp,
        "/properties",
        &property_table(&[(0x0030, SF_STRONG_OBJECT_REF_SET, stored_name("Things-30"))]),
    );
    put_stream(&mut comp, "/referenced properties", &path_table(&[vec![0x0030]]));
    put_stream(
        &mut comp,
        "/Things-30 index",
        &set_index(0x0005, 1, &[(2, 1, vec![0xa0]), (1, 1, vec![0xa0]), (0, 1, vec![0xa0])]),
    );
    for (key, class, records) in [
        ("/Things-300", [10u8; 16], vec![(0x0005u16, SF_DATA, vec![0xa0u8])]),
        ("/Things-301", [11u8; 16], vec![(0x0005u16, SF_DATA, vec![0xa0u8])]),
        ("/Things-302", [12u8; 16], vec![(0x0006u16, SF_DATA, vec![0xa0u8])]),
    ] {
        put_storage(&mut comp, key, class);
        put_stream(&mut comp, &format!("{}/properties", key), &property_table(&records));
    }
    comp.flush().unwrap();
    let mut f = AAFFile::open(comp.into_inner().into_inner()).unwrap();
    let reference = WeakObjectReference {
        tag: 0,
        key_pid: 0x0005,
        key_size: 1,
        identification: vec![0xa0],
    };
    // The member with key 2 comes first in the index but has no key
    // property; of the two that answer, the one with key 1 comes first.
    assert_eq!(
        f.resolve_weak_reference(reference),
        Ok(PropertyValue::Reference(descriptor([11; 16], "/Things-301")))
    );
    let candidates = vec![descriptor([10; 16], "/Things-300"), descriptor([0; 16], "/Gone")];
    assert_eq!(f.target_among(&candidates, 0x0005, &[0xa0]), Ok(candidates[0].clone()));
    assert_eq!(
        f.target_among(&candidates, 0x0005, &[0xa1]),
        Err(AafError::StorageError(String::from("/Gone/properties")))
    );
}

#[test]
fn walk_reports_properties_depth_first() {
    let mut f = sample_file();
    let mut walk = f.walk_properties().unwrap();
    let mut seen: Vec<(String, u16, usize, bool)> = Vec::new();
    while let Some(entry) = walk.next(&mut f) {
        seen.push(
            (
                entry.parent().path.clone(),
                entry.property_id(),
                entry.depth(),
                entry.value().is_some(),
            ),
        );
    }
    let expected: Vec<(&str, u16, usize, bool)> = vec![
        ("/", 0x0002, 1, true),
        ("/Header-2", 0x3b20, 2, true),
        ("/Header-2", 0x3b0b, 2, true),
        ("/Header-2", 0x3b0a, 2, true),
        ("/Header-2", 0x3b09, 2, true),
        ("/Header-2", 0x3b07, 2, true),
        ("/Header-2", 0x3b06, 2, true),
        ("/Header-2/IdentificationList-3b061", 0x3c01, 3, true),
        ("/Header-2/IdentificationList-3b060", 0x3c01, 3, true),
        ("/Header-2", 0x3b05, 2, true),
        ("/Header-2", 0x3b03, 2, true),
        ("/Header-2", 0x3b02, 2, true),
        ("/Header-2", 0x3b01, 2, true),
        ("/", 0x0001, 1, true),
        ("/MetaDictionary-1", 0x0004, 2, true),
        ("/MetaDictionary-1", 0x0003, 2, true),
        ("/MetaDictionary-1/ClassDefinitions-30", 0x0006, 3, true),
        ("/MetaDictionary-1/ClassDefinitions-30", 0x0005, 3, true),
        ("/MetaDictionary-1/ClassDefinitions-31", 0x0008, 3, true),
        ("/MetaDictionary-1/ClassDefinitions-31", 0x0006, 3, true),
        ("/MetaDictionary-1/ClassDefinitions-31", 0x0005, 3, true),
        ("/MetaDictionary-1/ClassDefinitions-3a", 0x0008, 3, false),
        ("/MetaDictionary-1/ClassDefinitions-3a", 0x0006, 3, true),
        ("/MetaDictionary-1/ClassDefinitions-3a", 0x0005, 3, true),
    ];
    let seen_plain: Vec<(&str, u16, usize, bool)> =
        seen.iter().map(|(path, pid, depth, found)| (path.as_str(), *pid, *depth, *found)).collect();
    assert_eq!(seen_plain, expected);
    assert!(walk.next(&mut f).is_none());
}

#[test]
fn walk_from_an_object_starts_with_its_properties() {
    let mut f = sample_file();
    let content = descriptor([3; 16], "/Header-2/Content-3b03");
    let mut walk = AAFPropertyIterator::new(&mut f, content);
    assert!(walk.next(&mut f).is_none());
    let first = descriptor([4; 16], "/Header-2/IdentificationList-3b060");
    let mut walk = AAFPropertyIterator::new(&mut f, first.clone());
    let entry = walk.next(&mut f).unwrap();
    assert_eq!(entry.parent(), &first);
    assert_eq!(entry.property_id(), 0x3c01);
    assert_eq!(entry.depth(), 1);
    assert_eq!(entry.value(), &Some(PropertyValue::Data(Box::new(stored_name("first")))));
    assert!(walk.next(&mut f).is_none());
}
