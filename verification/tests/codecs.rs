use aaf::error::AafError;
use aaf::file::take_first_with_pid;
use aaf::properties::{PropertyValue, RawProperty, SF_DATA, SF_STRONG_OBJECT_REF};
use aaf::references::{
    paths_of_keys, ReferencedPropertiesTable, StrongSetReferenceIndex,
    StrongSetReferenceIndexEntry, StrongVectorReferenceIndex, WeakCollectionReference,
    WeakObjectReference,
};
use aaf::resolve::{candidate_list, hop_object};
use aaf::interchange_object::InterchangeObjectDescriptor;
use aaf::types::Auid;

fn raw(pid: u16, stored_form: u16, payload: &[u8]) -> RawProperty {
    RawProperty { pid, stored_form, raw_value: Box::new(payload.to_vec()) }
}

#[test]
fn property_table_decodes_headers_then_payloads() {
    let data = [
        0x4c, 0x20, 0x03, 0x00, // mark, version, count
        0x01, 0x3b, 0x82, 0x00, 0x02, 0x00, // 0x3b01, inline, 2 bytes
        0x02, 0x00, 0x22, 0x00, 0x00, 0x00, // 0x0002, strong reference, 0 bytes
        0x05, 0x3b, 0x82, 0x00, 0x03, 0x00, // 0x3b05, inline, 3 bytes
        0x49, 0x49, 0x01, 0x02, 0x03, // payloads
        0xee, 0xee, // ignored
    ];
    assert_eq!(
        RawProperty::from_properties_istream(&data),
        Ok(
            vec![
                raw(0x3b01, SF_DATA, &[0x49, 0x49]),
                raw(0x0002, SF_STRONG_OBJECT_REF, &[]),
                raw(0x3b05, SF_DATA, &[1, 2, 3]),
            ],
        )
    );
}

#[test]
fn property_table_payloads_tile_the_stream() {
    let data = [
        0x4c, 0x01, 0x02, 0x00, 0x10, 0x00, 0x82, 0x00, 0x01, 0x00, 0x11, 0x00, 0x82, 0x00, 0x04,
        0x00, 0xaa, 0xb1, 0xb2, 0xb3, 0xb4,
    ];
    let records = RawProperty::from_properties_istream(&data).unwrap();
    assert_eq!(records.len(), 2);
    let mut joined: Vec<u8> = Vec::new();
    for record in &records {
        joined.extend_from_slice(&record.raw_value);
    }
    assert_eq!(joined, data[16..].to_vec());
    assert_eq!(records[0].raw_value.len(), 1);
    assert_eq!(records[1].raw_value.len(), 4);
}

#[test]
fn empty_property_table_has_no_records() {
    assert_eq!(RawProperty::from_properties_istream(&[0x4c, 0x20, 0, 0]), Ok(vec![]));
}

#[test]
fn property_table_with_wrong_byte_order_mark_is_malformed() {
    for mark in [0x00u8, 0x42, 0x4b, 0x4d, 0xff] {
        assert_eq!(
            RawProperty::from_properties_istream(&[mark, 0x20, 0, 0]),
            Err(AafError::FormatError)
        );
    }
}

#[test]
fn truncated_property_table_is_malformed() {
    assert_eq!(RawProperty::from_properties_istream(&[]), Err(AafError::FormatError));
    assert_eq!(RawProperty::from_properties_istream(&[0x4c, 0x20, 0]), Err(AafError::FormatError));
    // One header declared, none there.
    assert_eq!(
        RawProperty::from_properties_istream(&[0x4c, 0x20, 1, 0]),
        Err(AafError::FormatError)
    );
    // The header is cut short.
    assert_eq!(
        RawProperty::from_properties_istream(&[0x4c, 0x20, 1, 0, 1, 0, 0x82, 0, 2]),
        Err(AafError::FormatError)
    );
    // The payload is cut short.
    assert_eq!(
        RawProperty::from_properties_istream(&[0x4c, 0x20, 1, 0, 1, 0, 0x82, 0, 2, 0, 0x49]),
        Err(AafError::FormatError)
    );
}

#[test]
fn first_record_with_the_identifier_is_taken() {
    let list = vec![raw(1, SF_DATA, &[1]), raw(2, SF_DATA, &[2]), raw(1, SF_DATA, &[3])];
    assert_eq!(take_first_with_pid(list.clone(), 1), Some(raw(1, SF_DATA, &[1])));
    assert_eq!(take_first_with_pid(list.clone(), 2), Some(raw(2, SF_DATA, &[2])));
    assert_eq!(take_first_with_pid(list, 3), None);
    assert_eq!(take_first_with_pid(Vec::new(), 3), None);
}

#[test]
fn record_that_holds_a_name_gives_it() {
    let record = raw(2, SF_STRONG_OBJECT_REF, &[b'H', 0, b'-', 0, b'2', 0, 0, 0]);
    assert_eq!(record.raw_string_value(), Ok(String::from("H-2")));
    assert_eq!(raw(2, SF_STRONG_OBJECT_REF, &[0]).raw_string_value(), Err(AafError::FormatError));
}

#[test]
fn vector_index_keeps_the_order_of_its_keys() {
    let data = [
        3, 0, 0, 0, 7, 0, 0, 0, 0xff, 0xff, 0xff, 0xff, // count, first free, last free
        2, 0, 0, 0, 0, 0, 0, 0, 0x0a, 0x01, 0, 0, // keys
        9, 9, // ignored
    ];
    let index = StrongVectorReferenceIndex::from_istream(&data).unwrap();
    assert_eq!(
        index,
        StrongVectorReferenceIndex {
            entry_count: 3,
            first_free_key: 7,
            last_free_key: 0xffff_ffff,
            local_keys: vec![2, 0, 0x10a],
        }
    );
    let paths = index.member_paths("Slots-4403", "/Header-2/Mob1");
    assert_eq!(paths.len(), index.entry_count as usize);
    assert_eq!(
        paths,
        vec![
            "/Header-2/Mob1/Slots-44032",
            "/Header-2/Mob1/Slots-44030",
            "/Header-2/Mob1/Slots-440310a",
        ]
    );
}

#[test]
fn truncated_vector_index_is_malformed() {
    assert_eq!(StrongVectorReferenceIndex::from_istream(&[]), Err(AafError::FormatError));
    assert_eq!(StrongVectorReferenceIndex::from_istream(&[0; 11]), Err(AafError::FormatError));
    let mut data = vec![2, 0, 0, 0, 0, 0, 0, 0, 0, 0, 0, 0, 1, 0, 0, 0, 2, 0, 0];
    assert_eq!(StrongVectorReferenceIndex::from_istream(&data), Err(AafError::FormatError));
    data.push(0);
    assert_eq!(StrongVectorReferenceIndex::from_istream(&data).unwrap().local_keys, vec![1, 2]);
    let huge = [0xff, 0xff, 0xff, 0xff, 0, 0, 0, 0, 0, 0, 0, 0];
    assert_eq!(StrongVectorReferenceIndex::from_istream(&huge), Err(AafError::FormatError));
    assert_eq!(
        StrongVectorReferenceIndex::from_istream(&[0; 12]).unwrap().member_paths("a", "/"),
        Vec::<String>::new()
    );
}

#[test]
fn member_paths_put_the_key_right_behind_the_name() {
    let vector = StrongVectorReferenceIndex {
        entry_count: 3,
        first_free_key: 0,
        last_free_key: 0,
        local_keys: vec![2, 0, 26],
    };
    assert_eq!(
        vector.member_paths("Components", "/Header-2"),
        vec!["/Header-2/Components2", "/Header-2/Components0", "/Header-2/Components1a"]
    );
    let entry = |local_key: u32| StrongSetReferenceIndexEntry {
        local_key,
        reference_count: 1,
        identification: vec![7],
    };
    let set = StrongSetReferenceIndex {
        entry_count: 2,
        first_free_key: 0,
        last_free_key: 0,
        key_pid: 5,
        key_size: 1,
        local_keys: vec![entry(16), entry(1)],
    };
    assert_eq!(
        set.member_paths("ClassDefinitions", "/MetaDictionary-1"),
        vec!["/MetaDictionary-1/ClassDefinitions10", "/MetaDictionary-1/ClassDefinitions1"]
    );
}

#[test]
fn paths_follow_keys() {
    assert_eq!(paths_of_keys(&vec![255, 1], "P", "/"), vec!["/Pff", "/P1"]);
}

#[test]
fn set_index_entries_have_keys_of_the_declared_width() {
    let data = [
        2, 0, 0, 0, 5, 0, 0, 0, 6, 0, 0, 0, // count, first free, last free
        0x05, 0x00, 3, // key property, key width
        1, 0, 0, 0, 2, 0, 0, 0, 0xa1, 0xa2, 0xa3, // entry
        0, 0, 0, 0, 1, 0, 0, 0, 0xb1, 0xb2, 0xb3, // entry
    ];
    let index = StrongSetReferenceIndex::from_istream(&data).unwrap();
    assert_eq!(
        index,
        StrongSetReferenceIndex {
            entry_count: 2,
            first_free_key: 5,
            last_free_key: 6,
            key_pid: 5,
            key_size: 3,
            local_keys: vec![
                StrongSetReferenceIndexEntry {
                    local_key: 1,
                    reference_count: 2,
                    identification: vec![0xa1, 0xa2, 0xa3],
                },
                StrongSetReferenceIndexEntry {
                    local_key: 0,
                    reference_count: 1,
                    identification: vec![0xb1, 0xb2, 0xb3],
                },
            ],
        }
    );
    for entry in &index.local_keys {
        assert_eq!(entry.identification.len(), index.key_size as usize);
    }
    assert_eq!(index.keys(), vec![1, 0]);
    assert_eq!(index.member_paths("Defs-3", "/Meta"), vec!["/Meta/Defs-31", "/Meta/Defs-30"]);
}

#[test]
fn set_index_may_have_keys_of_no_width() {
    let data = [2, 0, 0, 0, 0, 0, 0, 0, 0, 0, 0, 0, 9, 0, 0, 4, 0, 0, 0, 1, 0, 0, 0, 5, 0, 0, 0, 1, 0, 0, 0];
    let index = StrongSetReferenceIndex::from_istream(&data).unwrap();
    assert_eq!(index.keys(), vec![4, 5]);
    assert_eq!(index.local_keys[0].identification, Vec::<u8>::new());
}

#[test]
fn truncated_set_index_is_malformed() {
    assert_eq!(StrongSetReferenceIndex::from_istream(&[0; 14]), Err(AafError::FormatError));
    let data = [1, 0, 0, 0, 0, 0, 0, 0, 0, 0, 0, 0, 5, 0, 2, 1, 0, 0, 0, 1, 0, 0, 0, 0xa1];
    assert_eq!(StrongSetReferenceIndex::from_istream(&data), Err(AafError::FormatError));
    let huge = [0xff, 0xff, 0xff, 0xff, 0, 0, 0, 0, 0, 0, 0, 0, 5, 0, 0xff];
    assert_eq!(StrongSetReferenceIndex::from_istream(&huge), Err(AafError::FormatError));
    assert_eq!(StrongSetReferenceIndex::from_istream(&[0; 15]).unwrap().local_keys, vec![]);
}

#[test]
fn weak_reference_payload_decodes() {
    let data = [0x02, 0x00, 0x05, 0x00, 3, 0xa1, 0xa2, 0xa3, 0xee];
    let expected = WeakObjectReference {
        tag: 2,
        key_pid: 5,
        key_size: 3,
        identification: vec![0xa1, 0xa2, 0xa3],
    };
    assert_eq!(WeakObjectReference::from_data(&data), Ok(expected.clone()));
    assert_eq!(WeakObjectReference::from_istream(&data), Ok(expected));
    assert_eq!(WeakObjectReference::from_data(&data[..7]), Err(AafError::FormatError));
    assert_eq!(WeakObjectReference::from_data(&data[..4]), Err(AafError::FormatError));
    assert_eq!(
        WeakObjectReference::from_data(&[1, 0, 2, 0, 0]),
        Ok(WeakObjectReference { tag: 1, key_pid: 2, key_size: 0, identification: vec![] })
    );
}

#[test]
fn weak_collection_shares_tag_and_key_property() {
    let data = [
        2, 0, 0, 0, 0x01, 0x00, 0x05, 0x00, 2, // count, tag, key property, key width
        0xa1, 0xa2, 0xb1, 0xb2, 0xee,
    ];
    let collection = WeakCollectionReference::from_istream(&data).unwrap();
    assert_eq!(
        collection,
        WeakCollectionReference {
            entry_count: 2,
            tag: 1,
            key_pid: 5,
            key_size: 2,
            identification_list: vec![vec![0xa1, 0xa2], vec![0xb1, 0xb2]],
        }
    );
    assert_eq!(
        collection.into_weak_references(),
        vec![
            WeakObjectReference { tag: 1, key_pid: 5, key_size: 2, identification: vec![0xa1, 0xa2] },
            WeakObjectReference { tag: 1, key_pid: 5, key_size: 2, identification: vec![0xb1, 0xb2] },
        ]
    );
}

#[test]
fn truncated_weak_collection_is_malformed() {
    assert_eq!(WeakCollectionReference::from_istream(&[0; 8]), Err(AafError::FormatError));
    let data = [2, 0, 0, 0, 1, 0, 5, 0, 2, 0xa1, 0xa2, 0xb1];
    assert_eq!(WeakCollectionReference::from_istream(&data), Err(AafError::FormatError));
    let empty = WeakCollectionReference::from_istream(&[0, 0, 0, 0, 1, 0, 5, 0, 2]).unwrap();
    assert_eq!(empty.into_weak_references(), vec![]);
}

#[test]
fn path_table_splits_at_terminators() {
    let data = [
        0x4c, 3, 0, 6, 0, 0, 0, // mark, 3 paths, 6 identifiers
        1, 0, 3, 0, 0, 0, // path 1, 3
        0, 0, // empty path
        2, 0x3b, 0, 0, // path 0x3b02
    ];
    assert_eq!(
        ReferencedPropertiesTable::from_stream(&data),
        Ok(
            ReferencedPropertiesTable {
                byte_order: 0x4c,
                path_count: 3,
                pid_count: 6,
                pid_paths: vec![vec![1, 3], vec![], vec![0x3b02]],
            },
        )
    );
}

#[test]
fn path_table_drops_identifiers_behind_the_last_terminator() {
    let data = [0x4c, 1, 0, 3, 0, 0, 0, 1, 0, 0, 0, 7, 0];
    assert_eq!(ReferencedPropertiesTable::from_stream(&data).unwrap().pid_paths, vec![vec![1]]);
}

#[test]
fn path_table_with_wrong_count_is_malformed() {
    let two_declared = [0x4c, 2, 0, 2, 0, 0, 0, 1, 0, 0, 0];
    assert_eq!(ReferencedPropertiesTable::from_stream(&two_declared), Err(AafError::FormatError));
    let none_declared = [0x4c, 0, 0, 2, 0, 0, 0, 1, 0, 0, 0];
    assert_eq!(ReferencedPropertiesTable::from_stream(&none_declared), Err(AafError::FormatError));
    let empty = [0x4c, 0, 0, 0, 0, 0, 0];
    assert_eq!(ReferencedPropertiesTable::from_stream(&empty).unwrap().pid_paths, Vec::<Vec<u16>>::new());
}

#[test]
fn path_table_with_wrong_byte_order_mark_is_malformed() {
    for mark in [0x00u8, 0x4d, 0x49, 0xff] {
        assert_eq!(
            ReferencedPropertiesTable::from_stream(&[mark, 0, 0, 0, 0, 0, 0]),
            Err(AafError::FormatError)
        );
    }
    assert_eq!(ReferencedPropertiesTable::from_stream(&[0x4c, 0, 0]), Err(AafError::FormatError));
    assert_eq!(
        ReferencedPropertiesTable::from_stream(&[0x4c, 1, 0, 2, 0, 0, 0, 1, 0, 0]),
        Err(AafError::FormatError)
    );
}

fn object(path: &str) -> InterchangeObjectDescriptor {
    InterchangeObjectDescriptor { auid: Auid { bytes: [1; 16] }, path: String::from(path) }
}

#[test]
fn a_path_steps_through_single_references_only() {
    assert_eq!(hop_object(Ok(PropertyValue::Single(object("/a")))), Ok(object("/a")));
    assert_eq!(hop_object(Ok(PropertyValue::Reference(object("/b")))), Ok(object("/b")));
    assert_eq!(
        hop_object(Ok(PropertyValue::Vector(vec![object("/a")]))),
        Err(AafError::ReferenceResolutionError)
    );
    assert_eq!(
        hop_object(Ok(PropertyValue::Data(Box::new(vec![1])))),
        Err(AafError::ReferenceResolutionError)
    );
    assert_eq!(hop_object(Err(AafError::PropertyNotFound)), Err(AafError::ReferenceResolutionError));
    assert_eq!(hop_object(Err(AafError::FormatError)), Err(AafError::FormatError));
    assert_eq!(
        hop_object(Err(AafError::StorageError(String::from("/x")))),
        Err(AafError::StorageError(String::from("/x")))
    );
}

#[test]
fn a_path_ends_in_a_set() {
    assert_eq!(
        candidate_list(Ok(PropertyValue::ObjectSet(vec![object("/a"), object("/b")]))),
        Ok(vec![object("/a"), object("/b")])
    );
    assert_eq!(
        candidate_list(Ok(PropertyValue::Vector(vec![object("/a")]))),
        Err(AafError::ReferenceResolutionError)
    );
    assert_eq!(
        candidate_list(Ok(PropertyValue::Single(object("/a")))),
        Err(AafError::ReferenceResolutionError)
    );
    assert_eq!(
        candidate_list(Err(AafError::PropertyNotFound)),
        Err(AafError::ReferenceResolutionError)
    );
    assert_eq!(candidate_list(Err(AafError::FormatError)), Err(AafError::FormatError));
}
