use attestation_registry::digest::derive_identifier;
use attestation_registry::identity::Identity;
use attestation_registry::levy::Levy;
use attestation_registry::schema::{
    validate_content, RegistryError, SchemaData, SchemaRegistry, DEFAULT_SCHEMA_LIMIT,
};
use attestation_registry::signal::{Signal, SignalLog};

fn id(fill: u8) -> Identity {
    Identity::new([fill; 32])
}

fn text(unit: &str, times: usize) -> String {
    let mut out = String::new();
    for _ in 0..times {
        out.push_str(unit);
    }
    out
}

#[test]
fn identifier_is_sha256_of_deployer_then_content() {
    let uid = derive_identifier(&id(7), "schema-a");
    assert_eq!(
        uid.to_bytes(),
        [
            0x3c, 0xaa, 0xdc, 0xe6, 0x87, 0xb7, 0xb0, 0x94, 0x65, 0x91, 0x63, 0xc7, 0x3a, 0xe1,
            0xe9, 0x23, 0xc6, 0x85, 0x69, 0x96, 0xb6, 0x9d, 0xe4, 0xc3, 0xc7, 0x4c, 0x8c, 0x1a,
            0x92, 0x5d, 0x9f, 0x49,
        ]
    );
    let other = derive_identifier(&id(0), "a");
    assert_eq!(
        other.to_bytes(),
        [
            0x41, 0xa0, 0x37, 0x0c, 0x3d, 0x9f, 0x42, 0x77, 0x3a, 0x59, 0xe8, 0xe0, 0x16, 0x51,
            0x91, 0x1c, 0xf4, 0x3b, 0x1e, 0x3f, 0x66, 0x94, 0x4c, 0xbb, 0x69, 0x00, 0x29, 0xde,
            0xbc, 0x4e, 0xb6, 0x47,
        ]
    );
}

#[test]
fn identifier_is_deterministic() {
    let deployers = [id(0), id(1), id(255)];
    let contents = ["a", "name:string", "{\"age\":\"u8\"}", "héllo"];
    for deployer in deployers.iter() {
        for content in contents.iter() {
            let first = derive_identifier(deployer, content);
            let second = derive_identifier(deployer, content);
            assert_eq!(first, second);
            assert_ne!(first, *deployer);
        }
    }
}

#[test]
fn identifiers_in_a_corpus_are_pairwise_distinct() {
    let mut half = [3u8; 32];
    half[0] = 4;
    let deployers = [id(0), id(1), id(3), Identity::new(half), id(255)];
    let contents = ["a", "b", "ab", "ba", "a ", "name:string", "name:string,age:u8", "é"];
    let mut seen: Vec<Identity> = Vec::new();
    for deployer in deployers.iter() {
        for content in contents.iter() {
            let uid = derive_identifier(deployer, content);
            assert!(!seen.contains(&uid));
            seen.push(uid);
        }
    }
    assert_eq!(seen.len(), 40);
}

#[test]
fn first_registration_succeeds_and_second_is_a_duplicate() {
    let mut registry = SchemaRegistry::new();
    let mut sink = SignalLog::new();
    let expected_uid = derive_identifier(&id(7), "schema-a");
    let first =
        registry.register_schema(id(7), String::from("schema-a"), Some(id(8)), true, None, &mut sink);
    assert_eq!(
        first,
        Ok(SchemaData {
            uid: expected_uid,
            schema: String::from("schema-a"),
            resolver: Some(id(8)),
            revocable: true,
            deployer: id(7),
            levy: None,
        })
    );
    let second =
        registry.register_schema(id(7), String::from("schema-a"), None, false, None, &mut sink);
    assert_eq!(second, Err(RegistryError::AlreadyExists));
    assert_eq!(registry.len(), 1);
    assert!(registry.contains(&expected_uid));
    assert_eq!(registry.get(&expected_uid), first.ok());
    assert_eq!(
        sink.drain(),
        vec![Signal::SchemaRegistered { uid: expected_uid, deployer: id(7) }]
    );
}

#[test]
fn same_content_from_another_deployer_is_a_new_schema() {
    let mut registry = SchemaRegistry::new();
    let mut sink = SignalLog::new();
    let a = registry.register_schema(id(1), String::from("s"), None, false, None, &mut sink);
    let b = registry.register_schema(id(2), String::from("s"), None, false, None, &mut sink);
    let a = a.unwrap();
    let b = b.unwrap();
    assert_ne!(a.uid, b.uid);
    assert_eq!(a.deployer, id(1));
    assert_eq!(b.deployer, id(2));
    assert_eq!(registry.len(), 2);
    assert_eq!(sink.len(), 2);
    assert_eq!(sink.get(1), Some(Signal::SchemaRegistered { uid: b.uid, deployer: id(2) }));
}

#[test]
fn unknown_identifier_is_not_found() {
    let mut registry = SchemaRegistry::new();
    let mut sink = SignalLog::new();
    assert!(!registry.contains(&id(4)));
    assert_eq!(registry.get(&id(4)), None);
    registry
        .register_schema(id(1), String::from("s"), None, false, None, &mut sink)
        .unwrap();
    assert!(!registry.contains(&id(4)));
    assert_eq!(registry.get(&id(4)), None);
}

#[test]
fn empty_content_is_invalid() {
    let mut registry = SchemaRegistry::new();
    let mut sink = SignalLog::new();
    let outcome = registry.register_schema(id(1), String::new(), None, true, None, &mut sink);
    assert_eq!(outcome, Err(RegistryError::InvalidInput));
    assert_eq!(registry.len(), 0);
    assert_eq!(sink.len(), 0);
}

#[test]
fn content_at_the_bound_is_accepted_and_one_byte_over_is_not() {
    assert_eq!(DEFAULT_SCHEMA_LIMIT, 200);
    let mut registry = SchemaRegistry::new();
    assert_eq!(registry.max_schema_bytes(), 200);
    let mut sink = SignalLog::new();
    let at_bound = text("x", 200);
    let over = text("x", 201);
    let accepted = registry.register_schema(id(1), at_bound.clone(), None, true, None, &mut sink);
    assert_eq!(accepted.map(|record| record.schema), Ok(at_bound));
    let refused = registry.register_schema(id(1), over, None, true, None, &mut sink);
    assert_eq!(refused, Err(RegistryError::InvalidInput));
    assert_eq!(registry.len(), 1);
    assert_eq!(sink.len(), 1);
}

#[test]
fn the_bound_counts_bytes_not_characters() {
    let mut registry = SchemaRegistry::new();
    let mut sink = SignalLog::new();
    let fits = text("é", 100);
    let too_long = text("é", 100) + "x";
    assert_eq!(fits.len(), 200);
    assert!(registry.register_schema(id(1), fits, None, true, None, &mut sink).is_ok());
    assert_eq!(
        registry.register_schema(id(1), too_long, None, true, None, &mut sink),
        Err(RegistryError::InvalidInput)
    );
}

#[test]
fn the_bound_is_configurable() {
    let mut registry = SchemaRegistry::with_limit(3);
    let mut sink = SignalLog::new();
    assert_eq!(registry.max_schema_bytes(), 3);
    assert!(registry
        .register_schema(id(1), String::from("abc"), None, true, None, &mut sink)
        .is_ok());
    assert_eq!(
        registry.register_schema(id(1), String::from("abcd"), None, true, None, &mut sink),
        Err(RegistryError::InvalidInput)
    );
    let mut closed = SchemaRegistry::with_limit(0);
    assert_eq!(
        closed.register_schema(id(1), String::from("a"), None, true, None, &mut sink),
        Err(RegistryError::InvalidInput)
    );
}

#[test]
fn validate_content_checks_both_ends() {
    assert_eq!(validate_content("", 200), Err(RegistryError::InvalidInput));
    assert_eq!(validate_content("a", 200), Ok(()));
    assert_eq!(validate_content(&text("x", 200), 200), Ok(()));
    assert_eq!(validate_content(&text("x", 201), 200), Err(RegistryError::InvalidInput));
    assert_eq!(validate_content("a", 0), Err(RegistryError::InvalidInput));
}

#[test]
fn invalid_content_is_reported_before_a_duplicate() {
    let mut registry = SchemaRegistry::with_limit(4);
    let mut sink = SignalLog::new();
    let uid = derive_identifier(&id(1), "abcde");
    let outcome = registry.register_derived(
        uid,
        id(1),
        String::from("abcde"),
        None,
        true,
        None,
        &mut sink,
    );
    assert_eq!(outcome, Err(RegistryError::InvalidInput));
    assert_eq!(registry.len(), 0);
}

#[test]
fn register_derived_stores_the_record_under_the_given_identifier() {
    let mut registry = SchemaRegistry::new();
    let mut sink = SignalLog::new();
    let uid = derive_identifier(&id(1), "abc");
    let levy = Levy::new(5, Some(id(6)), id(7));
    let outcome = registry.register_derived(
        uid,
        id(1),
        String::from("abc"),
        None,
        false,
        Some(levy),
        &mut sink,
    );
    let expected = SchemaData {
        uid,
        schema: String::from("abc"),
        resolver: None,
        revocable: false,
        deployer: id(1),
        levy: Some(Levy { amount: 5, asset: Some(id(6)), recipient: id(7) }),
    };
    assert_eq!(outcome, Ok(expected.clone()));
    assert_eq!(registry.get(&uid), Some(expected.clone()));
    assert_eq!(expected.duplicate(), expected);
    let again = registry.register_derived(
        uid,
        id(1),
        String::from("abc"),
        None,
        false,
        None,
        &mut sink,
    );
    assert_eq!(again, Err(RegistryError::AlreadyExists));
    assert_eq!(registry.get(&uid), Some(expected));
    assert_eq!(sink.len(), 1);
}

#[test]
fn absent_levy_and_zero_levy_are_both_accepted() {
    let mut registry = SchemaRegistry::new();
    let mut sink = SignalLog::new();
    let zero = Levy { amount: 0, asset: None, recipient: id(5) };
    let bare = registry
        .register_schema(id(1), String::from("bare"), None, true, None, &mut sink)
        .unwrap();
    let with_zero = registry
        .register_schema(id(1), String::from("zero"), None, true, Some(zero), &mut sink)
        .unwrap();
    assert_eq!(bare.levy, None);
    assert_eq!(with_zero.levy, Some(zero));
    assert_eq!(bare.fee(), None);
    assert_eq!(with_zero.fee(), None);
    assert_eq!(registry.len(), 2);
}

#[test]
fn a_positive_levy_is_owed_as_it_stands() {
    let levy = Levy::new(1, None, id(5));
    assert_eq!(Levy::due(&Some(levy)), Some(levy));
    assert_eq!(Levy::due(&None), None);
    assert_eq!(Levy::due(&Some(Levy::new(0, Some(id(2)), id(5)))), None);
    let largest = Levy::new(u64::MAX, Some(id(2)), id(5));
    assert_eq!(Levy::due(&Some(largest)), Some(largest));
}

#[test]
fn earlier_records_survive_later_registrations() {
    let mut registry = SchemaRegistry::new();
    let mut sink = SignalLog::new();
    let first = registry
        .register_schema(id(1), String::from("one"), Some(id(3)), true, None, &mut sink)
        .unwrap();
    for content in ["two", "three", "four"] {
        registry
            .register_schema(id(1), String::from(content), None, false, None, &mut sink)
            .unwrap();
    }
    let _ = registry.register_schema(id(1), String::from("one"), None, false, None, &mut sink);
    let _ = registry.register_schema(id(1), String::new(), None, false, None, &mut sink);
    assert_eq!(registry.len(), 4);
    assert_eq!(registry.get(&first.uid), Some(first));
    assert_eq!(sink.len(), 4);
}

fn stored(deployer: Identity, content: &str) -> SchemaData {
    SchemaData {
        uid: derive_identifier(&deployer, content),
        schema: String::from(content),
        resolver: None,
        revocable: true,
        deployer,
        levy: None,
    }
}

#[test]
fn stored_records_load_in_order() {
    let records = vec![stored(id(1), "one"), stored(id(1), "two"), stored(id(2), "one")];
    let mut registry = SchemaRegistry::from_records(records.clone(), 200).unwrap();
    assert_eq!(registry.len(), 3);
    assert_eq!(registry.max_schema_bytes(), 200);
    assert_eq!(registry.record_at(0), Some(records[0].clone()));
    assert_eq!(registry.record_at(1), Some(records[1].clone()));
    assert_eq!(registry.record_at(2), Some(records[2].clone()));
    assert_eq!(registry.record_at(3), None);
    let mut sink = SignalLog::new();
    assert_eq!(
        registry.register_schema(id(1), String::from("two"), None, false, None, &mut sink),
        Err(RegistryError::AlreadyExists)
    );
    assert!(registry
        .register_schema(id(2), String::from("two"), None, false, None, &mut sink)
        .is_ok());
    assert_eq!(registry.len(), 4);
}

#[test]
fn nothing_stored_loads_as_an_empty_registry() {
    let registry = SchemaRegistry::from_records(Vec::new(), 10).unwrap();
    assert_eq!(registry.len(), 0);
    assert_eq!(registry.max_schema_bytes(), 10);
}

#[test]
fn a_record_under_a_foreign_identifier_does_not_load() {
    let mut forged = stored(id(1), "one");
    forged.uid = id(9);
    let loaded = SchemaRegistry::from_records(vec![stored(id(1), "two"), forged], 200);
    assert_eq!(loaded.err(), Some(RegistryError::InvalidInput));
    let mut moved = stored(id(1), "one");
    moved.deployer = id(2);
    assert_eq!(
        SchemaRegistry::from_records(vec![moved], 200).err(),
        Some(RegistryError::InvalidInput)
    );
}

#[test]
fn a_record_over_the_bound_does_not_load() {
    let loaded = SchemaRegistry::from_records(vec![stored(id(1), "abcd")], 3);
    assert_eq!(loaded.err(), Some(RegistryError::InvalidInput));
    let empty = SchemaRegistry::from_records(vec![stored(id(1), "")], 3);
    assert_eq!(empty.err(), Some(RegistryError::InvalidInput));
    assert!(SchemaRegistry::from_records(vec![stored(id(1), "abc")], 3).is_ok());
}

#[test]
fn a_repeated_identifier_does_not_load() {
    let records = vec![stored(id(1), "one"), stored(id(1), "two"), stored(id(1), "one")];
    assert_eq!(
        SchemaRegistry::from_records(records, 200).err(),
        Some(RegistryError::AlreadyExists)
    );
}

#[test]
fn loading_reports_the_first_offending_record() {
    let repeated_then_oversized =
        vec![stored(id(1), "a"), stored(id(1), "a"), stored(id(1), "abcd")];
    assert_eq!(
        SchemaRegistry::from_records(repeated_then_oversized, 3).err(),
        Some(RegistryError::AlreadyExists)
    );
    let oversized_then_repeated =
        vec![stored(id(1), "a"), stored(id(1), "abcd"), stored(id(1), "a")];
    assert_eq!(
        SchemaRegistry::from_records(oversized_then_repeated, 3).err(),
        Some(RegistryError::InvalidInput)
    );
}
