use vector_registry::hashing::{tag_id, vector_id};
use vector_registry::pallet::{Config, Error, Event, Pallet};

/// The bounds the tests run with.
fn test_config() -> Config {
    Config {
        max_vectors: 1000,
        max_vector_length: 1000,
        max_tag_length: 50,
        max_tags_per_vector: 10,
    }
}

#[test]
fn store_weight_data_works() {
    let mut registry = Pallet::new(test_config());

    let payload = vec![1u8, 2, 3, 4, 5];
    let tags = vec![vec![1u8, 2, 3], vec![4u8, 5, 6]];
    let tag_refs = vec![tag_id(&vec![1u8, 2, 3]), tag_id(&vec![4u8, 5, 6])];
    let expected_id = vector_id(&payload, 1, &tag_refs);

    let event = registry.store_weight_data(1, payload, tags).unwrap();
    assert_eq!(
        event,
        Event::VectorStored { vector_id: expected_id, author: 1 }
    );
}

#[test]
fn store_weight_data_fails_with_long_vector() {
    let mut registry = Pallet::new(test_config());

    let max_len: u32 = 1000;
    let long_vector: Vec<u8> = vec![0; (max_len + 1) as usize];

    let result = registry.store_weight_data(1, long_vector, vec![]);
    assert!(result.is_err(), "Vector should be too long");
}

#[test]
fn get_weights_by_tag_works() {
    let mut registry = Pallet::new(test_config());

    let tag = vec![1u8, 2, 3];
    assert!(registry
        .store_weight_data(1, vec![1u8, 2, 3], vec![tag.clone()])
        .is_ok());

    assert!(registry.get_weights_by_tag(&tag).is_ok());
}

#[test]
fn get_weights_by_tag_fails_for_nonexistent_tag() {
    let registry = Pallet::new(test_config());

    assert_eq!(
        registry.get_weights_by_tag(&vec![1u8, 2, 3]),
        Err(Error::TagNotFound)
    );
}

#[test]
fn prune_weight_data_works() {
    let mut registry = Pallet::new(test_config());

    let payload = vec![1u8, 2, 3];
    assert!(registry
        .store_weight_data(1, payload.clone(), vec![])
        .is_ok());

    let id = vector_id(&payload, 1, &vec![]);

    let event = registry.prune_weight_data(vec![id]).unwrap();
    assert_eq!(event, Event::VectorsPruned { count: 1 });
}

#[test]
fn prune_weight_data_fails_with_empty_list() {
    let mut registry = Pallet::new(test_config());

    assert_eq!(
        registry.prune_weight_data(vec![]),
        Err(Error::NothingToPrune)
    );
}

#[test]
fn get_weights_by_author_works() {
    let mut registry = Pallet::new(test_config());

    assert!(registry.store_weight_data(1, vec![1u8, 2, 3], vec![]).is_ok());

    assert!(registry.get_weights_by_author(1).is_ok());
}

#[test]
fn storing_identical_content_twice_derives_the_same_id() {
    let mut registry = Pallet::new(test_config());

    let first = registry
        .store_weight_data(7, vec![9u8, 9, 9], vec![vec![1u8]])
        .unwrap();
    let second = registry
        .store_weight_data(7, vec![9u8, 9, 9], vec![vec![1u8]])
        .unwrap();
    assert_eq!(first, second);
}

#[test]
fn rejected_store_persists_nothing() {
    let mut registry = Pallet::new(test_config());

    let good_tag = vec![1u8, 2, 3];
    let too_long_tag = vec![0u8; 51];
    let result = registry.store_weight_data(
        1,
        vec![1u8, 2, 3],
        vec![good_tag.clone(), too_long_tag],
    );
    assert_eq!(result, Err(Error::TagTooLong));

    // Neither the valid tag nor the author index entry was written.
    assert_eq!(registry.get_weights_by_tag(&good_tag), Err(Error::TagNotFound));
    assert_eq!(registry.get_weights_by_author(1), Err(Error::VectorNotFound));
}

#[test]
fn too_many_tags_are_rejected() {
    let mut registry = Pallet::new(test_config());

    let tags: Vec<Vec<u8>> = (0u8..11).map(|i| vec![i]).collect();
    assert_eq!(
        registry.store_weight_data(1, vec![1u8], tags),
        Err(Error::TagTooLong)
    );

    let tags_at_bound: Vec<Vec<u8>> = (0u8..10).map(|i| vec![i]).collect();
    assert!(registry.store_weight_data(1, vec![1u8], tags_at_bound).is_ok());
}

#[test]
fn payload_bound_is_exact() {
    let mut registry = Pallet::new(test_config());

    let at_bound = vec![0u8; 1000];
    assert!(registry.store_weight_data(1, at_bound, vec![]).is_ok());

    let over_bound = vec![0u8; 1001];
    assert_eq!(
        registry.store_weight_data(1, over_bound, vec![]),
        Err(Error::InvalidVectorData)
    );
}

#[test]
fn tag_length_bound_is_exact() {
    let mut registry = Pallet::new(test_config());

    let at_bound = vec![0u8; 50];
    assert!(registry
        .store_weight_data(1, vec![1u8], vec![at_bound.clone()])
        .is_ok());
    assert!(registry.get_weights_by_tag(&at_bound).is_ok());

    let over_bound = vec![0u8; 51];
    assert_eq!(
        registry.store_weight_data(1, vec![2u8], vec![over_bound]),
        Err(Error::TagTooLong)
    );
}

#[test]
fn shared_tags_are_interned_once() {
    let mut registry = Pallet::new(test_config());

    let tag = vec![7u8, 7, 7];
    assert!(registry
        .store_weight_data(1, vec![1u8], vec![tag.clone()])
        .is_ok());
    assert!(registry
        .store_weight_data(2, vec![2u8], vec![tag.clone()])
        .is_ok());

    assert!(registry.get_weights_by_tag(&tag).is_ok());
    // A tag that never went in stays unknown.
    assert_eq!(
        registry.get_weights_by_tag(&vec![8u8, 8, 8]),
        Err(Error::TagNotFound)
    );
}

#[test]
fn prune_counts_only_present_ids() {
    let mut registry = Pallet::new(test_config());

    let payload_a = vec![1u8];
    let payload_c = vec![3u8];
    assert!(registry.store_weight_data(1, payload_a.clone(), vec![]).is_ok());
    assert!(registry.store_weight_data(1, payload_c.clone(), vec![]).is_ok());

    let id_a = vector_id(&payload_a, 1, &vec![]);
    let id_b = vector_id(&vec![2u8], 1, &vec![]);
    let id_c = vector_id(&payload_c, 1, &vec![]);

    let event = registry.prune_weight_data(vec![id_a, id_b, id_c]).unwrap();
    assert_eq!(event, Event::VectorsPruned { count: 2 });
}

#[test]
fn pruning_twice_finds_nothing_the_second_time() {
    let mut registry = Pallet::new(test_config());

    let payload = vec![1u8, 2];
    assert!(registry.store_weight_data(1, payload.clone(), vec![]).is_ok());
    let id = vector_id(&payload, 1, &vec![]);

    let first = registry.prune_weight_data(vec![id.clone()]).unwrap();
    assert_eq!(first, Event::VectorsPruned { count: 1 });

    let second = registry.prune_weight_data(vec![id]).unwrap();
    assert_eq!(second, Event::VectorsPruned { count: 0 });
}

#[test]
fn author_vector_limit_is_enforced() {
    let mut registry = Pallet::new(Config {
        max_vectors: 1,
        max_vector_length: 1000,
        max_tag_length: 50,
        max_tags_per_vector: 10,
    });

    assert!(registry.store_weight_data(1, vec![1u8], vec![]).is_ok());
    assert_eq!(
        registry.store_weight_data(1, vec![2u8], vec![]),
        Err(Error::VectorNotFound)
    );

    let mut empty_registry = Pallet::new(Config {
        max_vectors: 0,
        max_vector_length: 1000,
        max_tag_length: 50,
        max_tags_per_vector: 10,
    });
    assert_eq!(
        empty_registry.store_weight_data(1, vec![1u8], vec![]),
        Err(Error::VectorNotFound)
    );
}

#[test]
fn identifiers_are_real_digests() {
    let tag = vec![1u8, 2, 3];
    let id = tag_id(&tag);
    // A 32-byte digest, not the input handed back.
    assert_eq!(id.len(), 32);
    assert_ne!(id, tag);
    assert_eq!(id, tag_id(&vec![1u8, 2, 3]));
    assert_ne!(id, tag_id(&vec![4u8, 5, 6]));

    let vid = vector_id(&vec![1u8, 2, 3], 1, &vec![id.clone()]);
    assert_eq!(vid.len(), 32);
    // Every field takes part in the identifier.
    assert_ne!(vid, vector_id(&vec![1u8, 2, 4], 1, &vec![id.clone()]));
    assert_ne!(vid, vector_id(&vec![1u8, 2, 3], 2, &vec![id.clone()]));
    assert_ne!(vid, vector_id(&vec![1u8, 2, 3], 1, &vec![]));
}

#[test]
fn example_scenario_runs_end_to_end() {
    let mut registry = Pallet::new(test_config());

    let payload = vec![1u8, 2, 3, 4, 5];
    let tags = vec![vec![1u8, 2, 3], vec![4u8, 5, 6]];
    let tag_refs = vec![tag_id(&vec![1u8, 2, 3]), tag_id(&vec![4u8, 5, 6])];
    let expected_id = vector_id(&payload, 1, &tag_refs);

    let stored = registry.store_weight_data(1, payload, tags).unwrap();
    assert_eq!(
        stored,
        Event::VectorStored { vector_id: expected_id.clone(), author: 1 }
    );

    let pruned = registry.prune_weight_data(vec![expected_id]).unwrap();
    assert_eq!(pruned, Event::VectorsPruned { count: 1 });

    // The author index keeps its entry even though the record is gone.
    assert!(registry.get_weights_by_author(1).is_ok());
}
