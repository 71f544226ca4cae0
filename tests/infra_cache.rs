use editoast::error::EditionError;
use editoast::infra_cache::{CacheOperation, InfraCache};
use editoast::object_cache::{ObjectCache, ObjectRef, PointCache, TrackSectionCache};
use editoast::schema::ObjectType;

fn s(x: &str) -> String {
    x.to_string()
}

fn signal(id: &str, track: &str, position: i64) -> ObjectCache {
    ObjectCache::Signal(PointCache { id: s(id), track: s(track), position })
}

fn ref_ids(cache: &InfraCache, track: &str) -> Vec<String> {
    let mut ids: Vec<String> = cache.track_sections_refs(&s(track)).into_iter().map(|r| r.obj_id).collect();
    ids.sort();
    ids
}

#[test]
fn empty_cache_has_nothing() {
    let cache = InfraCache::new();
    assert!(cache.get(ObjectType::Signal, &s("S")).is_none());
    assert!(cache.track_sections_refs(&s("T")).is_empty());
}

#[test]
fn load_indexes_references() {
    let cache = InfraCache::load(vec![
        ObjectCache::TrackSection(TrackSectionCache { id: s("T"), length: 10 }),
        signal("S1", "T", 1),
        signal("S2", "T", 2),
        signal("S3", "U", 3),
    ]);
    assert_eq!(ref_ids(&cache, "T"), vec![s("S1"), s("S2")]);
    assert_eq!(ref_ids(&cache, "U"), vec![s("S3")]);
    assert_eq!(cache.get_track_section(&s("T")).unwrap().length, 10);
}

#[test]
fn load_keeps_the_last_object_of_a_key() {
    let cache = InfraCache::load(vec![signal("S1", "T", 1), signal("S1", "U", 5)]);
    assert!(ref_ids(&cache, "T").is_empty());
    assert_eq!(ref_ids(&cache, "U"), vec![s("S1")]);
    match cache.get(ObjectType::Signal, &s("S1")) {
        Some(ObjectCache::Signal(p)) => assert_eq!(p.position, 5),
        other => panic!("unexpected {:?}", other),
    }
}

#[test]
fn update_moves_the_edges() {
    let mut cache = InfraCache::load(vec![signal("S1", "T", 1)]);
    cache.apply_operations(vec![CacheOperation::Update(signal("S1", "U", 4))]).unwrap();
    assert!(ref_ids(&cache, "T").is_empty());
    assert_eq!(ref_ids(&cache, "U"), vec![s("S1")]);
}

#[test]
fn delete_removes_the_edges() {
    let mut cache = InfraCache::load(vec![signal("S1", "T", 1), signal("S2", "T", 2)]);
    cache
        .apply_operations(vec![CacheOperation::Delete(ObjectRef { obj_type: ObjectType::Signal, obj_id: s("S1") })])
        .unwrap();
    assert_eq!(ref_ids(&cache, "T"), vec![s("S2")]);
    assert!(cache.get(ObjectType::Signal, &s("S1")).is_none());
}

#[test]
fn update_of_absent_object_fails() {
    let mut cache = InfraCache::load(vec![signal("S1", "T", 1)]);
    let err = cache
        .apply_operations(vec![CacheOperation::Create(signal("S2", "T", 2)), CacheOperation::Update(signal("S9", "T", 4))])
        .unwrap_err();
    match err {
        EditionError::ObjectNotFound { obj_type, obj_id } => {
            assert_eq!(obj_type, ObjectType::Signal);
            assert_eq!(obj_id, "S9");
        }
        other => panic!("unexpected {:?}", other),
    }
    // The operations before the failing one were applied.
    assert_eq!(ref_ids(&cache, "T"), vec![s("S1"), s("S2")]);
}

#[test]
fn delete_of_absent_object_fails() {
    let mut cache = InfraCache::load(vec![signal("S1", "T", 1)]);
    let err = cache
        .apply_operations(vec![
            CacheOperation::Delete(ObjectRef { obj_type: ObjectType::Detector, obj_id: s("S1") }),
            CacheOperation::Create(signal("S2", "T", 2)),
        ])
        .unwrap_err();
    assert_eq!(err.get_status(), 404);
    assert_eq!(ref_ids(&cache, "T"), vec![s("S1")]);
}

#[test]
fn incremental_cache_matches_reload() {
    let mut cache = InfraCache::load(vec![signal("S1", "T", 1), signal("S2", "T", 2)]);
    cache
        .apply_operations(vec![
            CacheOperation::Create(signal("S3", "U", 3)),
            CacheOperation::Update(signal("S1", "U", 7)),
            CacheOperation::Delete(ObjectRef { obj_type: ObjectType::Signal, obj_id: s("S2") }),
        ])
        .unwrap();
    let reloaded = InfraCache::load(vec![signal("S1", "U", 7), signal("S3", "U", 3)]);
    for track in ["T", "U"] {
        assert_eq!(ref_ids(&cache, track), ref_ids(&reloaded, track));
    }
    for id in ["S1", "S2", "S3"] {
        let a = format!("{:?}", cache.get(ObjectType::Signal, &s(id)));
        let b = format!("{:?}", reloaded.get(ObjectType::Signal, &s(id)));
        assert_eq!(a, b);
    }
}
