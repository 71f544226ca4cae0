use editoast::edition::{apply_edit, bump_generated_version, check_unlocked, Infra};
use editoast::error::EditionError;
use editoast::infra_cache::{CacheOperation, InfraCache};
use editoast::object_cache::{ObjectCache, ObjectRef, PointCache, TrackSectionCache};
use editoast::operation::{Operation, PatchKind, PatchValue, PathToken, RailjsonObject};
use editoast::schema::{
    Curve, Endpoint, LoadingGaugeLimit, ObjectType, Slope, TrackSection,
};
use editoast::track_split::{check_split, plan_split, split_ranged, SplitGeometry};

fn track_payload(id: &str, length: i64) -> TrackSection {
    TrackSection {
        id: id.to_string(),
        length,
        slopes: vec![
            Slope { begin: 0, end: 500_000, gradient: 5 },
            Slope { begin: 500_000, end: 1_500_000, gradient: -3 },
            Slope { begin: 1_500_000, end: 2_000_000, gradient: 0 },
        ],
        curves: vec![Curve { begin: 800_000, end: 1_200_000, radius: 900_000 }],
        loading_gauge_limits: vec![LoadingGaugeLimit { begin: 0, end: 2_000_000, category: "G1".to_string() }],
        geo: "{}".to_string(),
        sch: "{}".to_string(),
        extensions: "{}".to_string(),
    }
}

fn geometry() -> SplitGeometry {
    SplitGeometry {
        left_geo: "left-geo".to_string(),
        left_sch: "left-sch".to_string(),
        right_geo: "right-geo".to_string(),
        right_sch: "right-sch".to_string(),
    }
}

fn small_cache() -> InfraCache {
    InfraCache::load(vec![
        ObjectCache::TrackSection(TrackSectionCache { id: "TA0".to_string(), length: 2_000_000 }),
        ObjectCache::TrackSection(TrackSectionCache { id: "TA1".to_string(), length: 1_000_000 }),
        ObjectCache::Signal(PointCache { id: "SA0".to_string(), track: "TA0".to_string(), position: 1_500_000 }),
    ])
}

#[test]
fn split_track_section_should_work() {
    let cache = small_cache();
    let distance = check_split(1, &cache, &"TA0".to_string(), 1_000_000).unwrap();
    assert_eq!(distance, 1_000_000);
    let plan = plan_split(1, &cache, &track_payload("TA0", 2_000_000), distance, geometry()).unwrap();
    let ops = &plan.operations;
    assert_eq!(ops.len(), 5);
    match &ops[0] {
        Operation::Create(RailjsonObject::TrackSection(t)) => {
            assert_eq!(t.id, plan.left_id);
            assert_eq!(t.length, 1_000_000);
            assert_eq!(t.geo, "left-geo");
            assert_eq!(t.sch, "left-sch");
        }
        other => panic!("unexpected {:?}", other),
    }
    match &ops[1] {
        Operation::Create(RailjsonObject::TrackSection(t)) => {
            assert_eq!(t.id, plan.right_id);
            assert_eq!(t.length, 1_000_000);
            assert_eq!(t.geo, "right-geo");
        }
        other => panic!("unexpected {:?}", other),
    }
    match &ops[2] {
        Operation::Create(RailjsonObject::Switch(s)) => {
            assert_eq!(s.id, plan.switch_id);
            assert_eq!(s.switch_type, "link");
            assert_eq!(s.ports.len(), 2);
            assert_eq!(s.ports[0].name, "A");
            assert_eq!(s.ports[0].endpoint.track, plan.left_id);
            assert_eq!(s.ports[0].endpoint.endpoint, Endpoint::End);
            assert_eq!(s.ports[1].name, "B");
            assert_eq!(s.ports[1].endpoint.track, plan.right_id);
            assert_eq!(s.ports[1].endpoint.endpoint, Endpoint::Begin);
        }
        other => panic!("unexpected {:?}", other),
    }
    match &ops[3] {
        Operation::Update(u) => {
            assert_eq!(u.obj_type, ObjectType::Signal);
            assert_eq!(u.obj_id, "SA0");
            assert_eq!(u.railjson_patch.len(), 2);
            let track = &u.railjson_patch[0];
            assert_eq!(track.kind, PatchKind::Replace);
            assert!(matches!(track.path.as_slice(), [PathToken::Track]));
            assert!(matches!(&track.value, Some(PatchValue::Identifier(id)) if *id == plan.right_id));
            let position = &u.railjson_patch[1];
            assert!(matches!(position.path.as_slice(), [PathToken::Position]));
            assert!(matches!(position.value, Some(PatchValue::Distance(500_000))));
        }
        other => panic!("unexpected {:?}", other),
    }
    match &ops[4] {
        Operation::Delete(r) => {
            assert_eq!(r.obj_type, ObjectType::TrackSection);
            assert_eq!(r.obj_id, "TA0");
        }
        other => panic!("unexpected {:?}", other),
    }
}

#[test]
fn split_identifiers_are_fresh() {
    let cache = small_cache();
    let plan = plan_split(1, &cache, &track_payload("TA0", 2_000_000), 1_000_000, geometry()).unwrap();
    assert_eq!(plan.left_id.len(), 36);
    assert_eq!(plan.right_id.len(), 36);
    assert_eq!(plan.switch_id.len(), 36);
    assert_ne!(plan.left_id, plan.right_id);
    assert_ne!(plan.left_id, plan.switch_id);
}

#[test]
fn split_track_section_should_fail_with_bad_distance() {
    let cache = small_cache();
    let err = check_split(7, &cache, &"TA0".to_string(), 5_000_000).unwrap_err();
    assert_eq!(err.get_status(), 400);
    match err {
        EditionError::SplitTrackSectionBadOffset { infra_id, tracksection_id, tracksection_length } => {
            assert_eq!(infra_id, 7);
            assert_eq!(tracksection_id, "TA0");
            assert_eq!(tracksection_length, 2_000_000);
        }
        other => panic!("unexpected {:?}", other),
    }
}

#[test]
fn split_at_the_ends_is_refused() {
    let cache = small_cache();
    for offset in [0, -5, 2_000_000, 2_000_001] {
        let err = check_split(1, &cache, &"TA0".to_string(), offset).unwrap_err();
        assert!(matches!(err, EditionError::SplitTrackSectionBadOffset { .. }));
        let err = plan_split(1, &cache, &track_payload("TA0", 2_000_000), offset, geometry()).unwrap_err();
        assert!(matches!(err, EditionError::SplitTrackSectionBadOffset { .. }));
    }
    assert_eq!(check_split(1, &cache, &"TA0".to_string(), 1).unwrap(), 1);
    assert_eq!(check_split(1, &cache, &"TA0".to_string(), 1_999_999).unwrap(), 1_999_999);
}

#[test]
fn split_track_section_should_return_404_with_bad_id() {
    let cache = small_cache();
    let err = check_split(1, &cache, &"INVALID-ID".to_string(), 1).unwrap_err();
    assert_eq!(err.get_status(), 404);
    match err {
        EditionError::ObjectNotFound { obj_type, obj_id } => {
            assert_eq!(obj_type, ObjectType::TrackSection);
            assert_eq!(obj_id, "INVALID-ID");
        }
        other => panic!("unexpected {:?}", other),
    }
    // A signal of that name is no track section.
    assert!(check_split(1, &cache, &"SA0".to_string(), 1).is_err());
}

#[test]
fn split_lengths_add_up() {
    let cache = small_cache();
    let plan = plan_split(1, &cache, &track_payload("TA0", 2_000_000), 300_000, geometry()).unwrap();
    let lengths: Vec<i64> = plan.operations[..2]
        .iter()
        .map(|op| match op {
            Operation::Create(RailjsonObject::TrackSection(t)) => t.length,
            _ => panic!("not a track section"),
        })
        .collect();
    assert_eq!(lengths, vec![300_000, 1_700_000]);
    assert_eq!(lengths[0] + lengths[1], 2_000_000);
}

#[test]
fn ranged_attributes_are_partitioned() {
    let slopes = vec![
        Slope { begin: 0, end: 500_000, gradient: 5 },
        Slope { begin: 500_000, end: 1_500_000, gradient: -3 },
        Slope { begin: 1_500_000, end: 2_000_000, gradient: 0 },
        Slope { begin: 1_000_000, end: 1_200_000, gradient: 7 },
        Slope { begin: 800_000, end: 1_000_000, gradient: 8 },
    ];
    let (left, right) = split_ranged(&slopes, 1_000_000);
    assert_eq!(
        left,
        vec![
            Slope { begin: 0, end: 500_000, gradient: 5 },
            Slope { begin: 500_000, end: 1_000_000, gradient: -3 },
            Slope { begin: 800_000, end: 1_000_000, gradient: 8 },
        ]
    );
    assert_eq!(
        right,
        vec![
            Slope { begin: 0, end: 500_000, gradient: -3 },
            Slope { begin: 500_000, end: 1_000_000, gradient: 0 },
            Slope { begin: 0, end: 200_000, gradient: 7 },
        ]
    );
}

#[test]
fn straddling_curve_begins_at_zero_on_the_right() {
    let curves = vec![Curve { begin: 800_000, end: 1_200_000, radius: 900_000 }];
    let (left, right) = split_ranged(&curves, 1_000_000);
    assert_eq!(left, vec![Curve { begin: 800_000, end: 1_000_000, radius: 900_000 }]);
    assert_eq!(right, vec![Curve { begin: 0, end: 200_000, radius: 900_000 }]);
}

#[test]
fn loading_gauge_limits_keep_their_category() {
    let limits = vec![LoadingGaugeLimit { begin: 0, end: 2_000_000, category: "GB1".to_string() }];
    let (left, right) = split_ranged(&limits, 600_000);
    assert_eq!(left.len(), 1);
    assert_eq!((left[0].begin, left[0].end, left[0].category.as_str()), (0, 600_000, "GB1"));
    assert_eq!(right.len(), 1);
    assert_eq!((right[0].begin, right[0].end, right[0].category.as_str()), (0, 1_400_000, "GB1"));
}

#[test]
fn locked_infra_refuses_edits() {
    let mut infra = Infra { id: 3, locked: true, version: 4, generated_version: Some(4) };
    let mut cache = small_cache();
    assert!(matches!(check_unlocked(&infra), Err(EditionError::InfraIsLocked { infra_id: 3 })));
    let ops = vec![CacheOperation::Delete(ObjectRef { obj_type: ObjectType::Signal, obj_id: "SA0".to_string() })];
    let err = apply_edit(&mut infra, ops, &mut cache).unwrap_err();
    assert!(matches!(err, EditionError::InfraIsLocked { infra_id: 3 }));
    assert_eq!(err.get_status(), 400);
    assert_eq!(infra.version, 4);
    assert!(cache.get(ObjectType::Signal, &"SA0".to_string()).is_some());
}

#[test]
fn split_batch_applied_to_the_cache() {
    let mut infra = Infra { id: 1, locked: false, version: 10, generated_version: Some(10) };
    let mut cache = small_cache();
    assert!(check_unlocked(&infra).is_ok());
    let plan = plan_split(1, &cache, &track_payload("TA0", 2_000_000), 1_000_000, geometry()).unwrap();
    let mut cache_ops = Vec::new();
    for op in &plan.operations {
        match op {
            Operation::Create(obj) => cache_ops.push(CacheOperation::Create(obj.to_cache())),
            Operation::Update(u) => {
                assert_eq!(u.obj_id, "SA0");
                cache_ops.push(CacheOperation::Update(ObjectCache::Signal(PointCache {
                    id: "SA0".to_string(),
                    track: plan.right_id.clone(),
                    position: 500_000,
                })));
            }
            Operation::Delete(r) => cache_ops.push(CacheOperation::Delete(r.clone())),
        }
    }
    apply_edit(&mut infra, cache_ops, &mut cache).unwrap();
    assert_eq!(infra.version, 11);
    assert_eq!(infra.generated_version, Some(10));
    bump_generated_version(&mut infra);
    assert_eq!(infra.generated_version, Some(11));

    assert!(cache.get_track_section(&"TA0".to_string()).is_err());
    assert_eq!(cache.get_track_section(&plan.left_id).unwrap().length, 1_000_000);
    assert_eq!(cache.get_track_section(&plan.right_id).unwrap().length, 1_000_000);
    assert!(cache.track_sections_refs(&"TA0".to_string()).is_empty());
    let right_refs = cache.track_sections_refs(&plan.right_id);
    let mut keys: Vec<(ObjectType, String)> = right_refs.iter().map(|r| (r.obj_type, r.obj_id.clone())).collect();
    keys.sort_by(|a, b| a.1.cmp(&b.1));
    let mut expected = vec![(ObjectType::Switch, plan.switch_id.clone()), (ObjectType::Signal, "SA0".to_string())];
    expected.sort_by(|a, b| a.1.cmp(&b.1));
    assert_eq!(keys, expected);
    let left_refs = cache.track_sections_refs(&plan.left_id);
    assert_eq!(left_refs.len(), 1);
    assert_eq!(left_refs[0].obj_type, ObjectType::Switch);

    // A reloaded cache of the same objects answers alike.
    let reloaded = InfraCache::load(vec![
        ObjectCache::TrackSection(TrackSectionCache { id: "TA1".to_string(), length: 1_000_000 }),
        ObjectCache::TrackSection(TrackSectionCache { id: plan.left_id.clone(), length: 1_000_000 }),
        ObjectCache::TrackSection(TrackSectionCache { id: plan.right_id.clone(), length: 1_000_000 }),
        match &plan.operations[2] {
            Operation::Create(obj) => obj.to_cache(),
            other => panic!("unexpected {:?}", other),
        },
        ObjectCache::Signal(PointCache { id: "SA0".to_string(), track: plan.right_id.clone(), position: 500_000 }),
    ]);
    assert_eq!(reloaded.track_sections_refs(&plan.right_id).len(), right_refs.len());
    assert_eq!(reloaded.track_sections_refs(&plan.left_id).len(), 1);
}
