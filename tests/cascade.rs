use editoast::infra_cache::InfraCache;
use editoast::object_cache::{
    ElectrificationCache, NeutralSectionCache, NeutralSigns, ObjectCache, OperationalPointCache, PointCache,
    PslSigns, SpeedSectionCache, SwitchCache, TrackSectionCache,
};
use editoast::operation::{PatchKind, PatchOperation, PatchValue, PathToken, UpdateOperation};
use editoast::schema::{
    ApplicableDirections, ApplicableDirectionsTrackRange, Direction, DirectionalTrackRange, Endpoint, ObjectType,
    OperationalPointPart, Sign, SwitchPort, TrackEndpoint,
};
use editoast::split::{
    get_splitted_operations_for_impacted, get_splitted_patch_operations_for_applicable_ranges,
    get_splitted_patch_operations_for_ranges, get_splitted_patch_operations_for_sign,
};

fn s(x: &str) -> String {
    x.to_string()
}

fn path_text(p: &[PathToken]) -> String {
    let mut out = String::new();
    for t in p {
        out.push('/');
        let part = match t {
            PathToken::Track => s("track"),
            PathToken::Position => s("position"),
            PathToken::Begin => s("begin"),
            PathToken::End => s("end"),
            PathToken::Ports => s("ports"),
            PathToken::TrackRanges => s("track_ranges"),
            PathToken::Parts => s("parts"),
            PathToken::Extensions => s("extensions"),
            PathToken::PslSncf => s("psl_sncf"),
            PathToken::NeutralSncf => s("neutral_sncf"),
            PathToken::Z => s("z"),
            PathToken::Announcement => s("announcement"),
            PathToken::R => s("r"),
            PathToken::Exe => s("exe"),
            PathToken::Rev => s("rev"),
            PathToken::Name(n) => n.clone(),
            PathToken::Index(i) => i.to_string(),
            PathToken::Append => s("-"),
        };
        out.push_str(&part);
    }
    out
}

fn describe(op: &PatchOperation) -> String {
    let kind = match op.kind {
        PatchKind::Add => "add",
        PatchKind::Remove => "remove",
        PatchKind::Replace => "replace",
    };
    let value = match &op.value {
        None => s("-"),
        Some(PatchValue::Identifier(id)) => id.clone(),
        Some(PatchValue::Distance(d)) => d.to_string(),
        Some(PatchValue::ApplicableRange(r)) => format!("{}[{},{}]", r.track, r.begin, r.end),
        Some(PatchValue::DirectionalRange(r)) => format!("{}[{},{}]", r.track, r.begin, r.end),
        Some(PatchValue::OperationalPointPart(p)) => format!("{}@{}", p.track, p.position),
    };
    format!("{} {} {}", kind, path_text(&op.path), value)
}

fn describe_all(ops: &[PatchOperation]) -> Vec<String> {
    ops.iter().map(describe).collect()
}

fn range(track: &str, begin: i64, end: i64) -> ApplicableDirectionsTrackRange {
    ApplicableDirectionsTrackRange { track: s(track), begin, end, applicable_directions: ApplicableDirections::Both }
}

#[test]
fn sign_before_split_keeps_its_position() {
    let path = vec![PathToken::Extensions, PathToken::PslSncf, PathToken::Z];
    let ops = get_splitted_patch_operations_for_sign(&s("T"), 100, &s("L"), &s("R"), &path, &Sign { track: s("T"), position: 100 });
    assert_eq!(describe_all(&ops), vec!["replace /extensions/psl_sncf/z/track L"]);
}

#[test]
fn sign_after_split_moves_right() {
    let path = vec![PathToken::Extensions, PathToken::NeutralSncf, PathToken::Rev, PathToken::Index(2)];
    let ops = get_splitted_patch_operations_for_sign(&s("T"), 100, &s("L"), &s("R"), &path, &Sign { track: s("T"), position: 250 });
    assert_eq!(
        describe_all(&ops),
        vec!["replace /extensions/neutral_sncf/rev/2/track R", "replace /extensions/neutral_sncf/rev/2/position 150"]
    );
}

#[test]
fn sign_on_another_track_is_untouched() {
    let ops = get_splitted_patch_operations_for_sign(&s("T"), 100, &s("L"), &s("R"), &vec![], &Sign { track: s("U"), position: 250 });
    assert!(ops.is_empty());
}

#[test]
fn applicable_ranges_are_split() {
    let ranges = vec![range("T", 0, 100), range("U", 0, 500), range("T", 150, 300), range("T", 50, 200)];
    let ops = get_splitted_patch_operations_for_applicable_ranges(&s("T"), 100, &s("L"), &s("R"), &ranges);
    assert_eq!(
        describe_all(&ops),
        vec![
            "replace /track_ranges/0/track L",
            "replace /track_ranges/2/track R",
            "replace /track_ranges/2/begin 50",
            "replace /track_ranges/2/end 200",
            "remove /track_ranges/3 -",
            "add /track_ranges/- L[50,100]",
            "add /track_ranges/- R[0,100]",
        ]
    );
    match &ops[5].value {
        Some(PatchValue::ApplicableRange(r)) => assert_eq!(r.applicable_directions, ApplicableDirections::Both),
        other => panic!("unexpected {:?}", other),
    }
}

#[test]
fn directional_ranges_are_split() {
    let ranges = vec![DirectionalTrackRange { track: s("T"), begin: 20, end: 180, direction: Direction::StopToStart }];
    let ops = get_splitted_patch_operations_for_ranges(&s("T"), 100, &s("L"), &s("R"), &ranges);
    assert_eq!(describe_all(&ops), vec!["remove /track_ranges/0 -", "add /track_ranges/- L[20,100]", "add /track_ranges/- R[0,80]"]);
    match &ops[2].value {
        Some(PatchValue::DirectionalRange(r)) => assert_eq!(r.direction, Direction::StopToStart),
        other => panic!("unexpected {:?}", other),
    }
}

fn find<'a>(ops: &'a [UpdateOperation], obj_type: ObjectType, id: &str) -> &'a UpdateOperation {
    ops.iter().find(|u| u.obj_type == obj_type && u.obj_id == id).expect("update")
}

#[test]
fn every_referencing_object_is_patched() {
    let cache = InfraCache::load(vec![
        ObjectCache::TrackSection(TrackSectionCache { id: s("T"), length: 1000 }),
        ObjectCache::Detector(PointCache { id: s("D"), track: s("T"), position: 100 }),
        ObjectCache::BufferStop(PointCache { id: s("B"), track: s("T"), position: 900 }),
        ObjectCache::Switch(SwitchCache {
            id: s("SW"),
            switch_type: s("point_switch"),
            ports: vec![
                SwitchPort { name: s("A"), endpoint: TrackEndpoint { track: s("T"), endpoint: Endpoint::Begin } },
                SwitchPort { name: s("B1"), endpoint: TrackEndpoint { track: s("U"), endpoint: Endpoint::End } },
                SwitchPort { name: s("B2"), endpoint: TrackEndpoint { track: s("T"), endpoint: Endpoint::End } },
            ],
        }),
        ObjectCache::Electrification(ElectrificationCache { id: s("E"), track_ranges: vec![range("T", 0, 1000)] }),
        ObjectCache::SpeedSection(SpeedSectionCache {
            id: s("SP"),
            track_ranges: vec![range("T", 600, 800)],
            psl_sncf: Some(PslSigns {
                z: Sign { track: s("T"), position: 700 },
                announcement: vec![Sign { track: s("U"), position: 10 }, Sign { track: s("T"), position: 200 }],
                r: vec![],
            }),
        }),
        ObjectCache::NeutralSection(NeutralSectionCache {
            id: s("N"),
            track_ranges: vec![DirectionalTrackRange { track: s("T"), begin: 10, end: 90, direction: Direction::StartToStop }],
            neutral_sncf: Some(NeutralSigns {
                exe: Sign { track: s("T"), position: 10 },
                announcement: vec![],
                end: vec![Sign { track: s("T"), position: 600 }],
                rev: vec![],
            }),
        }),
        ObjectCache::OperationalPoint(OperationalPointCache {
            id: s("OP"),
            parts: vec![
                OperationalPointPart { track: s("T"), position: 500 },
                OperationalPointPart { track: s("T"), position: 501 },
            ],
        }),
        ObjectCache::Route(s("RT")),
        ObjectCache::Signal(PointCache { id: s("OTHER"), track: s("U"), position: 3 }),
    ]);
    let ops = get_splitted_operations_for_impacted(&cache, &s("T"), 500, &s("L"), &s("R"));
    assert_eq!(ops.len(), 7);
    assert_eq!(
        describe_all(&find(&ops, ObjectType::Detector, "D").railjson_patch),
        vec!["replace /track L", "replace /position 100"]
    );
    assert_eq!(
        describe_all(&find(&ops, ObjectType::BufferStop, "B").railjson_patch),
        vec!["replace /track R", "replace /position 400"]
    );
    assert_eq!(
        describe_all(&find(&ops, ObjectType::Switch, "SW").railjson_patch),
        vec!["replace /ports/A/track L", "replace /ports/B2/track R"]
    );
    assert_eq!(
        describe_all(&find(&ops, ObjectType::Electrification, "E").railjson_patch),
        vec!["remove /track_ranges/0 -", "add /track_ranges/- L[0,500]", "add /track_ranges/- R[0,500]"]
    );
    assert_eq!(
        describe_all(&find(&ops, ObjectType::SpeedSection, "SP").railjson_patch),
        vec![
            "replace /track_ranges/0/track R",
            "replace /track_ranges/0/begin 100",
            "replace /track_ranges/0/end 300",
            "replace /extensions/psl_sncf/z/track R",
            "replace /extensions/psl_sncf/z/position 200",
            "replace /extensions/psl_sncf/announcement/1/track L",
        ]
    );
    assert_eq!(
        describe_all(&find(&ops, ObjectType::NeutralSection, "N").railjson_patch),
        vec![
            "replace /track_ranges/0/track L",
            "replace /extensions/neutral_sncf/exe/track L",
            "replace /extensions/neutral_sncf/end/0/track R",
            "replace /extensions/neutral_sncf/end/0/position 100",
        ]
    );
    assert_eq!(
        describe_all(&find(&ops, ObjectType::OperationalPoint, "OP").railjson_patch),
        vec!["replace /parts/0/track L", "replace /parts/1 R@1"]
    );
    assert!(ops.iter().all(|u| u.obj_type != ObjectType::Route && u.obj_id != "OTHER"));
}
