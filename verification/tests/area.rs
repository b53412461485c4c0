use iroh_willow::proto::data_model::{Entry, InvalidPathError, Path, PayloadDigest};
use iroh_willow::proto::grouping::{Area, AreaSubspace, Range, RangeEnd};
use iroh_willow::proto::keys::{NamespaceId, UserId};
use iroh_willow::uwill::area_extract::{
    area_to_args, area_to_predicates, extract_willow_area, parse_willow_path, path_to_string,
    AreaExtractError, WIL_PATH, WIL_SUBSPACE, WIL_TIME_END, WIL_TIME_START,
};
use iroh_willow::uwill::policy::{
    field_selector, selector_is_field, Arguments, Filter, Ipld, Number, Predicate, Promised, Select,
};

#[test]
fn full_area_from_empty_predicates() {
    let area = extract_willow_area(&[]).unwrap();
    assert!(area.subspace().is_any());
    assert!(area.path().is_empty());
    assert_eq!(area.times().start, 0);
    assert!(matches!(area.times().end, RangeEnd::Open));
}

#[test]
fn roundtrip_area_with_all_fields() {
    let user_bytes = [42u8; 32];
    let original = Area::new(
        AreaSubspace::Id(UserId::from(user_bytes)),
        parse_willow_path("code/seasonal-clock").unwrap(),
        Range::new(1_700_000_000, RangeEnd::Closed(1_800_000_000)),
    );

    let predicates = area_to_predicates(&original);
    let extracted = extract_willow_area(&predicates).unwrap();

    assert!(extracted.subspace() == original.subspace());
    assert!(extracted.path() == original.path());
    assert_eq!(extracted.times().start, original.times().start);
    assert_eq!(extracted.times().end, original.times().end);
}

#[test]
fn path_predicate_uses_or_equal_like() {
    let area = Area::new(
        AreaSubspace::Any,
        parse_willow_path("data").unwrap(),
        Range::new(0, RangeEnd::Open),
    );

    let predicates = area_to_predicates(&area);
    assert_eq!(predicates.len(), 1);
    assert!(matches!(&predicates[0], Predicate::Or(inner) if inner.len() == 2));
    let Predicate::Or(inner) = &predicates[0] else { unreachable!() };
    assert!(matches!(&inner[0], Predicate::Equal(sel, Ipld::String(path))
        if selector_is_field(sel, WIL_PATH) && path == "data"));
    assert!(matches!(&inner[1], Predicate::Like(sel, pattern)
        if selector_is_field(sel, WIL_PATH) && pattern == "data/*"));
}

#[test]
fn time_end_uses_le() {
    let area = Area::new(
        AreaSubspace::Any,
        Path::new_empty(),
        Range::new(100, RangeEnd::Closed(200)),
    );

    let predicates = area_to_predicates(&area);
    let has_le = predicates.iter().any(|p| {
        matches!(p, Predicate::LessThanOrEqual(sel, _) if selector_is_field(sel, WIL_TIME_END))
    });
    assert!(has_le, "time_end should use LessThanOrEqual");
}

#[test]
fn area_to_args_roundtrip() {
    let user_bytes = [7u8; 32];
    let area = Area::new(
        AreaSubspace::Id(UserId::from(user_bytes)),
        parse_willow_path("msgs/chat").unwrap(),
        Range::new(100, RangeEnd::Closed(200)),
    );

    let args = area_to_args(&area);
    assert_eq!(args.len(), 4);
    assert!(matches!(args.get(WIL_SUBSPACE), Some(Promised::Bytes(b)) if b.len() == 32));
    assert!(matches!(args.get(WIL_PATH), Some(Promised::String(s)) if s == "msgs/chat"));
    assert!(matches!(args.get(WIL_TIME_START), Some(Promised::Integer(100))));
    assert!(matches!(args.get(WIL_TIME_END), Some(Promised::Integer(200))));
    assert!(args.get("challenge").is_none());
}

#[test]
fn area_to_args_full_area_is_empty() {
    let area = Area::new_full();
    let args = area_to_args(&area);
    assert!(args.is_empty());
}

#[test]
fn arguments_are_set_by_name() {
    let mut args = Arguments::new();
    args.insert("a", Promised::Integer(1));
    args.insert("b", Promised::Other);
    args.insert("a", Promised::Integer(2));
    assert_eq!(args.len(), 2);
    assert!(matches!(args.get("a"), Some(Promised::Integer(2))));
    assert_eq!(args.entries().iter().filter(|(name, _)| name == "a").count(), 1);
    assert_eq!(args.clone().len(), 2);
}

#[test]
fn policies_are_refused_for_each_reason() {
    let refusal = |predicate: Predicate| extract_willow_area(&[predicate]).unwrap_err();

    let error = refusal(Predicate::Equal(field_selector(WIL_SUBSPACE), Ipld::Bytes(vec![1; 31])));
    assert!(matches!(error, AreaExtractError::InvalidSubspace));
    let error = refusal(Predicate::Equal(field_selector(WIL_SUBSPACE), Ipld::Other));
    assert!(matches!(error, AreaExtractError::InvalidSubspace));

    let error = refusal(Predicate::Or(vec![
        Predicate::Equal(field_selector(WIL_PATH), Ipld::Other),
    ]));
    assert!(matches!(error, AreaExtractError::InvalidPath(text) if text == "expected string"));
    let long = "a".repeat(5000);
    let error = refusal(Predicate::Or(vec![
        Predicate::Equal(field_selector(WIL_PATH), Ipld::String(long.clone())),
    ]));
    assert!(matches!(error, AreaExtractError::InvalidPath(text)
        if text == parse_willow_path(&long).unwrap_err()));

    for number in [Number::Integer(-1), Number::Integer(1 << 64), Number::Float] {
        let error = refusal(Predicate::GreaterThanOrEqual(field_selector(WIL_TIME_START), number));
        assert!(matches!(error, AreaExtractError::InvalidTimeStart));
        let error = refusal(Predicate::LessThanOrEqual(field_selector(WIL_TIME_END), number));
        assert!(matches!(error, AreaExtractError::InvalidTimeEnd));
    }

    // A range that ends where it starts is empty.
    let range = |start: i128, end: i128| {
        extract_willow_area(&[
            Predicate::GreaterThanOrEqual(field_selector(WIL_TIME_START), Number::Integer(start)),
            Predicate::LessThanOrEqual(field_selector(WIL_TIME_END), Number::Integer(end)),
        ])
    };
    assert!(matches!(range(5, 5), Err(AreaExtractError::InvalidTimeRange)));
    assert_eq!(range(5, 6).unwrap().times().end, RangeEnd::Closed(6));
}

#[test]
fn other_predicates_are_ignored() {
    let nested = Select::new(vec![
        Filter::Field(WIL_TIME_START.to_owned()),
        Filter::Field("x".to_owned()),
    ]);
    assert!(!selector_is_field(&nested, WIL_TIME_START));
    assert!(!selector_is_field(&Select::new(vec![Filter::Other]), WIL_TIME_START));
    let area = extract_willow_area(&[
        Predicate::GreaterThanOrEqual(nested, Number::Integer(-1)),
        Predicate::Equal(field_selector("status"), Ipld::String("draft".to_owned())),
        // Only as an arm of a disjunction does an equation restrict the path.
        Predicate::Equal(field_selector(WIL_PATH), Ipld::String("data".to_owned())),
        Predicate::Like(field_selector(WIL_PATH), "data/*".to_owned()),
        Predicate::Other,
        // The other direction is not one of an area.
        Predicate::LessThanOrEqual(field_selector(WIL_TIME_START), Number::Integer(7)),
    ])
    .unwrap();
    assert!(area == Area::new_full());
}

#[test]
fn the_last_predicate_decides() {
    let area = extract_willow_area(&[
        Predicate::GreaterThanOrEqual(field_selector(WIL_TIME_START), Number::Integer(5)),
        Predicate::GreaterThanOrEqual(field_selector(WIL_TIME_START), Number::Integer(3)),
    ])
    .unwrap();
    assert_eq!(area.times().start, 3);
}

#[test]
fn paths_are_written_and_read() {
    assert!(parse_willow_path("").unwrap().is_empty());
    let path = parse_willow_path("a//b").unwrap();
    assert_eq!(path.component_count(), 3);
    assert_eq!(path.component(0), b"a");
    assert_eq!(path.component(1), b"");
    assert_eq!(path.component(2), b"b");
    assert_eq!(path_to_string(&path), "a//b");

    let path = parse_willow_path("grün/écrit").unwrap();
    assert_eq!(path.component_count(), 2);
    assert_eq!(path.component(0), "grün".as_bytes());
    assert_eq!(path_to_string(&path), "grün/écrit");

    // What is not text is replaced.
    let path = Path::from_bytes(&[b"a\xff", b"b"]).unwrap();
    assert_eq!(path_to_string(&path), "a\u{fffd}/b");
    let path = Path::from_bytes(&[b"\xe2\x82"]).unwrap();
    assert_eq!(path_to_string(&path), String::from_utf8_lossy(b"\xe2\x82"));
}

#[test]
fn paths_have_limits() {
    let long = vec![0u8; 4097];
    assert_eq!(
        Path::from_bytes(&[b"a", &long]).unwrap_err(),
        InvalidPathError::ComponentTooLong(1)
    );
    let half = vec![0u8; 2049];
    assert_eq!(Path::from_bytes(&[&half, &half]).unwrap_err(), InvalidPathError::PathTooLong);
    let many = vec![&b""[..]; 1025];
    assert_eq!(Path::from_bytes(&many).unwrap_err(), InvalidPathError::TooManyComponents);
    assert!(Path::from_bytes(&many[1..]).is_ok());
    assert!(Path::from_bytes(&[&long[1..]]).is_ok());
    assert!(parse_willow_path(&"/".repeat(1024)).is_err());
    assert!(parse_willow_path(&"/".repeat(1024)).unwrap_err().starts_with("invalid path: "));
}

#[test]
fn areas_include() {
    let alice = UserId::from([1; 32]);
    let bob = UserId::from([2; 32]);
    let namespace = NamespaceId::from([9; 32]);
    let entry = |user: UserId, path: &[&[u8]], t: u64| {
        let path = Path::from_bytes(path).unwrap();
        Entry::new(namespace, user, path, t, 0, PayloadDigest::default())
    };
    let area = Area::new(
        AreaSubspace::Id(alice),
        Path::from_bytes(&[b"a"]).unwrap(),
        Range::new(10, RangeEnd::Closed(20)),
    );
    assert!(area.includes_entry(&entry(alice, &[b"a"], 10)));
    assert!(area.includes_entry(&entry(alice, &[b"a", b"b"], 19)));
    assert!(!area.includes_entry(&entry(alice, &[b"a"], 20)));
    assert!(!area.includes_entry(&entry(alice, &[b"a"], 9)));
    assert!(!area.includes_entry(&entry(bob, &[b"a"], 10)));
    assert!(!area.includes_entry(&entry(alice, &[b"ab"], 10)));
    assert!(!area.includes_entry(&entry(alice, &[], 10)));

    let full = Area::new_full();
    assert!(full.includes_area(&area) && full.includes_area(&full) && area.includes_area(&area));
    assert!(!area.includes_area(&full));
    let inner = Area::new(
        AreaSubspace::Id(alice),
        Path::from_bytes(&[b"a", b"b"]).unwrap(),
        Range::new(10, RangeEnd::Closed(15)),
    );
    assert!(area.includes_area(&inner) && full.includes_area(&inner));
    assert!(!inner.includes_area(&area));
    let open = Area::new(
        AreaSubspace::Id(alice),
        Path::from_bytes(&[b"a"]).unwrap(),
        Range::new(10, RangeEnd::Open),
    );
    assert!(open.includes_area(&area) && !area.includes_area(&open));
    assert!(full.includes_entry(&entry(bob, &[], u64::MAX)));
}

// -- the data model ----------------------------------------------------------

// The same in the types of the data model.

#[derive(Clone, Default, PartialEq, Eq, PartialOrd, Ord)]
struct Id([u8; 32]);

impl willow_data_model::NamespaceId for Id {}

impl willow_data_model::PayloadDigest for Id {}

impl willow_data_model::SubspaceId for Id {
    fn successor(&self) -> Option<Self> {
        None
    }
}

type ModelPath = willow_data_model::Path<4096, 1024, 4096>;
type ModelArea = willow_data_model::grouping::Area<4096, 1024, 4096, Id>;
type ModelEntry = willow_data_model::Entry<4096, 1024, 4096, Id, Id, Id>;

fn model_path(path: &Path) -> ModelPath {
    let components: Vec<_> = (0..path.component_count())
        .map(|i| willow_data_model::Component::new(path.component(i)).unwrap())
        .collect();
    ModelPath::new_from_slice(&components).unwrap()
}

fn model_area(area: &Area) -> ModelArea {
    let subspace = match area.subspace() {
        AreaSubspace::Any => willow_data_model::grouping::AreaSubspace::Any,
        AreaSubspace::Id(user) => willow_data_model::grouping::AreaSubspace::Id(Id(user.bytes)),
    };
    let end = match area.times().end {
        RangeEnd::Open => willow_data_model::grouping::RangeEnd::Open,
        RangeEnd::Closed(end) => willow_data_model::grouping::RangeEnd::Closed(end),
    };
    let times = willow_data_model::grouping::Range { start: area.times().start, end };
    ModelArea::new(subspace, model_path(area.path()), times)
}

fn model_entry(entry: &Entry) -> ModelEntry {
    ModelEntry::new(
        Id(entry.namespace_id().bytes),
        Id(entry.subspace_id().bytes),
        model_path(entry.path()),
        entry.timestamp(),
        entry.payload_length(),
        Id(entry.payload_digest().bytes),
    )
}

#[test]
fn areas_include_as_in_the_data_model() {
    let paths: [&[&[u8]]; 5] = [&[], &[b""], &[b"a"], &[b"a", b"b"], &[b"ab"]];
    let mut areas = vec![];
    let mut entries = vec![];
    for components in paths {
        let path = || Path::from_bytes(components).unwrap();
        for user in [1, 2] {
            for timestamp in [0, 4, 5, 9, u64::MAX] {
                entries.push(Entry::new(
                    NamespaceId::from([9; 32]),
                    UserId::from([user; 32]),
                    path(),
                    timestamp,
                    0,
                    PayloadDigest::default(),
                ));
            }
        }
        for subspace in [AreaSubspace::Any, AreaSubspace::Id(UserId::from([1; 32]))] {
            for start in [0, 5] {
                for end in [RangeEnd::Open, RangeEnd::Closed(5), RangeEnd::Closed(9)] {
                    areas.push(Area::new(subspace, path(), Range::new(start, end)));
                }
            }
        }
    }
    for a in &areas {
        for b in &areas {
            assert_eq!(a.includes_area(b), model_area(a).includes_area(&model_area(b)));
        }
        for entry in &entries {
            assert_eq!(
                a.includes_entry(entry),
                model_area(a).includes_entry(&model_entry(entry))
            );
        }
    }
}

#[test]
fn paths_are_limited_as_in_the_data_model() {
    let whole = vec![0u8; 4096];
    let half = vec![0u8; 2049];
    let many = vec![&b""[..]; 1025];
    let candidates: [&[&[u8]]; 5] =
        [&[], &[&whole], &[&half, &half], &[&whole, b"a"], &many];
    for components in candidates {
        let model: Vec<_> = components
            .iter()
            .map(|c| willow_data_model::Component::new(c).unwrap())
            .collect();
        let expected = match ModelPath::new_from_slice(&model) {
            Ok(_) => None,
            Err(willow_data_model::InvalidPathError::PathTooLong) => {
                Some(InvalidPathError::PathTooLong)
            }
            Err(willow_data_model::InvalidPathError::TooManyComponents) => {
                Some(InvalidPathError::TooManyComponents)
            }
        };
        assert_eq!(Path::from_bytes(components).err(), expected);
    }
    assert!(willow_data_model::Component::<4096>::new(&[0; 4097]).is_none());
}
