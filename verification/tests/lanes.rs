use osm2lanes::{
    Access, AccessValue, Color, Config, Designated, Direction, DrivingSide, HighwayType, Infer,
    Lane, Locale, Marking, Markings, Metre, Oneway, Printable, Style, Tags, WaySide,
};

fn locale() -> Locale {
    Locale::new(DrivingSide::Right, true)
}

fn travel(designated: Designated, width: Option<Metre>) -> Lane {
    Lane::Travel {
        direction: Some(Direction::Forward),
        designated,
        width,
        max_speed: None,
        access: None,
    }
}

#[test]
fn width_is_the_stated_one_or_the_default() {
    let l = locale();
    assert_eq!(travel(Designated::Motor, None).width(&l, HighwayType::Motorway).val(), 3500);
    assert_eq!(travel(Designated::Bus, None).width(&l, HighwayType::Primary).val(), 3500);
    assert_eq!(travel(Designated::Bicycle, None).width(&l, HighwayType::Primary).val(), 1500);
    assert_eq!(travel(Designated::Bicycle, None).width(&l, HighwayType::Cycleway).val(), 2000);
    assert_eq!(travel(Designated::Foot, None).width(&l, HighwayType::Footway).val(), 2000);
    assert_eq!(travel(Designated::Foot, None).width(&l, HighwayType::Residential).val(), 1500);
    assert_eq!(
        travel(Designated::Motor, Some(Metre::from_millimetres(2750)))
            .width(&l, HighwayType::Motorway)
            .val(),
        2750
    );
    let parking = Lane::Parking {
        direction: Direction::Forward,
        designated: Designated::Motor,
        width: None,
    };
    assert_eq!(parking.width(&l, HighwayType::Residential).val(), 3500);
    assert_eq!(Lane::Shoulder { width: None }.width(&l, HighwayType::Residential).val(), 3500);
    assert_eq!(
        Lane::Shoulder { width: Some(Metre::from_millimetres(900)) }
            .width(&l, HighwayType::Residential)
            .val(),
        900
    );
}

#[test]
fn separator_width_is_the_sum_of_its_markings() {
    let markings = Markings::new(vec![
        Marking::new(Style::SolidLine, Some(Color::Yellow)),
        Marking { style: Style::BrokenLine, color: None, width: Some(Metre::from_millimetres(150)) },
        Marking::new(Style::KerbUp, None),
    ]);
    assert_eq!(markings.width(&locale()).val(), 550);
    assert_eq!(Lane::Separator { markings }.width(&locale(), HighwayType::Primary).val(), 550);
    assert_eq!(Markings::new(vec![]).width(&locale()).val(), 0);
}

#[test]
fn mirror_flips_separators_only() {
    let lane = travel(Designated::Motor, None);
    assert_eq!(lane.clone().mirror(), lane);
    let separator = Lane::Separator {
        markings: Markings::new(vec![
            Marking::new(Style::KerbUp, None),
            Marking::new(Style::SolidLine, Some(Color::White)),
            Marking::new(Style::BrokenLine, Some(Color::Yellow)),
        ]),
    };
    let mirrored = separator.clone().mirror();
    assert_eq!(
        mirrored,
        Lane::Separator {
            markings: Markings::new(vec![
                Marking::new(Style::BrokenLine, Some(Color::Yellow)),
                Marking::new(Style::SolidLine, Some(Color::White)),
                Marking::new(Style::KerbUp, None),
            ]),
        }
    );
    assert_eq!(mirrored.mirror(), separator);
    let kerbs = Lane::Separator {
        markings: Markings::new(vec![
            Marking::new(Style::KerbDown, None),
            Marking { style: Style::KerbUp, color: None, width: Some(Metre::from_millimetres(150)) },
        ]),
    };
    assert_eq!(
        kerbs.mirror(),
        Lane::Separator {
            markings: Markings::new(vec![
                Marking { style: Style::KerbUp, color: None, width: Some(Metre::from_millimetres(150)) },
                Marking::new(Style::KerbDown, None),
            ]),
        }
    );
}

#[test]
fn markings_can_be_read_one_by_one() {
    let markings = Markings::new(vec![Marking::new(Style::DashedLine, Some(Color::White))]);
    assert_eq!(markings.len(), 1);
    assert_eq!(markings.get(0), Some(Marking::new(Style::DashedLine, Some(Color::White))));
    assert_eq!(markings.get(1), None);
}

#[test]
fn lanes_print_as_characters() {
    assert_eq!(travel(Designated::Foot, None).as_ascii(), 's');
    assert_eq!(travel(Designated::Bicycle, None).as_ascii(), 'b');
    assert_eq!(travel(Designated::Motor, None).as_ascii(), 'd');
    assert_eq!(travel(Designated::Bus, None).as_ascii(), 'B');
    assert_eq!(Lane::Shoulder { width: None }.as_ascii(), 'S');
    let parking = Lane::Parking {
        direction: Direction::Backward,
        designated: Designated::Motor,
        width: None,
    };
    assert_eq!(parking.as_ascii(), 'p');
    assert_eq!(parking.as_utf8(), '🅿');
    assert_eq!(Lane::Separator { markings: Markings::new(vec![]) }.as_ascii(), '|');
    assert_eq!(Lane::Separator { markings: Markings::new(vec![]) }.as_utf8(), '|');
    assert_eq!(travel(Designated::Foot, None).as_utf8(), '🚶');
    assert_eq!(travel(Designated::Bicycle, None).as_utf8(), '🚲');
    assert_eq!(travel(Designated::Motor, None).as_utf8(), '🚗');
    assert_eq!(travel(Designated::Bus, None).as_utf8(), '🚌');
    assert_eq!(Lane::Shoulder { width: None }.as_utf8(), '🛆');
}

#[test]
fn directions_print_as_characters() {
    assert_eq!(Direction::Forward.as_ascii(), '^');
    assert_eq!(Direction::Backward.as_ascii(), 'v');
    assert_eq!(Direction::Both.as_ascii(), '|');
    assert_eq!(Direction::Forward.as_utf8(), '↑');
    assert_eq!(Direction::Backward.as_utf8(), '↓');
    assert_eq!(Direction::Both.as_utf8(), '↕');
}

#[test]
fn is_foot_tells_sidewalks() {
    assert!(travel(Designated::Foot, None).is_foot());
    assert!(!travel(Designated::Bicycle, None).is_foot());
    assert!(!Lane::Shoulder { width: None }.is_foot());
}

#[test]
fn access_holds_a_value_per_mode() {
    let access = Access {
        foot: Some(AccessValue::Yes),
        bicycle: None,
        taxi: None,
        bus: Some(AccessValue::Designated),
        motor: Some(AccessValue::No),
    };
    assert_eq!(access.clone(), access);
    assert_eq!(access.bicycle, None);
}

#[test]
fn infer_some_gives_the_value_at_any_level() {
    assert_eq!(Infer::<u8>::Absent.some(), None);
    assert_eq!(Infer::Default(1u8).some(), Some(1));
    assert_eq!(Infer::Calculated(2u8).some(), Some(2));
    assert_eq!(Infer::Direct(3u8).some(), Some(3));
    assert_eq!(Infer::direct(Some(4u8)), Infer::Direct(4));
    assert_eq!(Infer::<u8>::direct(None), Infer::Absent);
    assert_eq!(Infer::<u8>::default(), Infer::Absent);
}

#[test]
fn infer_map_keeps_the_level() {
    assert_eq!(Infer::<u8>::Absent.map(|x| x + 1), Infer::Absent);
    assert_eq!(Infer::Default(1u8).map(|x| x + 1), Infer::Default(2));
    assert_eq!(Infer::Calculated(1u8).map(|x| x + 1), Infer::Calculated(2));
    assert_eq!(Infer::Direct(1u8).map(|x| x.to_string()), Infer::Direct("1".to_string()));
}

#[test]
fn infer_set_never_lowers_the_level() {
    let mut value = Infer::Calculated(1u8);
    assert!(!value.set(Infer::Default(2)));
    assert_eq!(value, Infer::Calculated(1));
    assert!(!value.set(Infer::Absent));
    assert_eq!(value, Infer::Calculated(1));
    assert!(value.set(Infer::Calculated(3)));
    assert_eq!(value, Infer::Calculated(3));
    assert!(value.set(Infer::Direct(4)));
    assert_eq!(value, Infer::Direct(4));
    let mut empty = Infer::<u8>::Absent;
    assert!(empty.set(Infer::Default(9)));
    assert_eq!(empty, Infer::Default(9));
}

#[test]
fn oneway_converts_to_and_from_bool() {
    assert_eq!(Oneway::from(true), Oneway::Yes);
    assert_eq!(Oneway::from(false), Oneway::No);
    assert!(bool::from(Oneway::Yes));
    assert!(!bool::from(Oneway::No));
}

#[test]
fn config_keeps_its_options() {
    let config = Config::new(true, false);
    assert!(config.error_on_warnings);
    assert!(!config.include_separators);
    let config = Config::default();
    assert!(!config.error_on_warnings);
    assert!(config.include_separators);
}

#[test]
fn driving_side_names_its_tag() {
    assert_eq!(DrivingSide::Right.tag().as_str(), "right");
    assert_eq!(DrivingSide::Left.tag().as_str(), "left");
    assert_eq!(DrivingSide::Right.opposite(), DrivingSide::Left);
    assert_eq!(DrivingSide::Left.opposite().tag().as_str(), "right");
    assert_eq!(WaySide::from(DrivingSide::Left), WaySide::Left);
    assert_eq!(WaySide::from(DrivingSide::Right), WaySide::Right);
    assert_eq!(WaySide::Both.as_str(), "both");
    assert_eq!(WaySide::Left.to_string(), "left");
    assert_eq!(Locale::default(), Locale::new(DrivingSide::Right, true));
}

#[test]
fn highway_class_is_read_from_the_tags() {
    let mut tags = Tags::new();
    assert_eq!(HighwayType::from_tags(&tags), HighwayType::Other);
    tags.insert("highway", "living_street");
    assert_eq!(HighwayType::from_tags(&tags), HighwayType::LivingStreet);
    assert_eq!(HighwayType::from_value("motorway_link"), HighwayType::MotorwayLink);
    assert_eq!(HighwayType::from_value("yes"), HighwayType::Other);
    assert_eq!(HighwayType::from_value("steps"), HighwayType::Steps);
}
