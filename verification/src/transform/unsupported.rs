use vstd::prelude::*;
use crate::locale::Locale;
use crate::tag::{str_views, tag_is, Tags};
use crate::transform::error::{message, unimplemented_tag_message, MsgKind, RoadError, RoadErrorView, RoadMsg, RoadMsgView, RoadWarnings};

verus! {

/// The keys that restrict access by mode of transport.
pub open spec fn access_keys() -> Seq<Seq<char>> {
    seq![
        "access"@,
        "dog"@,
        "ski"@,
        "inline_skates"@,
        "horse"@,
        "vehicle"@,
        "bicycle"@,
        "electric_bicycle"@,
        "carriage"@,
        "hand_cart"@,
        "quadracycle"@,
        "trailer"@,
        "caravan"@,
        "motor_vehicle"@,
        "motorcycle"@,
        "moped"@,
        "mofa"@,
        "motorcar"@,
        "motorhome"@,
        "tourist_bus"@,
        "coach"@,
        "goods"@,
        "hgv"@,
        "hgv_articulated"@,
        "bdouble"@,
        "agricultural"@,
        "golf_cart"@,
        "atv"@,
        "snowmobile"@,
        "psv"@,
        "bus"@,
        "taxi"@,
        "minibus"@,
        "share_taxi"@,
        "hov"@,
        "car_sharing"@,
        "emergency"@,
        "hazmat"@,
        "disabled"@,
        "roadtrain"@,
        "hgv_caravan"@,
        "lhv"@,
        "tank"@,
    ]
}

/// Whether the tags hold any access key.
pub open spec fn restricts_access(tags: Map<Seq<char>, Seq<char>>) -> bool {
    exists|i: int| 0 <= i < access_keys().len() && tags.contains_key(#[trigger] access_keys()[i])
}

/// The warnings after the check for tags that are not read: one more,
/// naming the access tags, if there are any.
pub open spec fn unsupported_warnings(
    tags: Map<Seq<char>, Seq<char>>,
    warnings: Seq<RoadMsgView>,
) -> Seq<RoadMsgView> {
    if restricts_access(tags) {
        warnings.push(
            message(MsgKind::Unimplemented, "access"@, tags.restrict(access_keys().to_set())),
        )
    } else {
        warnings
    }
}

/// The error of the check for tags that are not read: a reversible oneway
/// stops the inference.
pub open spec fn unsupported_error(tags: Map<Seq<char>, Seq<char>>) -> Option<RoadErrorView> {
    if tag_is(tags, "oneway"@, "reversible"@) {
        Some(RoadErrorView::Msg(unimplemented_tag_message("oneway"@, "reversible"@)))
    } else {
        None
    }
}

/// Looks for tags that the inference does not read: access tags give a
/// warning, a reversible oneway an error.
pub fn unsupported(tags: &Tags, _locale: &Locale, warnings: &mut RoadWarnings) -> (result: Result<
    (),
    RoadError,
>)
    ensures
        final(warnings)@ == unsupported_warnings(tags@, old(warnings)@),
        match result {
            Ok(_) => unsupported_error(tags@) is None,
            Err(e) => unsupported_error(tags@) == Some(e@),
        },
{
    let keys = [
        "access",
        "dog",
        "ski",
        "inline_skates",
        "horse",
        "vehicle",
        "bicycle",
        "electric_bicycle",
        "carriage",
        "hand_cart",
        "quadracycle",
        "trailer",
        "caravan",
        "motor_vehicle",
        "motorcycle",
        "moped",
        "mofa",
        "motorcar",
        "motorhome",
        "tourist_bus",
        "coach",
        "goods",
        "hgv",
        "hgv_articulated",
        "bdouble",
        "agricultural",
        "golf_cart",
        "atv",
        "snowmobile",
        "psv",
        "bus",
        "taxi",
        "minibus",
        "share_taxi",
        "hov",
        "car_sharing",
        "emergency",
        "hazmat",
        "disabled",
        "roadtrain",
        "hgv_caravan",
        "lhv",
        "tank",
    ];
    assert(str_views(keys@) =~= access_keys());
    let mut any = false;
    let mut i: usize = 0;
    while i < keys.len()
        invariant
            i <= keys.len(),
            keys.len() == 43,
            str_views(keys@) == access_keys(),
            any == exists|j: int| 0 <= j < i && tags@.contains_key(#[trigger] access_keys()[j]),
        decreases keys.len() - i,
    {
        assert(str_views(keys@)[i as int] == keys[i as int]@);
        if tags.get(keys[i]).is_some() {
            any = true;
        }
        i += 1;
    }
    if any {
        warnings.push(RoadMsg::unimplemented("access", tags.subset(&keys)));
    }
    if tags.is("oneway", "reversible") {
        return Err(RoadError::Msg(RoadMsg::unimplemented_tag("oneway", "reversible")));
    }
    Ok(())
}

} // verus!
