use vstd::prelude::*;
use crate::tag::{has_subtree, key_join, key_under, tag_get};
use crate::transform::unsupported::access_keys;

verus! {

/// The key that says of the other side of the way what `key` says of one
/// side. A key that names no side is its own mirror image.
pub open spec fn mirror_key(key: Seq<char>) -> Seq<char> {
    if key == "busway:left"@ {
        "busway:right"@
    } else if key == "busway:right"@ {
        "busway:left"@
    } else if key == "cycleway:left"@ {
        "cycleway:right"@
    } else if key == "cycleway:right"@ {
        "cycleway:left"@
    } else if key == "cycleway:left:oneway"@ {
        "cycleway:right:oneway"@
    } else if key == "cycleway:right:oneway"@ {
        "cycleway:left:oneway"@
    } else if key == "cycleway:left:separation:left"@ {
        "cycleway:right:separation:right"@
    } else if key == "cycleway:right:separation:right"@ {
        "cycleway:left:separation:left"@
    } else if key == "cycleway:left:separation:right"@ {
        "cycleway:right:separation:left"@
    } else if key == "cycleway:right:separation:left"@ {
        "cycleway:left:separation:right"@
    } else if key == "parking:lane:left"@ {
        "parking:lane:right"@
    } else if key == "parking:lane:right"@ {
        "parking:lane:left"@
    } else if key == "lanes:bus:left"@ {
        "lanes:bus:right"@
    } else if key == "lanes:bus:right"@ {
        "lanes:bus:left"@
    } else if key == "lanes:psv:left"@ {
        "lanes:psv:right"@
    } else if key == "lanes:psv:right"@ {
        "lanes:psv:left"@
    } else {
        key
    }
}

/// The value that says of the other side of the way what `value` says under
/// `key`: `left` and `right` change places in the value of `sidewalk`.
pub open spec fn mirror_value(key: Seq<char>, value: Seq<char>) -> Seq<char> {
    if key == "sidewalk"@ && value == "left"@ {
        "right"@
    } else if key == "sidewalk"@ && value == "right"@ {
        "left"@
    } else {
        value
    }
}

/// The tags of the way seen in a mirror: what was said of the left is said
/// of the right, and the other way round.
pub open spec fn mirror_tags(tags: Map<Seq<char>, Seq<char>>) -> Map<Seq<char>, Seq<char>> {
    Map::new(
        |key: Seq<char>| tags.contains_key(mirror_key(key)),
        |key: Seq<char>| mirror_value(key, tags[mirror_key(key)]),
    )
}

/// Whether `key` names no side, and is not the key whose value names one.
pub open spec fn plain(key: Seq<char>) -> bool {
    mirror_key(key) == key && key != "sidewalk"@
}

/// Whether two tag stores hold the same under `key`.
pub open spec fn reads_alike(
    tags: Map<Seq<char>, Seq<char>>,
    other: Map<Seq<char>, Seq<char>>,
    key: Seq<char>,
) -> bool {
    tag_get(other, key) == tag_get(tags, key)
}

/// Whether `other` holds under `there` what `tags` holds under `here`.
pub open spec fn reads_across(
    tags: Map<Seq<char>, Seq<char>>,
    other: Map<Seq<char>, Seq<char>>,
    here: Seq<char>,
    there: Seq<char>,
) -> bool {
    tag_get(other, there) == tag_get(tags, here)
}

/// The mirrored tags hold under a plain key what the tags hold.
pub proof fn lemma_plain(tags: Map<Seq<char>, Seq<char>>, key: Seq<char>)
    requires
        plain(key),
    ensures
        reads_alike(tags, mirror_tags(tags), key),
{
}

/// The mirrored tags hold under the mirror image of a key what the tags
/// hold under the key, where the key is not `sidewalk`.
pub proof fn lemma_across(tags: Map<Seq<char>, Seq<char>>, here: Seq<char>, there: Seq<char>)
    requires
        mirror_key(there) == here,
        there != "sidewalk"@,
    ensures
        reads_across(tags, mirror_tags(tags), here, there),
{
}

/// How long the keys with a side are, and the key `sidewalk`.
pub proof fn lemma_sided_key_lengths()
    ensures
        "busway:left"@.len() == 11,
        "busway:right"@.len() == 12,
        "cycleway:left"@.len() == 13,
        "cycleway:right"@.len() == 14,
        "cycleway:left:oneway"@.len() == 20,
        "cycleway:right:oneway"@.len() == 21,
        "cycleway:left:separation:left"@.len() == 29,
        "cycleway:right:separation:right"@.len() == 31,
        "cycleway:left:separation:right"@.len() == 30,
        "cycleway:right:separation:left"@.len() == 30,
        "parking:lane:left"@.len() == 17,
        "parking:lane:right"@.len() == 18,
        "lanes:bus:left"@.len() == 14,
        "lanes:bus:right"@.len() == 15,
        "lanes:psv:left"@.len() == 14,
        "lanes:psv:right"@.len() == 15,
        "sidewalk"@.len() == 8,
{
    reveal_strlit("busway:left");
    reveal_strlit("busway:right");
    reveal_strlit("cycleway:left");
    reveal_strlit("cycleway:right");
    reveal_strlit("cycleway:left:oneway");
    reveal_strlit("cycleway:right:oneway");
    reveal_strlit("cycleway:left:separation:left");
    reveal_strlit("cycleway:right:separation:right");
    reveal_strlit("cycleway:left:separation:right");
    reveal_strlit("cycleway:right:separation:left");
    reveal_strlit("parking:lane:left");
    reveal_strlit("parking:lane:right");
    reveal_strlit("lanes:bus:left");
    reveal_strlit("lanes:bus:right");
    reveal_strlit("lanes:psv:left");
    reveal_strlit("lanes:psv:right");
    reveal_strlit("sidewalk");
}

/// The keys that describe the way as a whole name no side.
pub proof fn lemma_plain_way_keys()
    ensures
        plain("highway"@),
        plain("oneway"@),
        plain("junction"@),
        plain("foot"@),
        plain("bicycle"@),
        plain("motorroad"@),
        plain("access"@),
        plain("bus"@),
        plain("psv"@),
        plain("motor_vehicle:conditional"@),
{
    lemma_sided_key_lengths();
    reveal_strlit("highway");
    reveal_strlit("oneway");
    reveal_strlit("junction");
    reveal_strlit("foot");
    reveal_strlit("bicycle");
    reveal_strlit("motorroad");
    reveal_strlit("access");
    reveal_strlit("bus");
    reveal_strlit("psv");
    reveal_strlit("motor_vehicle:conditional");
    reveal_strlit("sidewalk");
    assert("highway"@.len() == 7);
    assert("oneway"@.len() == 6);
    assert("junction"@.len() == 8);
    assert("foot"@.len() == 4);
    assert("bicycle"@.len() == 7);
    assert("motorroad"@.len() == 9);
    assert("access"@.len() == 6);
    assert("bus"@.len() == 3);
    assert("psv"@.len() == 3);
    assert("motor_vehicle:conditional"@.len() == 25);
    assert("junction"@[0] != "sidewalk"@[0]);
}

/// The keys that count lanes name no side.
pub proof fn lemma_plain_count_keys()
    ensures
        plain("lanes"@),
        plain("lanes:forward"@),
        plain("lanes:backward"@),
        plain("lanes:both_ways"@),
        plain("centre_turn_lane"@),
{
    lemma_sided_key_lengths();
    reveal_strlit("lanes");
    reveal_strlit("lanes:forward");
    reveal_strlit("lanes:backward");
    reveal_strlit("lanes:both_ways");
    reveal_strlit("centre_turn_lane");
    reveal_strlit("cycleway:left");
    reveal_strlit("cycleway:right");
    reveal_strlit("lanes:bus:left");
    reveal_strlit("lanes:bus:right");
    reveal_strlit("lanes:psv:left");
    reveal_strlit("lanes:psv:right");
    assert("lanes"@.len() == 5);
    assert("lanes:forward"@.len() == 13);
    assert("lanes:backward"@.len() == 14);
    assert("lanes:both_ways"@.len() == 15);
    assert("centre_turn_lane"@.len() == 16);
    assert("lanes:forward"@[0] != "cycleway:left"@[0]);
    assert("lanes:backward"@[0] != "cycleway:right"@[0]);
    assert("lanes:backward"@[7] != "lanes:bus:left"@[7]);
    assert("lanes:backward"@[6] != "lanes:psv:left"@[6]);
    assert("lanes:both_ways"@[7] != "lanes:bus:right"@[7]);
    assert("lanes:both_ways"@[6] != "lanes:psv:right"@[6]);
}

/// The keys of the bus schemes that are read name no side.
pub proof fn lemma_plain_bus_keys()
    ensures
        plain("busway"@),
        plain("busway:both"@),
        plain("oneway:bus"@),
        plain("bus:lanes:forward"@),
        plain("psv:lanes:forward"@),
        plain("bus:lanes"@),
        plain("psv:lanes"@),
        plain("bus:lanes:backward"@),
        plain("psv:lanes:backward"@),
{
    lemma_sided_key_lengths();
    reveal_strlit("busway");
    reveal_strlit("busway:both");
    reveal_strlit("oneway:bus");
    reveal_strlit("bus:lanes:forward");
    reveal_strlit("psv:lanes:forward");
    reveal_strlit("bus:lanes");
    reveal_strlit("psv:lanes");
    reveal_strlit("bus:lanes:backward");
    reveal_strlit("psv:lanes:backward");
    reveal_strlit("busway:left");
    reveal_strlit("parking:lane:left");
    reveal_strlit("parking:lane:right");
    assert("busway"@.len() == 6);
    assert("busway:both"@.len() == 11);
    assert("oneway:bus"@.len() == 10);
    assert("bus:lanes:forward"@.len() == 17);
    assert("psv:lanes:forward"@.len() == 17);
    assert("bus:lanes"@.len() == 9);
    assert("psv:lanes"@.len() == 9);
    assert("bus:lanes:backward"@.len() == 18);
    assert("psv:lanes:backward"@.len() == 18);
    assert("busway:both"@[7] != "busway:left"@[7]);
    assert("bus:lanes:forward"@[0] != "parking:lane:left"@[0]);
    assert("psv:lanes:forward"@[1] != "parking:lane:left"@[1]);
    assert("bus:lanes:backward"@[0] != "parking:lane:right"@[0]);
    assert("psv:lanes:backward"@[1] != "parking:lane:right"@[1]);
}

/// The cycleway and parking keys for the whole way or for both sides name no side.
pub proof fn lemma_plain_cycle_keys()
    ensures
        plain("cycleway"@),
        plain("cycleway:both"@),
        plain("oneway:bicycle"@),
        plain("parking:lane:both"@),
{
    lemma_sided_key_lengths();
    reveal_strlit("cycleway");
    reveal_strlit("cycleway:both");
    reveal_strlit("oneway:bicycle");
    reveal_strlit("parking:lane:both");
    reveal_strlit("cycleway:left");
    reveal_strlit("cycleway:right");
    reveal_strlit("parking:lane:left");
    reveal_strlit("lanes:bus:left");
    reveal_strlit("lanes:psv:left");
    reveal_strlit("sidewalk");
    assert("cycleway"@.len() == 8);
    assert("cycleway:both"@.len() == 13);
    assert("oneway:bicycle"@.len() == 14);
    assert("parking:lane:both"@.len() == 17);
    assert("cycleway"@[0] != "sidewalk"@[0]);
    assert("cycleway:both"@[9] != "cycleway:left"@[9]);
    assert("oneway:bicycle"@[0] != "cycleway:right"@[0]);
    assert("oneway:bicycle"@[0] != "lanes:bus:left"@[0]);
    assert("oneway:bicycle"@[0] != "lanes:psv:left"@[0]);
    assert("parking:lane:both"@[13] != "parking:lane:left"@[13]);
}

/// The keys that count bus lanes for the way or for a direction name no side.
pub proof fn lemma_plain_counted_bus_keys()
    ensures
        plain("lanes:psv"@),
        plain("lanes:psv:forward"@),
        plain("lanes:psv:backward"@),
        plain("lanes:bus"@),
        plain("lanes:bus:forward"@),
        plain("lanes:bus:backward"@),
{
    lemma_sided_key_lengths();
    reveal_strlit("lanes:psv");
    reveal_strlit("lanes:psv:forward");
    reveal_strlit("lanes:psv:backward");
    reveal_strlit("lanes:bus");
    reveal_strlit("lanes:bus:forward");
    reveal_strlit("lanes:bus:backward");
    reveal_strlit("parking:lane:left");
    reveal_strlit("parking:lane:right");
    assert("lanes:psv"@.len() == 9);
    assert("lanes:psv:forward"@.len() == 17);
    assert("lanes:psv:backward"@.len() == 18);
    assert("lanes:bus"@.len() == 9);
    assert("lanes:bus:forward"@.len() == 17);
    assert("lanes:bus:backward"@.len() == 18);
    assert("lanes:psv:forward"@[0] != "parking:lane:left"@[0]);
    assert("lanes:psv:backward"@[0] != "parking:lane:right"@[0]);
    assert("lanes:bus:forward"@[0] != "parking:lane:left"@[0]);
    assert("lanes:bus:backward"@[0] != "parking:lane:right"@[0]);
}

proof fn lemma_plain_access_keys_0()
    ensures
        plain("access"@),
        plain("dog"@),
        plain("ski"@),
        plain("inline_skates"@),
        plain("horse"@),
        plain("vehicle"@),
        plain("bicycle"@),
        plain("electric_bicycle"@),
        plain("carriage"@),
        plain("hand_cart"@),
        plain("quadracycle"@),
{
    lemma_sided_key_lengths();
    reveal_strlit("access");
    reveal_strlit("dog");
    reveal_strlit("ski");
    reveal_strlit("inline_skates");
    reveal_strlit("horse");
    reveal_strlit("vehicle");
    reveal_strlit("bicycle");
    reveal_strlit("electric_bicycle");
    reveal_strlit("carriage");
    reveal_strlit("hand_cart");
    reveal_strlit("quadracycle");
    reveal_strlit("busway:left");
    reveal_strlit("cycleway:left");
    reveal_strlit("sidewalk");
    assert("access"@.len() == 6);
    assert("dog"@.len() == 3);
    assert("ski"@.len() == 3);
    assert("inline_skates"@.len() == 13);
    assert("horse"@.len() == 5);
    assert("vehicle"@.len() == 7);
    assert("bicycle"@.len() == 7);
    assert("electric_bicycle"@.len() == 16);
    assert("carriage"@.len() == 8);
    assert("hand_cart"@.len() == 9);
    assert("quadracycle"@.len() == 11);
    assert("inline_skates"@[0] != "cycleway:left"@[0]);
    assert("carriage"@[0] != "sidewalk"@[0]);
    assert("quadracycle"@[0] != "busway:left"@[0]);
}

proof fn lemma_plain_access_keys_1()
    ensures
        plain("trailer"@),
        plain("caravan"@),
        plain("motor_vehicle"@),
        plain("motorcycle"@),
        plain("moped"@),
        plain("mofa"@),
        plain("motorcar"@),
        plain("motorhome"@),
        plain("tourist_bus"@),
        plain("coach"@),
        plain("goods"@),
{
    lemma_sided_key_lengths();
    reveal_strlit("trailer");
    reveal_strlit("caravan");
    reveal_strlit("motor_vehicle");
    reveal_strlit("motorcycle");
    reveal_strlit("moped");
    reveal_strlit("mofa");
    reveal_strlit("motorcar");
    reveal_strlit("motorhome");
    reveal_strlit("tourist_bus");
    reveal_strlit("coach");
    reveal_strlit("goods");
    reveal_strlit("busway:left");
    reveal_strlit("cycleway:left");
    reveal_strlit("sidewalk");
    assert("trailer"@.len() == 7);
    assert("caravan"@.len() == 7);
    assert("motor_vehicle"@.len() == 13);
    assert("motorcycle"@.len() == 10);
    assert("moped"@.len() == 5);
    assert("mofa"@.len() == 4);
    assert("motorcar"@.len() == 8);
    assert("motorhome"@.len() == 9);
    assert("tourist_bus"@.len() == 11);
    assert("coach"@.len() == 5);
    assert("goods"@.len() == 5);
    assert("motor_vehicle"@[0] != "cycleway:left"@[0]);
    assert("motorcar"@[0] != "sidewalk"@[0]);
    assert("tourist_bus"@[0] != "busway:left"@[0]);
}

proof fn lemma_plain_access_keys_2()
    ensures
        plain("hgv"@),
        plain("hgv_articulated"@),
        plain("bdouble"@),
        plain("agricultural"@),
        plain("golf_cart"@),
        plain("atv"@),
        plain("snowmobile"@),
        plain("psv"@),
        plain("bus"@),
        plain("taxi"@),
        plain("minibus"@),
{
    lemma_sided_key_lengths();
    reveal_strlit("hgv");
    reveal_strlit("hgv_articulated");
    reveal_strlit("bdouble");
    reveal_strlit("agricultural");
    reveal_strlit("golf_cart");
    reveal_strlit("atv");
    reveal_strlit("snowmobile");
    reveal_strlit("psv");
    reveal_strlit("bus");
    reveal_strlit("taxi");
    reveal_strlit("minibus");
    reveal_strlit("busway:right");
    reveal_strlit("lanes:bus:right");
    reveal_strlit("lanes:psv:right");
    assert("hgv"@.len() == 3);
    assert("hgv_articulated"@.len() == 15);
    assert("bdouble"@.len() == 7);
    assert("agricultural"@.len() == 12);
    assert("golf_cart"@.len() == 9);
    assert("atv"@.len() == 3);
    assert("snowmobile"@.len() == 10);
    assert("psv"@.len() == 3);
    assert("bus"@.len() == 3);
    assert("taxi"@.len() == 4);
    assert("minibus"@.len() == 7);
    assert("hgv_articulated"@[0] != "lanes:bus:right"@[0]);
    assert("hgv_articulated"@[0] != "lanes:psv:right"@[0]);
    assert("agricultural"@[0] != "busway:right"@[0]);
}

proof fn lemma_plain_access_keys_3()
    ensures
        plain("share_taxi"@),
        plain("hov"@),
        plain("car_sharing"@),
        plain("emergency"@),
        plain("hazmat"@),
        plain("disabled"@),
        plain("roadtrain"@),
        plain("hgv_caravan"@),
        plain("lhv"@),
        plain("tank"@),
{
    lemma_sided_key_lengths();
    reveal_strlit("share_taxi");
    reveal_strlit("hov");
    reveal_strlit("car_sharing");
    reveal_strlit("emergency");
    reveal_strlit("hazmat");
    reveal_strlit("disabled");
    reveal_strlit("roadtrain");
    reveal_strlit("hgv_caravan");
    reveal_strlit("lhv");
    reveal_strlit("tank");
    reveal_strlit("busway:left");
    reveal_strlit("sidewalk");
    assert("share_taxi"@.len() == 10);
    assert("hov"@.len() == 3);
    assert("car_sharing"@.len() == 11);
    assert("emergency"@.len() == 9);
    assert("hazmat"@.len() == 6);
    assert("disabled"@.len() == 8);
    assert("roadtrain"@.len() == 9);
    assert("hgv_caravan"@.len() == 11);
    assert("lhv"@.len() == 3);
    assert("tank"@.len() == 4);
    assert("car_sharing"@[0] != "busway:left"@[0]);
    assert("disabled"@[0] != "sidewalk"@[0]);
    assert("hgv_caravan"@[0] != "busway:left"@[0]);
}

/// No access key names a side.
pub proof fn lemma_access_keys_plain()
    ensures
        forall|i: int| 0 <= i < access_keys().len() ==> plain(#[trigger] access_keys()[i]),
{
    lemma_plain_access_keys_0();
    lemma_plain_access_keys_1();
    lemma_plain_access_keys_2();
    lemma_plain_access_keys_3();
    let keys = access_keys();
    assert(keys.len() == 43);
    assert(keys[0] == "access"@);
    assert(keys[1] == "dog"@);
    assert(keys[2] == "ski"@);
    assert(keys[3] == "inline_skates"@);
    assert(keys[4] == "horse"@);
    assert(keys[5] == "vehicle"@);
    assert(keys[6] == "bicycle"@);
    assert(keys[7] == "electric_bicycle"@);
    assert(keys[8] == "carriage"@);
    assert(keys[9] == "hand_cart"@);
    assert(keys[10] == "quadracycle"@);
    assert(keys[11] == "trailer"@);
    assert(keys[12] == "caravan"@);
    assert(keys[13] == "motor_vehicle"@);
    assert(keys[14] == "motorcycle"@);
    assert(keys[15] == "moped"@);
    assert(keys[16] == "mofa"@);
    assert(keys[17] == "motorcar"@);
    assert(keys[18] == "motorhome"@);
    assert(keys[19] == "tourist_bus"@);
    assert(keys[20] == "coach"@);
    assert(keys[21] == "goods"@);
    assert(keys[22] == "hgv"@);
    assert(keys[23] == "hgv_articulated"@);
    assert(keys[24] == "bdouble"@);
    assert(keys[25] == "agricultural"@);
    assert(keys[26] == "golf_cart"@);
    assert(keys[27] == "atv"@);
    assert(keys[28] == "snowmobile"@);
    assert(keys[29] == "psv"@);
    assert(keys[30] == "bus"@);
    assert(keys[31] == "taxi"@);
    assert(keys[32] == "minibus"@);
    assert(keys[33] == "share_taxi"@);
    assert(keys[34] == "hov"@);
    assert(keys[35] == "car_sharing"@);
    assert(keys[36] == "emergency"@);
    assert(keys[37] == "hazmat"@);
    assert(keys[38] == "disabled"@);
    assert(keys[39] == "roadtrain"@);
    assert(keys[40] == "hgv_caravan"@);
    assert(keys[41] == "lhv"@);
    assert(keys[42] == "tank"@);
    assert forall|i: int| 0 <= i < keys.len() implies plain(#[trigger] keys[i]) by {
        if i == 0 {
            assert(plain(keys[0]));
        }
        if i == 1 {
            assert(plain(keys[1]));
        }
        if i == 2 {
            assert(plain(keys[2]));
        }
        if i == 3 {
            assert(plain(keys[3]));
        }
        if i == 4 {
            assert(plain(keys[4]));
        }
        if i == 5 {
            assert(plain(keys[5]));
        }
        if i == 6 {
            assert(plain(keys[6]));
        }
        if i == 7 {
            assert(plain(keys[7]));
        }
        if i == 8 {
            assert(plain(keys[8]));
        }
        if i == 9 {
            assert(plain(keys[9]));
        }
        if i == 10 {
            assert(plain(keys[10]));
        }
        if i == 11 {
            assert(plain(keys[11]));
        }
        if i == 12 {
            assert(plain(keys[12]));
        }
        if i == 13 {
            assert(plain(keys[13]));
        }
        if i == 14 {
            assert(plain(keys[14]));
        }
        if i == 15 {
            assert(plain(keys[15]));
        }
        if i == 16 {
            assert(plain(keys[16]));
        }
        if i == 17 {
            assert(plain(keys[17]));
        }
        if i == 18 {
            assert(plain(keys[18]));
        }
        if i == 19 {
            assert(plain(keys[19]));
        }
        if i == 20 {
            assert(plain(keys[20]));
        }
        if i == 21 {
            assert(plain(keys[21]));
        }
        if i == 22 {
            assert(plain(keys[22]));
        }
        if i == 23 {
            assert(plain(keys[23]));
        }
        if i == 24 {
            assert(plain(keys[24]));
        }
        if i == 25 {
            assert(plain(keys[25]));
        }
        if i == 26 {
            assert(plain(keys[26]));
        }
        if i == 27 {
            assert(plain(keys[27]));
        }
        if i == 28 {
            assert(plain(keys[28]));
        }
        if i == 29 {
            assert(plain(keys[29]));
        }
        if i == 30 {
            assert(plain(keys[30]));
        }
        if i == 31 {
            assert(plain(keys[31]));
        }
        if i == 32 {
            assert(plain(keys[32]));
        }
        if i == 33 {
            assert(plain(keys[33]));
        }
        if i == 34 {
            assert(plain(keys[34]));
        }
        if i == 35 {
            assert(plain(keys[35]));
        }
        if i == 36 {
            assert(plain(keys[36]));
        }
        if i == 37 {
            assert(plain(keys[37]));
        }
        if i == 38 {
            assert(plain(keys[38]));
        }
        if i == 39 {
            assert(plain(keys[39]));
        }
        if i == 40 {
            assert(plain(keys[40]));
        }
        if i == 41 {
            assert(plain(keys[41]));
        }
        if i == 42 {
            assert(plain(keys[42]));
        }
    }
}

/// Mirroring a key twice gives the key back.
pub proof fn lemma_mirror_key_twice(key: Seq<char>)
    ensures
        mirror_key(mirror_key(key)) == key,
{
    lemma_sided_key_lengths();
    reveal_strlit("cycleway:right");
    reveal_strlit("cycleway:left:separation:right");
    reveal_strlit("cycleway:right:separation:left");
    reveal_strlit("lanes:bus:left");
    reveal_strlit("lanes:bus:right");
    reveal_strlit("lanes:psv:left");
    reveal_strlit("lanes:psv:right");
    assert("cycleway:right"@[0] != "lanes:bus:left"@[0]);
    assert("cycleway:right"@[0] != "lanes:psv:left"@[0]);
    assert("cycleway:left:separation:right"@[9] != "cycleway:right:separation:left"@[9]);
    assert("lanes:bus:left"@[6] != "lanes:psv:left"@[6]);
    assert("lanes:bus:right"@[6] != "lanes:psv:right"@[6]);
}

/// What the mirror table gives for each of its keys.
pub proof fn lemma_mirror_table()
    ensures
        mirror_key("busway:left"@) == "busway:right"@,
        mirror_key("busway:right"@) == "busway:left"@,
        mirror_key("cycleway:left"@) == "cycleway:right"@,
        mirror_key("cycleway:right"@) == "cycleway:left"@,
        mirror_key("cycleway:left:oneway"@) == "cycleway:right:oneway"@,
        mirror_key("cycleway:right:oneway"@) == "cycleway:left:oneway"@,
        mirror_key("cycleway:left:separation:left"@) == "cycleway:right:separation:right"@,
        mirror_key("cycleway:right:separation:right"@) == "cycleway:left:separation:left"@,
        mirror_key("cycleway:left:separation:right"@) == "cycleway:right:separation:left"@,
        mirror_key("cycleway:right:separation:left"@) == "cycleway:left:separation:right"@,
        mirror_key("parking:lane:left"@) == "parking:lane:right"@,
        mirror_key("parking:lane:right"@) == "parking:lane:left"@,
        mirror_key("lanes:bus:left"@) == "lanes:bus:right"@,
        mirror_key("lanes:bus:right"@) == "lanes:bus:left"@,
        mirror_key("lanes:psv:left"@) == "lanes:psv:right"@,
        mirror_key("lanes:psv:right"@) == "lanes:psv:left"@,
{
    lemma_sided_key_lengths();
    reveal_strlit("cycleway:right");
    reveal_strlit("cycleway:left:separation:right");
    reveal_strlit("cycleway:right:separation:left");
    reveal_strlit("lanes:bus:left");
    reveal_strlit("lanes:bus:right");
    reveal_strlit("lanes:psv:left");
    reveal_strlit("lanes:psv:right");
    assert("cycleway:right"@[0] != "lanes:bus:left"@[0]);
    assert("cycleway:right"@[0] != "lanes:psv:left"@[0]);
    assert("cycleway:left:separation:right"@[9] != "cycleway:right:separation:left"@[9]);
    assert("lanes:bus:left"@[6] != "lanes:psv:left"@[6]);
    assert("lanes:bus:right"@[6] != "lanes:psv:right"@[6]);
}

/// The key of a sided tag is not `sidewalk`.
pub proof fn lemma_sided_keys_are_not_sidewalk()
    ensures
        "busway:left"@ != "sidewalk"@,
        "busway:right"@ != "sidewalk"@,
        "cycleway:left"@ != "sidewalk"@,
        "cycleway:right"@ != "sidewalk"@,
        "cycleway:left:oneway"@ != "sidewalk"@,
        "cycleway:right:oneway"@ != "sidewalk"@,
        "cycleway:left:separation:left"@ != "sidewalk"@,
        "cycleway:right:separation:right"@ != "sidewalk"@,
        "cycleway:left:separation:right"@ != "sidewalk"@,
        "cycleway:right:separation:left"@ != "sidewalk"@,
        "parking:lane:left"@ != "sidewalk"@,
        "parking:lane:right"@ != "sidewalk"@,
        "lanes:bus:left"@ != "sidewalk"@,
        "lanes:bus:right"@ != "sidewalk"@,
        "lanes:psv:left"@ != "sidewalk"@,
        "lanes:psv:right"@ != "sidewalk"@,
{
    lemma_sided_key_lengths();
}

/// The keys that are put together from a base and a side are the keys of
/// the mirror table.
pub proof fn lemma_joined_keys()
    ensures
        key_join("busway"@, "left"@) == "busway:left"@,
        key_join("busway"@, "right"@) == "busway:right"@,
        key_join("busway"@, "both"@) == "busway:both"@,
        key_join("cycleway"@, "left"@) == "cycleway:left"@,
        key_join("cycleway"@, "right"@) == "cycleway:right"@,
        key_join("cycleway"@, "both"@) == "cycleway:both"@,
        key_join(key_join("cycleway"@, "left"@), "oneway"@) == "cycleway:left:oneway"@,
        key_join(key_join("cycleway"@, "right"@), "oneway"@) == "cycleway:right:oneway"@,
{
    reveal_strlit("busway");
    reveal_strlit("left");
    reveal_strlit("busway:left");
    reveal_strlit("right");
    reveal_strlit("busway:right");
    reveal_strlit("both");
    reveal_strlit("busway:both");
    reveal_strlit("cycleway");
    reveal_strlit("cycleway:left");
    reveal_strlit("cycleway:right");
    reveal_strlit("cycleway:both");
    reveal_strlit("oneway");
    reveal_strlit("cycleway:left:oneway");
    reveal_strlit("cycleway:right:oneway");
    assert(key_join("busway"@, "left"@) =~= "busway:left"@);
    assert(key_join("busway"@, "right"@) =~= "busway:right"@);
    assert(key_join("busway"@, "both"@) =~= "busway:both"@);
    assert(key_join("cycleway"@, "left"@) =~= "cycleway:left"@);
    assert(key_join("cycleway"@, "right"@) =~= "cycleway:right"@);
    assert(key_join("cycleway"@, "both"@) =~= "cycleway:both"@);
    assert(key_join(key_join("cycleway"@, "left"@), "oneway"@) =~= "cycleway:left:oneway"@);
    assert(key_join(key_join("cycleway"@, "right"@), "oneway"@) =~= "cycleway:right:oneway"@);
}

/// Whether `prefix` is the root of one of the schemes of bus tags.
pub open spec fn bus_scheme_root(prefix: Seq<char>) -> bool {
    prefix == "busway"@ || prefix == "lanes:bus"@ || prefix == "lanes:psv"@ || prefix
        == "bus:lanes"@ || prefix == "psv:lanes"@
}

/// Whether `stem` is one of the beginnings that the keys with a side have
/// before the side is named.
pub open spec fn side_stem(stem: Seq<char>) -> bool {
    stem == "busway:"@ || stem == "cycleway:"@ || stem == "parking:lane:"@ || stem
        == "lanes:bus:"@ || stem == "lanes:psv:"@
}

/// A key with a side and its mirror image begin alike: with the same stem,
/// which is shorter than either.
pub proof fn lemma_sided_stem(key: Seq<char>) -> (stem: Seq<char>)
    requires
        mirror_key(key) != key,
    ensures
        side_stem(stem),
        stem.is_prefix_of(key),
        stem.is_prefix_of(mirror_key(key)),
        stem.len() < key.len(),
        stem.len() < mirror_key(key).len(),
{
    reveal_strlit("busway:left");
    reveal_strlit("busway:right");
    reveal_strlit("cycleway:left");
    reveal_strlit("cycleway:right");
    reveal_strlit("cycleway:left:oneway");
    reveal_strlit("cycleway:right:oneway");
    reveal_strlit("cycleway:left:separation:left");
    reveal_strlit("cycleway:right:separation:right");
    reveal_strlit("cycleway:left:separation:right");
    reveal_strlit("cycleway:right:separation:left");
    reveal_strlit("parking:lane:left");
    reveal_strlit("parking:lane:right");
    reveal_strlit("lanes:bus:left");
    reveal_strlit("lanes:bus:right");
    reveal_strlit("lanes:psv:left");
    reveal_strlit("lanes:psv:right");
    reveal_strlit("busway:");
    reveal_strlit("cycleway:");
    reveal_strlit("parking:lane:");
    reveal_strlit("lanes:bus:");
    reveal_strlit("lanes:psv:");
    if key == "busway:left"@ || key == "busway:right"@ {
        assert("busway:left"@.subrange(0, 7) =~= "busway:"@);
        assert("busway:right"@.subrange(0, 7) =~= "busway:"@);
        return "busway:"@;
    }
    if key == "cycleway:left"@ || key == "cycleway:right"@ {
        assert("cycleway:left"@.subrange(0, 9) =~= "cycleway:"@);
        assert("cycleway:right"@.subrange(0, 9) =~= "cycleway:"@);
        return "cycleway:"@;
    }
    if key == "cycleway:left:oneway"@ || key == "cycleway:right:oneway"@ {
        assert("cycleway:left:oneway"@.subrange(0, 9) =~= "cycleway:"@);
        assert("cycleway:right:oneway"@.subrange(0, 9) =~= "cycleway:"@);
        return "cycleway:"@;
    }
    if key == "cycleway:left:separation:left"@ || key == "cycleway:right:separation:right"@ {
        assert("cycleway:left:separation:left"@.subrange(0, 9) =~= "cycleway:"@);
        assert("cycleway:right:separation:right"@.subrange(0, 9) =~= "cycleway:"@);
        return "cycleway:"@;
    }
    if key == "cycleway:left:separation:right"@ || key == "cycleway:right:separation:left"@ {
        assert("cycleway:left:separation:right"@.subrange(0, 9) =~= "cycleway:"@);
        assert("cycleway:right:separation:left"@.subrange(0, 9) =~= "cycleway:"@);
        return "cycleway:"@;
    }
    if key == "parking:lane:left"@ || key == "parking:lane:right"@ {
        assert("parking:lane:left"@.subrange(0, 13) =~= "parking:lane:"@);
        assert("parking:lane:right"@.subrange(0, 13) =~= "parking:lane:"@);
        return "parking:lane:"@;
    }
    if key == "lanes:bus:left"@ || key == "lanes:bus:right"@ {
        assert("lanes:bus:left"@.subrange(0, 10) =~= "lanes:bus:"@);
        assert("lanes:bus:right"@.subrange(0, 10) =~= "lanes:bus:"@);
        return "lanes:bus:"@;
    }
    if key == "lanes:psv:left"@ || key == "lanes:psv:right"@ {
        assert("lanes:psv:left"@.subrange(0, 10) =~= "lanes:psv:"@);
        assert("lanes:psv:right"@.subrange(0, 10) =~= "lanes:psv:"@);
        return "lanes:psv:"@;
    }
    Seq::empty()
}

/// Where the root of a bus scheme, with its colon, and a stem begin alike
/// as far as the shorter goes, they are the same: any two of them that
/// differ do so among their first seven characters.
pub proof fn lemma_root_meets_stem(prefix: Seq<char>, stem: Seq<char>)
    requires
        bus_scheme_root(prefix),
        side_stem(stem),
        (prefix + seq![':']).is_prefix_of(stem) || stem.is_prefix_of(prefix + seq![':']),
    ensures
        prefix + seq![':'] == stem,
{
    reveal_strlit("busway");
    reveal_strlit("lanes:bus");
    reveal_strlit("lanes:psv");
    reveal_strlit("bus:lanes");
    reveal_strlit("psv:lanes");
    reveal_strlit("busway:");
    reveal_strlit("cycleway:");
    reveal_strlit("parking:lane:");
    reveal_strlit("lanes:bus:");
    reveal_strlit("lanes:psv:");
    let root = prefix + seq![':'];
    assert(root.len() >= 7 && stem.len() >= 7);
    assert forall|i: int| 0 <= i < 7 implies root[i] == stem[i] by {
        if root.is_prefix_of(stem) {
            assert(stem.subrange(0, root.len() as int)[i] == stem[i]);
        } else {
            assert(root.subrange(0, stem.len() as int)[i] == root[i]);
        }
    }
    assert(root[0] == stem[0] && root[1] == stem[1] && root[3] == stem[3] && root[6] == stem[6]);
    assert(root =~= stem);
}

/// Of two beginnings of one key, the shorter is a beginning of the longer.
pub proof fn lemma_beginnings(first: Seq<char>, second: Seq<char>, key: Seq<char>)
    requires
        first.is_prefix_of(key),
        second.is_prefix_of(key),
    ensures
        first.is_prefix_of(second) || second.is_prefix_of(first),
{
    if first.len() <= second.len() {
        assert(second.subrange(0, first.len() as int) =~= first) by {
            assert forall|i: int| 0 <= i < first.len() implies second[i] == first[i] by {
                assert(key.subrange(0, first.len() as int)[i] == key[i]);
                assert(key.subrange(0, second.len() as int)[i] == key[i]);
            }
        }
    } else {
        assert(first.subrange(0, second.len() as int) =~= second) by {
            assert forall|i: int| 0 <= i < second.len() implies first[i] == second[i] by {
                assert(key.subrange(0, first.len() as int)[i] == key[i]);
                assert(key.subrange(0, second.len() as int)[i] == key[i]);
            }
        }
    }
}

/// A beginning of a beginning of a key is a beginning of the key.
pub proof fn lemma_beginning_of_beginning(first: Seq<char>, second: Seq<char>, key: Seq<char>)
    requires
        first.is_prefix_of(second),
        second.is_prefix_of(key),
    ensures
        first.is_prefix_of(key),
{
    assert(key.subrange(0, first.len() as int) =~= first) by {
        assert forall|i: int| 0 <= i < first.len() implies key[i] == first[i] by {
            assert(second.subrange(0, first.len() as int)[i] == second[i]);
            assert(key.subrange(0, second.len() as int)[i] == key[i]);
        }
    }
}

/// The roots of the bus schemes name no side.
pub proof fn lemma_roots_plain(prefix: Seq<char>)
    requires
        bus_scheme_root(prefix),
    ensures
        mirror_key(prefix) == prefix,
{
    lemma_plain_bus_keys();
    lemma_plain_counted_bus_keys();
}

/// A key lies at or below the root of a bus scheme exactly if its mirror
/// image does.
pub proof fn lemma_under(prefix: Seq<char>, key: Seq<char>)
    requires
        bus_scheme_root(prefix),
    ensures
        key_under(prefix, mirror_key(key)) == key_under(prefix, key),
{
    let image = mirror_key(key);
    if image != key {
        let root = prefix + seq![':'];
        let stem = lemma_sided_stem(key);
        lemma_roots_plain(prefix);
        lemma_mirror_key_twice(key);
        assert(key != prefix);
        assert(image != prefix);
        if root.is_prefix_of(key) {
            lemma_beginnings(root, stem, key);
            lemma_root_meets_stem(prefix, stem);
        }
        if root.is_prefix_of(image) {
            lemma_beginnings(root, stem, image);
            lemma_root_meets_stem(prefix, stem);
        }
    }
}

/// The mirrored tags hold a key at or below a prefix of a bus scheme
/// exactly if the tags hold one.
pub proof fn lemma_subtrees_mirror(tags: Map<Seq<char>, Seq<char>>)
    ensures
        has_subtree(mirror_tags(tags), "busway"@) == has_subtree(tags, "busway"@),
        has_subtree(mirror_tags(tags), "lanes:bus"@) == has_subtree(tags, "lanes:bus"@),
        has_subtree(mirror_tags(tags), "lanes:psv"@) == has_subtree(tags, "lanes:psv"@),
        has_subtree(mirror_tags(tags), "bus:lanes"@) == has_subtree(tags, "bus:lanes"@),
        has_subtree(mirror_tags(tags), "psv:lanes"@) == has_subtree(tags, "psv:lanes"@),
{
    let other = mirror_tags(tags);
    assert(has_subtree(other, "busway"@) == has_subtree(tags, "busway"@)) by {
        if has_subtree(other, "busway"@) {
            let k = choose|k: Seq<char>| #[trigger] other.contains_key(k) && key_under("busway"@, k);
            lemma_under("busway"@, k);
            assert(tags.contains_key(mirror_key(k)));
        }
        if has_subtree(tags, "busway"@) {
            let k = choose|k: Seq<char>| #[trigger] tags.contains_key(k) && key_under("busway"@, k);
            lemma_mirror_key_twice(k);
            lemma_under("busway"@, mirror_key(k));
            assert(other.contains_key(mirror_key(k)));
        }
    }
    assert(has_subtree(other, "lanes:bus"@) == has_subtree(tags, "lanes:bus"@)) by {
        if has_subtree(other, "lanes:bus"@) {
            let k = choose|k: Seq<char>| #[trigger] other.contains_key(k) && key_under("lanes:bus"@, k);
            lemma_under("lanes:bus"@, k);
            assert(tags.contains_key(mirror_key(k)));
        }
        if has_subtree(tags, "lanes:bus"@) {
            let k = choose|k: Seq<char>| #[trigger] tags.contains_key(k) && key_under("lanes:bus"@, k);
            lemma_mirror_key_twice(k);
            lemma_under("lanes:bus"@, mirror_key(k));
            assert(other.contains_key(mirror_key(k)));
        }
    }
    assert(has_subtree(other, "lanes:psv"@) == has_subtree(tags, "lanes:psv"@)) by {
        if has_subtree(other, "lanes:psv"@) {
            let k = choose|k: Seq<char>| #[trigger] other.contains_key(k) && key_under("lanes:psv"@, k);
            lemma_under("lanes:psv"@, k);
            assert(tags.contains_key(mirror_key(k)));
        }
        if has_subtree(tags, "lanes:psv"@) {
            let k = choose|k: Seq<char>| #[trigger] tags.contains_key(k) && key_under("lanes:psv"@, k);
            lemma_mirror_key_twice(k);
            lemma_under("lanes:psv"@, mirror_key(k));
            assert(other.contains_key(mirror_key(k)));
        }
    }
    assert(has_subtree(other, "bus:lanes"@) == has_subtree(tags, "bus:lanes"@)) by {
        if has_subtree(other, "bus:lanes"@) {
            let k = choose|k: Seq<char>| #[trigger] other.contains_key(k) && key_under("bus:lanes"@, k);
            lemma_under("bus:lanes"@, k);
            assert(tags.contains_key(mirror_key(k)));
        }
        if has_subtree(tags, "bus:lanes"@) {
            let k = choose|k: Seq<char>| #[trigger] tags.contains_key(k) && key_under("bus:lanes"@, k);
            lemma_mirror_key_twice(k);
            lemma_under("bus:lanes"@, mirror_key(k));
            assert(other.contains_key(mirror_key(k)));
        }
    }
    assert(has_subtree(other, "psv:lanes"@) == has_subtree(tags, "psv:lanes"@)) by {
        if has_subtree(other, "psv:lanes"@) {
            let k = choose|k: Seq<char>| #[trigger] other.contains_key(k) && key_under("psv:lanes"@, k);
            lemma_under("psv:lanes"@, k);
            assert(tags.contains_key(mirror_key(k)));
        }
        if has_subtree(tags, "psv:lanes"@) {
            let k = choose|k: Seq<char>| #[trigger] tags.contains_key(k) && key_under("psv:lanes"@, k);
            lemma_mirror_key_twice(k);
            lemma_under("psv:lanes"@, mirror_key(k));
            assert(other.contains_key(mirror_key(k)));
        }
    }
}

} // verus!
