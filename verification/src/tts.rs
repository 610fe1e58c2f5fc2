//! The JSON configuration sent with a text-to-speech stream.
use vstd::prelude::*;

use crate::json::{
    empty_json_object, json_insert_member, json_object_keys, json_object_members,
    json_string, json_string_value, json_text_of, json_text_parses, json_to_string,
    json_value_of, merge_members, parse_json,
};
use crate::request::extra_text;

verus! {

/// The members of a stream's JSON configuration: the padding bonus where one is given,
/// then the rewrite rules as a JSON string, then every member of the extra configuration
/// where that is a JSON object (its members win). Extra text that is not JSON, or JSON
/// that is no object, adds nothing.
pub open spec fn tts_config_members(
    padding_bonus: Option<serde_json::Value>,
    rewrite_rules: Option<Seq<char>>,
    extra: Option<Seq<char>>,
) -> Map<Seq<char>, serde_json::Value> {
    let with_bonus = match padding_bonus {
        Some(b) => Map::empty().insert("padding_bonus"@, b),
        None => Map::empty(),
    };
    let with_rules = match rewrite_rules {
        Some(r) => with_bonus.insert("rewrite_rules"@, json_string_value(r)),
        None => with_bonus,
    };
    match extra {
        Some(e) => if json_text_parses(e) {
            match json_object_members(json_value_of(e)) {
                Some(x) => with_rules.union_prefer_right(x),
                None => with_rules,
            }
        } else {
            with_rules
        },
        None => with_rules,
    }
}

/// The JSON configuration text of a text-to-speech stream, or `None` when it would hold
/// no member. `padding_bonus` is the bonus as a JSON value, given only where it is not
/// zero; `rewrite_rules` is sent as a JSON string; the members of `extra_config` are
/// merged in when it is a JSON object, and it is ignored otherwise.
pub fn tts_json_config(
    padding_bonus: Option<serde_json::Value>,
    rewrite_rules: Option<String>,
    extra_config: Option<&str>,
) -> (r: Option<String>)
    ensures
        ({
            let m = tts_config_members(
                padding_bonus,
                match rewrite_rules {
                    Some(s) => Some(s@),
                    None => None,
                },
                extra_text(extra_config),
            );
            &&& (r is None <==> m == Map::<Seq<char>, serde_json::Value>::empty())
            &&& r matches Some(t) ==> exists|v: serde_json::Value|
                #[trigger] json_object_members(v) == Some(m) && t@ == json_text_of(v)
        }),
{
    let mut config = empty_json_object();
    match padding_bonus {
        Some(b) => json_insert_member(&mut config, "padding_bonus".to_string(), b),
        None => {},
    }
    match rewrite_rules {
        Some(rules) => json_insert_member(&mut config, "rewrite_rules".to_string(), json_string(rules)),
        None => {},
    }
    match extra_config {
        Some(text) => match parse_json(text) {
            Ok(extra) => {
                if json_object_keys(&extra).is_some() {
                    merge_members(&mut config, &extra);
                }
            },
            Err(_) => {},
        },
        None => {},
    }
    let ghost m = json_object_members(config)->0;
    let keys = match json_object_keys(&config) {
        Some(ks) => ks,
        None => Vec::new(),
    };
    if keys.len() == 0 {
        proof {
            assert(keys@.map_values(|k: String| k@) =~= Seq::<Seq<char>>::empty());
            assert(m.dom() =~= Set::<Seq<char>>::empty());
            assert(m =~= Map::<Seq<char>, serde_json::Value>::empty());
        }
        None
    } else {
        proof {
            let names = keys@.map_values(|k: String| k@);
            assert(names.to_set().contains(names[0]));
            assert(m.dom().contains(names[0]));
        }
        let text = json_to_string(&config);
        assert(json_object_members(config) == Some(m));
        Some(text)
    }
}

} // verus!
