use save_migration::engine::GameState;
use save_migration::errors::MigrationError;
use save_migration::ident::Identifier;
use save_migration::schema::V1SaveMonster;
use save_migration::schema::V1SavePlayer;
use save_migration::schema::V1SaveState;
use save_migration::schema::V2SaveMonster;
use save_migration::schema::V2SavePlayer;
use save_migration::schema::V2SaveState;
use save_migration::schema::V3MonsterVariant;
use save_migration::schema::V3SaveMonster;
use save_migration::schema::V3SavePlayer;
use save_migration::schema::V3SaveState;

fn id(index: u32, generation: u32) -> Identifier {
    Identifier { index, generation }
}

fn sample_v1() -> V1SaveState {
    V1SaveState {
        players: vec![V1SavePlayer {
            entity: id(0, 1),
            health: 20,
            level: 1,
            target: Some(id(1, 1)),
        }],
        monsters: vec![V1SaveMonster {
            entity: id(1, 1),
            health: 20,
        }],
    }
}

fn sample_v2() -> V2SaveState {
    V2SaveState {
        players: vec![V2SavePlayer {
            entity: id(0, 1),
            health: 18,
            level: 2,
            target: None,
            exp: 7,
            damage: 5,
        }],
        monsters: vec![V2SaveMonster {
            entity: id(1, 1),
            health: 15,
            damage: 2,
        }],
    }
}

fn sample_v3() -> V3SaveState {
    V3SaveState {
        players: vec![V3SavePlayer {
            entity: id(0, 1),
            health: 20,
            level: 3,
            target: Some(id(1, 1)),
            damage: 6,
        }],
        monsters: vec![V3SaveMonster {
            entity: id(1, 1),
            health: 9,
            damage: 2,
            variant: V3MonsterVariant::Scary,
        }],
    }
}

#[test]
fn terminal_version_is_idempotent() {
    let s = GameState::V3_0(sample_v3());
    let r = s.clone().upgrade_to_latest();
    assert_eq!(r, s);
}

#[test]
fn path_independence_from_v1() {
    let s = sample_v1();
    let via_engine = GameState::V1_0(s.clone()).upgrade_to_latest();
    let manual = GameState::V3_0(s.upgrade().upgrade());
    assert_eq!(via_engine, manual);
}

#[test]
fn single_step_upgrade_advances_one_version() {
    let s = GameState::V1_0(sample_v1()).upgrade_version();
    assert!(matches!(s, GameState::V2_0(_)));
    let s = s.upgrade_version();
    assert!(matches!(s, GameState::V3_0(_)));
    let s = s.upgrade_version();
    assert!(matches!(s, GameState::V3_0(_)));
}

#[test]
fn reference_preservation_across_chain() {
    let monster_id = id(9, 4);
    let s = V1SaveState {
        players: vec![V1SavePlayer {
            entity: id(3, 2),
            health: 12,
            level: 5,
            target: Some(monster_id),
        }],
        monsters: vec![
            V1SaveMonster {
                entity: id(8, 1),
                health: 30,
            },
            V1SaveMonster {
                entity: monster_id,
                health: 25,
            },
        ],
    };
    let latest = GameState::V1_0(s).upgrade_to_latest();
    match latest {
        GameState::V3_0(t) => {
            assert_eq!(t.players[0].target, Some(monster_id));
            assert!(t.monsters.iter().any(|m| m.entity == monster_id));
            assert!(t.check_references().is_ok());
        }
        _ => panic!("expected latest version"),
    }
}

#[test]
fn default_backfill_v1_to_v2() {
    let up = sample_v1().upgrade();
    assert_eq!(up.players[0].exp, 0);
    assert_eq!(up.players[0].damage, 5);
    assert_eq!(up.players[0].health, 20);
    assert_eq!(up.players[0].level, 1);
    assert_eq!(up.players[0].entity, id(0, 1));
    assert_eq!(up.players[0].target, Some(id(1, 1)));
    assert_eq!(up.monsters[0].damage, 2);
    assert_eq!(up.monsters[0].health, 20);
    assert_eq!(up.monsters[0].entity, id(1, 1));
}

#[test]
fn default_backfill_v2_to_v3() {
    let up = sample_v2().upgrade();
    assert!(matches!(up.monsters[0].variant, V3MonsterVariant::Angry));
    assert_eq!(up.players[0].damage, 5);
    assert_eq!(up.monsters[0].damage, 2);
}

#[test]
fn exp_is_dropped_on_upgrade_into_v3() {
    let mut a = sample_v2();
    let mut b = sample_v2();
    a.players[0].exp = 0;
    b.players[0].exp = 999;
    assert_eq!(a.upgrade(), b.upgrade());
}

#[test]
fn encode_produces_exact_canonical_text() {
    let s = GameState::V1_0(sample_v1());
    let text = s.encode();
    assert_eq!(
        text,
        "{\"version\":\"1.0\",\"data\":{\"players\":[{\"entity\":4294967296,\"health\":20,\
         \"level\":1,\"target\":4294967297}],\"monsters\":[{\"entity\":4294967297,\
         \"health\":20}]}}"
    );
}

#[test]
fn encode_tags_each_version_with_its_own_tag() {
    let t1 = GameState::V1_0(sample_v1()).encode();
    let t2 = GameState::V2_0(sample_v2()).encode();
    let t3 = GameState::V3_0(sample_v3()).encode();
    assert!(t1.starts_with("{\"version\":\"1.0\","));
    assert!(t2.starts_with("{\"version\":\"2.0\","));
    assert!(t3.starts_with("{\"version\":\"3.0\","));
}

#[test]
fn round_trip_v1() {
    let s = GameState::V1_0(sample_v1());
    let decoded = GameState::decode(&s.encode()).expect("canonical text must decode");
    assert_eq!(decoded, s);
    assert!(matches!(decoded, GameState::V1_0(_)));
}

#[test]
fn round_trip_v2() {
    let s = GameState::V2_0(sample_v2());
    let decoded = GameState::decode(&s.encode()).expect("canonical text must decode");
    assert_eq!(decoded, s);
    assert!(matches!(decoded, GameState::V2_0(_)));
}

#[test]
fn round_trip_v3() {
    let s = GameState::V3_0(sample_v3());
    let decoded = GameState::decode(&s.encode()).expect("canonical text must decode");
    assert_eq!(decoded, s);
    assert!(matches!(decoded, GameState::V3_0(_)));
}

#[test]
fn round_trip_empty_snapshot() {
    let s = GameState::V1_0(V1SaveState {
        players: vec![],
        monsters: vec![],
    });
    let text = s.encode();
    assert_eq!(
        text,
        "{\"version\":\"1.0\",\"data\":{\"players\":[],\"monsters\":[]}}"
    );
    assert_eq!(GameState::decode(&text), Ok(s));
}

#[test]
fn round_trip_largest_identifier() {
    let s = GameState::V1_0(V1SaveState {
        players: vec![],
        monsters: vec![V1SaveMonster {
            entity: id(u32::MAX, u32::MAX),
            health: u32::MAX,
        }],
    });
    let text = s.encode();
    assert!(text.contains("18446744073709551615"));
    assert_eq!(GameState::decode(&text), Ok(s));
}

#[test]
fn upgrade_from_v2_retains_damage() {
    let mut s = sample_v2();
    s.players[0].damage = 11;
    s.monsters[0].damage = 4;
    let latest = GameState::V2_0(s).upgrade_to_latest();
    match latest {
        GameState::V3_0(t) => {
            assert_eq!(t.players[0].damage, 11);
            assert_eq!(t.monsters[0].damage, 4);
        }
        _ => panic!("expected latest version"),
    }
}

#[test]
fn round_trip_many_records() {
    let s = GameState::V2_0(V2SaveState {
        players: vec![
            V2SavePlayer {
                entity: id(0, 1),
                health: 1,
                level: 1,
                target: Some(id(2, 1)),
                exp: 10,
                damage: 5,
            },
            V2SavePlayer {
                entity: id(1, 1),
                health: 2,
                level: 9,
                target: None,
                exp: 0,
                damage: 7,
            },
        ],
        monsters: vec![
            V2SaveMonster {
                entity: id(2, 1),
                health: 3,
                damage: 2,
            },
            V2SaveMonster {
                entity: id(3, 2),
                health: 4,
                damage: 3,
            },
            V2SaveMonster {
                entity: id(4, 3),
                health: 5,
                damage: 4,
            },
        ],
    });
    let decoded = GameState::decode(&s.encode()).expect("canonical text must decode");
    assert_eq!(decoded, s);
}

#[test]
fn extra_duplicate_or_missing_attributes_are_rejected() {
    let extra = "{\"version\":\"1.0\",\"data\":{\"players\":[],\"monsters\":[],\
                 \"extra\":0}}";
    assert_eq!(GameState::decode(extra), Err(MigrationError::SchemaMismatch));
    let duplicate = "{\"version\":\"1.0\",\"data\":{\"players\":[],\"monsters\":[],\
                     \"monsters\":[]}}";
    assert_eq!(
        GameState::decode(duplicate),
        Err(MigrationError::SchemaMismatch)
    );
    let missing = "{\"version\":\"1.0\",\"data\":{\"players\":[]}}";
    assert_eq!(
        GameState::decode(missing),
        Err(MigrationError::SchemaMismatch)
    );
    let missing_field = "{\"version\":\"1.0\",\"data\":{\"players\":[],\"monsters\":\
                         [{\"entity\":4294967296}]}}";
    assert_eq!(
        GameState::decode(missing_field),
        Err(MigrationError::SchemaMismatch)
    );
}

#[test]
fn out_of_range_values_are_rejected() {
    // one beyond the largest representable health
    let big_health = "{\"version\":\"1.0\",\"data\":{\"players\":[],\"monsters\":\
                      [{\"entity\":4294967296,\"health\":4294967296}]}}";
    assert_eq!(
        GameState::decode(big_health),
        Err(MigrationError::SchemaMismatch)
    );
    // one beyond the largest representable identifier
    let big_entity = "{\"version\":\"1.0\",\"data\":{\"players\":[],\"monsters\":\
                      [{\"entity\":18446744073709551616,\"health\":1}]}}";
    assert_eq!(
        GameState::decode(big_entity),
        Err(MigrationError::SchemaMismatch)
    );
}

#[test]
fn unknown_variant_name_is_rejected() {
    let text = "{\"version\":\"3.0\",\"data\":{\"players\":[],\"monsters\":\
                [{\"entity\":4294967296,\"health\":1,\"damage\":1,\
                \"variant\":\"Sleepy\"}]}}";
    assert_eq!(GameState::decode(text), Err(MigrationError::SchemaMismatch));
}

#[test]
fn init_from_json_accepts_v2_text() {
    let text = GameState::V2_0(sample_v2()).encode();
    let loaded = GameState::init_from_json(&text).expect("canonical text must load");
    assert_eq!(loaded, GameState::V2_0(sample_v2()).upgrade_to_latest());
}

#[test]
fn unknown_tag_is_rejected_never_defaulted() {
    let r = GameState::decode("{\"version\":\"9.9\",\"data\":{}}");
    assert_eq!(r, Err(MigrationError::UnknownVersion));
}

#[test]
fn malformed_envelopes_are_rejected() {
    for text in [
        "",
        "{}",
        "[1,2]",
        "{\"version\":\"1.0\"}",
        "{\"version\":\"1.0\",\"data\":",
        "{\"ver\":\"1.0\",\"data\":{}}",
        "not json at all",
    ] {
        assert_eq!(
            GameState::decode(text),
            Err(MigrationError::MalformedEnvelope),
            "input: {text}"
        );
    }
}

#[test]
fn wrong_payload_shape_is_schema_mismatch() {
    let r = GameState::decode("{\"version\":\"1.0\",\"data\":{}}");
    assert_eq!(r, Err(MigrationError::SchemaMismatch));
    // the envelope framing is present (it opens correctly and ends with a
    // brace), but the payload inside it is truncated
    let r = GameState::decode("{\"version\":\"1.0\",\"data\":{}");
    assert_eq!(r, Err(MigrationError::SchemaMismatch));
}

#[test]
fn v3_payload_with_removed_attribute_is_rejected() {
    // strictness policy: the attribute dropped on the way into V3 is not
    // tolerated when decoding a V3 payload
    let text = "{\"version\":\"3.0\",\"data\":{\"players\":[{\"entity\":4294967296,\
                \"health\":20,\"level\":1,\"target\":null,\"exp\":0,\"damage\":5}],\
                \"monsters\":[]}}";
    assert_eq!(
        GameState::decode(text),
        Err(MigrationError::SchemaMismatch)
    );
}

#[test]
fn envelope_framing_is_exact() {
    // the envelope wrapper itself is a fixed grammar: whitespace inside
    // the framing is not accepted, while the payload is free-form JSON
    assert_eq!(
        GameState::decode("{\"version\":\"1.0\", \"data\":{\"players\":[],\"monsters\":[]}}"),
        Err(MigrationError::MalformedEnvelope)
    );
    // the envelope's own two attributes keep the written order
    assert_eq!(
        GameState::decode("{\"data\":{\"players\":[],\"monsters\":[]},\"version\":\"1.0\"}"),
        Err(MigrationError::MalformedEnvelope)
    );
}

#[test]
fn payload_whitespace_is_irrelevant() {
    let spaced = "{\"version\":\"1.0\",\"data\":{ \"players\" : [ ] ,\n\t\"monsters\" : [ ] }}";
    let expected = GameState::V1_0(V1SaveState {
        players: vec![],
        monsters: vec![],
    });
    assert_eq!(GameState::decode(spaced), Ok(expected));
    let spaced_record = "{\"version\":\"1.0\",\"data\":{\"players\":[ {\"entity\": 4294967296 ,\
                         \"health\": 20, \"level\": 1, \"target\": 4294967297} ],\
                         \"monsters\":[{\"entity\":4294967297,\"health\":20}]} }";
    assert_eq!(
        GameState::decode(spaced_record),
        Ok(GameState::V1_0(sample_v1()))
    );
}

#[test]
fn payload_attribute_order_is_irrelevant() {
    // the same snapshot with the payload attributes and record fields
    // written in a different order
    let reordered = "{\"version\":\"1.0\",\"data\":{\"monsters\":[{\"health\":20,\
                     \"entity\":4294967297}],\"players\":[{\"target\":4294967297,\
                     \"entity\":4294967296,\"health\":20,\"level\":1}]}}";
    assert_eq!(
        GameState::decode(reordered),
        Ok(GameState::V1_0(sample_v1()))
    );
}

#[test]
fn leading_zero_numerals_are_rejected() {
    // a redundant leading zero is not a JSON numeral
    assert_eq!(
        GameState::decode(
            "{\"version\":\"1.0\",\"data\":{\"players\":[],\"monsters\":\
             [{\"entity\":4294967296,\"health\":007}]}}"
        ),
        Err(MigrationError::SchemaMismatch)
    );
}

#[test]
fn zero_generation_identifier_is_rejected() {
    // the identifier 5 has generation zero and cannot be well formed
    assert_eq!(
        GameState::decode(
            "{\"version\":\"1.0\",\"data\":{\"players\":[],\"monsters\":\
             [{\"entity\":5,\"health\":1}]}}"
        ),
        Err(MigrationError::SchemaMismatch)
    );
}

#[test]
fn init_from_json_upgrades_to_latest() {
    let text = GameState::V1_0(sample_v1()).encode();
    let loaded = GameState::init_from_json(&text).expect("canonical text must load");
    let expected = GameState::V1_0(sample_v1()).upgrade_to_latest();
    assert_eq!(loaded, expected);
    assert!(matches!(loaded, GameState::V3_0(_)));
}

#[test]
fn init_from_json_propagates_decode_errors() {
    assert_eq!(
        GameState::init_from_json("{\"version\":\"9.9\",\"data\":{}}"),
        Err(MigrationError::UnknownVersion)
    );
    assert_eq!(
        GameState::init_from_json("nope"),
        Err(MigrationError::MalformedEnvelope)
    );
}

#[test]
fn check_references_flags_dangling_target() {
    let mut s = sample_v3();
    s.players[0].target = Some(id(77, 3));
    assert_eq!(
        s.check_references(),
        Err(MigrationError::DanglingReference)
    );
    s.players[0].target = None;
    assert!(s.check_references().is_ok());
}

#[test]
fn identifier_bits_round_trip() {
    for ident in [id(0, 1), id(1, 1), id(42, 7), id(u32::MAX, u32::MAX)] {
        let bits = ident.to_bits();
        assert_eq!(Identifier::from_bits(bits), Some(ident));
    }
    // a zero generation never packs into a valid identifier
    assert_eq!(Identifier::from_bits(5), None);
    assert_eq!(Identifier::from_bits(0), None);
}

#[test]
fn generate_builds_initial_snapshot() {
    let player = id(0, 1);
    let monster = id(1, 1);
    let s = V1SaveState::generate(player, monster);
    assert_eq!(s.players.len(), 1);
    assert_eq!(s.monsters.len(), 1);
    assert_eq!(s.players[0].entity, player);
    assert_eq!(s.players[0].health, 20);
    assert_eq!(s.players[0].level, 1);
    assert_eq!(s.players[0].target, Some(monster));
    assert_eq!(s.monsters[0].entity, monster);
    assert_eq!(s.monsters[0].health, 20);
}

#[test]
fn error_kinds_describe_themselves() {
    assert_eq!(MigrationError::MalformedEnvelope.describe(), "malformed envelope");
    assert_eq!(MigrationError::UnknownVersion.describe(), "unknown version");
    assert_eq!(MigrationError::SchemaMismatch.describe(), "schema mismatch");
    assert_eq!(MigrationError::DanglingReference.describe(), "dangling reference");
}
