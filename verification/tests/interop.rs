use save_migration::engine::GameState;
use save_migration::ident::Identifier;
use save_migration::schema::V1SaveMonster;
use save_migration::schema::V1SavePlayer;
use save_migration::schema::V1SaveState;

fn sample() -> GameState {
    GameState::V1_0(V1SaveState {
        players: vec![V1SavePlayer {
            entity: Identifier {
                index: 0,
                generation: 1,
            },
            health: 20,
            level: 1,
            target: Some(Identifier {
                index: 1,
                generation: 1,
            }),
        }],
        monsters: vec![V1SaveMonster {
            entity: Identifier {
                index: 1,
                generation: 1,
            },
            health: 20,
        }],
    })
}

#[test]
fn encoded_text_is_valid_json_with_expected_fields() {
    let text = sample().encode();
    let v: serde_json::Value = serde_json::from_str(&text).expect("the encoding must be JSON");
    assert_eq!(v["version"].as_str(), Some("1.0"));
    let player = &v["data"]["players"][0];
    assert_eq!(player["entity"].as_u64(), Some(4294967296));
    assert_eq!(player["health"].as_u64(), Some(20));
    assert_eq!(player["level"].as_u64(), Some(1));
    assert_eq!(player["target"].as_u64(), Some(4294967297));
    let monster = &v["data"]["monsters"][0];
    assert_eq!(monster["entity"].as_u64(), Some(4294967297));
    assert_eq!(monster["health"].as_u64(), Some(20));
}

#[test]
fn encoded_null_target_is_json_null() {
    let mut s = match sample() {
        GameState::V1_0(s) => s,
        _ => unreachable!(),
    };
    s.players[0].target = None;
    let text = GameState::V1_0(s).encode();
    let v: serde_json::Value = serde_json::from_str(&text).expect("the encoding must be JSON");
    assert!(v["data"]["players"][0]["target"].is_null());
}

#[test]
fn identifier_bits_match_entity_handles() {
    // the packed wire value converts losslessly to a live entity handle
    // and back, so reconstruction can reuse persisted identifiers verbatim
    let id = Identifier {
        index: 7,
        generation: 3,
    };
    let entity = hecs::Entity::from_bits(id.to_bits()).expect("well-formed bits");
    assert_eq!(entity.id(), 7);
    assert_eq!(entity.to_bits().get(), id.to_bits());
    assert_eq!(Identifier::from_bits(entity.to_bits().get()), Some(id));
}

#[test]
fn allocator_entities_convert_to_identifiers() {
    let world = hecs::World::new();
    let e = world.reserve_entity();
    let id = Identifier::from_bits(e.to_bits().get()).expect("live entities are well formed");
    assert_eq!(id.to_bits(), e.to_bits().get());
    assert_eq!(hecs::Entity::from_bits(id.to_bits()), Some(e));
}

#[test]
fn reconstruction_resolves_migrated_references() {
    // decode a V1 save, upgrade it, rebuild a world at the carried
    // identifiers, and follow the player's reference through the world
    let text = sample().encode();
    let latest = match GameState::init_from_json(&text).expect("canonical text must load") {
        GameState::V3_0(s) => s,
        _ => unreachable!(),
    };
    let mut world = hecs::World::new();
    for m in &latest.monsters {
        let e = hecs::Entity::from_bits(m.entity.to_bits()).expect("well-formed bits");
        world.spawn_at(e, (m.health,));
    }
    let target = latest.players[0].target.expect("the sample player has a target");
    let e = hecs::Entity::from_bits(target.to_bits()).expect("well-formed bits");
    let health = world.get::<&u32>(e).expect("the reference must resolve");
    assert_eq!(*health, 20);
}
