use game_client::character::{Character, CharacterBaseAttributes, CharacterDamageAttributes, CharacterExtraAttributes};
use game_client::game_state::GameState;
use game_client::stats::WorldPlayer;

#[test]
fn world_player_defaults() {
    let p = WorldPlayer::default();
    assert_eq!(p.actions_points, 3);
    assert_eq!(p.walk_speed, 3_000_000);
    assert_eq!(p.sprinting_speed, 4_500_000);
}

#[test]
fn character_defaults() {
    let c = Character::default();
    assert_eq!(c.base_attributes, CharacterBaseAttributes::default());
    assert_eq!(c.base_attributes.hp, 280);
    assert_eq!(c.extra_attributes, CharacterExtraAttributes::default());
    assert_eq!(c.extra_attributes.crit_damage, 50_000_000);
    assert_eq!(c.damage_attributes, CharacterDamageAttributes::default());
    assert_eq!(c.damage_attributes.dark_wds, 10_000_000);
    assert_eq!(c.damage_attributes.holy_damage, 0);
}

#[test]
fn game_starts_in_game() {
    assert_eq!(GameState::default(), GameState::InGame);
}
