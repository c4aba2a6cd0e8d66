use plyoreacto::config::{
    ConfigError, EngineConfig, ExternalParticipantDescriptor, PluginDescriptor,
};

fn plugin(id: u32, subscriptions: &[&str]) -> PluginDescriptor {
    let subscriptions = subscriptions.iter().map(|name| name.to_string()).collect();
    PluginDescriptor { id, subscriptions }
}

fn external(id: u32) -> ExternalParticipantDescriptor {
    ExternalParticipantDescriptor { id }
}

#[test]
fn three_plugins_and_one_external_participant() {
    let config = EngineConfig::new(
        vec![plugin(0, &[]), plugin(1, &["NewImageEvent"]), plugin(2, &["ImageScoredEvent"])],
        vec![external(3)],
    )
    .unwrap();
    assert_eq!(config.participant_count(), 4);
    assert_eq!(config.plugins().len(), 3);
    assert_eq!(config.externals().len(), 1);
    assert_eq!(config.plugins()[1].id, 1);
    assert_eq!(config.plugins()[1].subscriptions, vec!["NewImageEvent".to_string()]);
    assert_eq!(config.externals()[0], external(3));
}

#[test]
fn no_participants_at_all() {
    let config = EngineConfig::new(vec![], vec![]).unwrap();
    assert_eq!(config.participant_count(), 0);
}

#[test]
fn identifiers_need_not_be_dense() {
    let config =
        EngineConfig::new(vec![plugin(10, &[]), plugin(2, &[])], vec![external(700)]).unwrap();
    assert_eq!(config.participant_count(), 3);
}

#[test]
fn two_plugins_with_one_identifier() {
    let made = EngineConfig::new(vec![plugin(0, &[]), plugin(1, &[]), plugin(0, &[])], vec![]);
    assert_eq!(made.err(), Some(ConfigError::DuplicateId { id: 0 }));
}

#[test]
fn an_external_participant_with_the_identifier_of_a_plugin() {
    let made =
        EngineConfig::new(vec![plugin(0, &[]), plugin(1, &[])], vec![external(3), external(1)]);
    assert_eq!(made.err(), Some(ConfigError::DuplicateId { id: 1 }));
}

#[test]
fn two_external_participants_with_one_identifier() {
    let made = EngineConfig::new(vec![plugin(0, &[])], vec![external(5), external(5)]);
    assert_eq!(made.err(), Some(ConfigError::DuplicateId { id: 5 }));
}

#[test]
fn the_first_repeated_identifier_is_named() {
    let made = EngineConfig::new(
        vec![plugin(4, &[]), plugin(9, &[]), plugin(9, &[]), plugin(4, &[])],
        vec![external(4)],
    );
    assert_eq!(made.err(), Some(ConfigError::DuplicateId { id: 9 }));
}

#[test]
fn into_parts_gives_the_lists_back() {
    let config = EngineConfig::new(vec![plugin(7, &["a", "b"])], vec![external(8)]).unwrap();
    let (plugins, externals) = config.into_parts();
    assert_eq!(plugins.len(), 1);
    assert_eq!(plugins[0].id, 7);
    assert_eq!(plugins[0].subscriptions, vec!["a".to_string(), "b".to_string()]);
    assert_eq!(externals, vec![external(8)]);
}
