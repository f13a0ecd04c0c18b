//! Authentication to the message bus.
use saimiris::auth::{kafka_auth, AuthError, KafkaAuth, SaslAuth};
use saimiris::config::KafkaConfig;

#[test]
fn test_kafka_auth_plaintext() {
    let mut config = KafkaConfig::default();
    config.auth_protocol = "PLAINTEXT".to_string();
    let auth = match config.auth_protocol.as_str() {
        "PLAINTEXT" => KafkaAuth::PlainText,
        "SASL_PLAINTEXT" => KafkaAuth::SasalPlainText(SaslAuth {
            username: config.auth_sasl_username.clone(),
            password: config.auth_sasl_password.clone(),
            mechanism: config.auth_sasl_mechanism.clone(),
        }),
        _ => panic!("Invalid Kafka producer authentication protocol"),
    };
    assert!(matches!(auth, KafkaAuth::PlainText));
    assert!(matches!(kafka_auth(&config), Ok(KafkaAuth::PlainText)));
}

#[test]
fn test_kafka_auth_sasl_plaintext() {
    let mut config = KafkaConfig::default();
    config.auth_protocol = "SASL_PLAINTEXT".to_string();
    let auth = match config.auth_protocol.as_str() {
        "PLAINTEXT" => KafkaAuth::PlainText,
        "SASL_PLAINTEXT" => KafkaAuth::SasalPlainText(SaslAuth {
            username: config.auth_sasl_username.clone(),
            password: config.auth_sasl_password.clone(),
            mechanism: config.auth_sasl_mechanism.clone(),
        }),
        _ => panic!("Invalid Kafka producer authentication protocol"),
    };
    assert!(matches!(auth, KafkaAuth::SasalPlainText(_)));
    assert!(matches!(kafka_auth(&config), Ok(KafkaAuth::SasalPlainText(_))));
}

#[test]
fn sasl_takes_the_configured_credentials() {
    let mut config = KafkaConfig::with_defaults();
    config.auth_protocol = "SASL_PLAINTEXT".to_string();
    config.auth_sasl_username = "u".to_string();
    match kafka_auth(&config) {
        Ok(KafkaAuth::SasalPlainText(s)) => {
            assert_eq!(s.username, "u");
            assert_eq!(s.password, "saimiris");
            assert_eq!(s.mechanism, "SCRAM-SHA-512");
        }
        other => panic!("unexpected {:?}", other),
    }
}

#[test]
fn unknown_protocol_is_refused() {
    let mut config = KafkaConfig::with_defaults();
    config.auth_protocol = "SSL".to_string();
    let err = kafka_auth(&config).unwrap_err();
    assert_eq!(err, AuthError::InvalidProtocol);
    assert!(err.to_string().contains("Invalid Kafka producer authentication protocol"));
    config.auth_protocol = "plaintext".to_string();
    assert!(kafka_auth(&config).is_err());
}
