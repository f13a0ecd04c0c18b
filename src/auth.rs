//! Authentication to the message bus.

use crate::config::KafkaConfig;
use crate::text::str_equals;
use vstd::prelude::*;

verus! {

/// SASL credentials.
#[derive(Clone, Debug)]
pub struct SaslAuth {
    pub username: String,
    pub password: String,
    pub mechanism: String,
}

/// How the agent authenticates to the message bus.
#[derive(Clone, Debug)]
pub enum KafkaAuth {
    SasalPlainText(SaslAuth),
    PlainText,
}

/// Why the bus settings name no authentication method.
#[derive(Clone, Copy, Debug, PartialEq, Eq, Structural)]
pub enum AuthError {
    /// `auth_protocol` is neither `PLAINTEXT` nor `SASL_PLAINTEXT`.
    InvalidProtocol,
}

impl AuthError {
    pub fn to_string(&self) -> (r: String)
        ensures
            r@ == "Invalid Kafka producer authentication protocol"@,
    {
        "Invalid Kafka producer authentication protocol".to_owned()
    }
}

/// The authentication that the bus settings select: none for `PLAINTEXT`,
/// SASL with the configured credentials for `SASL_PLAINTEXT`.
pub fn kafka_auth(config: &KafkaConfig) -> (r: Result<KafkaAuth, AuthError>)
    ensures
        config.auth_protocol@ == "PLAINTEXT"@ ==> r matches Ok(KafkaAuth::PlainText),
        config.auth_protocol@ == "SASL_PLAINTEXT"@ ==> (r matches Ok(KafkaAuth::SasalPlainText(s)) && s.username
            == config.auth_sasl_username && s.password == config.auth_sasl_password && s.mechanism
            == config.auth_sasl_mechanism),
        config.auth_protocol@ != "PLAINTEXT"@ && config.auth_protocol@ != "SASL_PLAINTEXT"@ ==> r == Err::<
            KafkaAuth,
            AuthError,
        >(AuthError::InvalidProtocol),
{
    proof {
        reveal_strlit("PLAINTEXT");
        reveal_strlit("SASL_PLAINTEXT");
        assert("PLAINTEXT"@.len() == 9);
        assert("SASL_PLAINTEXT"@.len() == 14);
        assert("PLAINTEXT"@ != "SASL_PLAINTEXT"@);
    }
    let p = config.auth_protocol.as_str();
    if str_equals(p, "PLAINTEXT") {
        Ok(KafkaAuth::PlainText)
    } else if str_equals(p, "SASL_PLAINTEXT") {
        Ok(
            KafkaAuth::SasalPlainText(
                SaslAuth {
                    username: config.auth_sasl_username.clone(),
                    password: config.auth_sasl_password.clone(),
                    mechanism: config.auth_sasl_mechanism.clone(),
                },
            ),
        )
    } else {
        Err(AuthError::InvalidProtocol)
    }
}

} // verus!
