use cloud_spanner::config::ServiceAccountKey;
use cloud_spanner::connect::{advance, begin, Action, Environment, Event, Step};
use cloud_spanner::http::{Body, HttpReply, Status};
use cloud_spanner::json::parse_json;
use cloud_spanner::jwt::{
    create_jwt_assertion, create_jwt_payload, require_pkcs8, seal, sign_rs256,
};

/// A key that was made for these tests and is used nowhere else.
const KEY: &str = "MIIEvgIBADANBgkqhkiG9w0BAQEFAASCBKgwggSkAgEAAoIBAQCs30zG8e5kY/ju\n\
    Y7YCCLVBxCmxUDZiTBjCO3TdjEwDOR/ip5MADa2GeD9k2MmxuAfVsHpAtfmWfwcb\n\
    gsD1ascnQAMcBIxmuKloUvI4NWEddmYmXoiJpHO26Ypma4vwnTSH7Xha1ur7f0rt\n\
    4omO/T+zhbQxI98BkGIG8Exz1mNpg3YUGWJr90sWRNTyxzzytdBtyX4IPDa8foY2\n\
    QTiGsDDhH2cEAI1nAR/MiFqxxMqii2O14zB+DR+LRkkoabRIo4O42Nrvu+fQvEOv\n\
    cDGOk32tHfxqGvEvWlf+vcOucQmLNyFGurHOJRGAOVyAoMYl3+40B2N9CfEA7+ht\n\
    Zixym6xlAgMBAAECggEAD1a04kYfJ+sy8DwKrz2Ej7RPGruKR8iGvd02rl2/dN3B\n\
    tYO26F9OUUskHNebddhlYZGKF2nOHotg3xEH+/6gcxwb6oWAy7CA34/UjCY4Wrvh\n\
    rm/e34+m8MjiDdpnDU91lMX+UtkU+oG97UOXfwd7entXlLChHetot0LlFbYlFfx9\n\
    zWhYa650/dg3WN4n66UD8wc5q3z9VkBZpjELgbhsyMllWhNykW3s4Q8aISTlBd2Y\n\
    5IcewarR0Y3mnhd5QVMgBTmH8RVGnYDVlLUr4q9bvUganYLTMPmWcMrlh19ONxPb\n\
    213rGEZqKp7pqIVrnaRVLJ6vUacm3i/dbzElRUdllQKBgQDTy7P2Lkp1eR25EOb9\n\
    SyUfOeWNatBIzUP93RYGK/x+c9hBbqBKGrLJ8ezKaVx1OrMRowevzIk4scgh7J/2\n\
    qjnNnNTTttyngRIdl06+8j3NMqWkUpZ4Bc7RDrLgIEsExaceWYVKAbGeGTbw5hzd\n\
    KuAFS1Fo5iYMjRx6xpSHRb2NiwKBgQDQ8+hQX1vjd9rwVrzc1Evmg5D3wmq0VyOk\n\
    +/BwFh2NeznB5Gh3j2CA9EZH2jbX3AqQDdaPOxCrW0nBzWppzktdE82QJ23Qf/Bz\n\
    mMeoD+5j5HFkkVANwJny3jKsKUCr3sj7QagcpBo9EzpoG0hAXZJi0FPlWt1amSBE\n\
    WsOJgmvLzwKBgQDCoqngbAwLRuG0yD6uuZcEyk0Vl/qPXOvF6Z4qz9N7VfR/tS1i\n\
    zIRPp58HKKpKJUaYx6zxttLIIkEcQ/uBUFBMj3rakWrYGHpQbVN1kOKQp6GnkCot\n\
    ZJD6eDqUU7j9SrLY5kXijAnxk5R079PIwHUdCGlpME/5KtjoT4QBiGq5HwKBgHqU\n\
    zFHyT2bXlnJugCeQx+I4huBChvS7NicAwiIPZ1Dr3ItZ4stZKoUcSOq4InpqFSxD\n\
    Yf7u6K2ORWvThT0DEAVPq8WIzAyIMdiu5Vo71l910evsr6kRt37aSaHkJZNuhDua\n\
    XfRHdTklQZt3feB8xHcBvmYL81XGBT70fEf8Yh7TAoGBAK9c3tDUx6LE4gg6igIW\n\
    KdrWP9+FhQ5j7/obs6Pq/ouGAgvx4nfBYqgZiJDUR7nZDiCz7LDNJDgLPbI4XOdV\n\
    uPKSzbE3pEBno1YbcQ71sQw/7+8SdzC9nqlTYsRDUYNBcJotFt6v4MAF4elGSZ1I\n\
    zwDe/rPaXEdGi+EeOPHJ2Tvb\n\
    ";

/// The signature of the assertion of `EMAIL` at the time `NOW` under that key.
const SIGNATURE: &str = "cOt2Pjsw1M34Z5dXrLS5YdR2nu3z7GSUSBis96MQYlyfBYYeoY5GlxThE5swFjOwZAbnYT_jBaPW\
    b4eYZIgT9ICBlm5s0COaH0evJk5Zx--NhpQ0Fj4KngS0tFKd3kZzW6gzsyWauGl7SA7lhfnwawxN\
    ngnMojhAF4h8VEAtKufO1WvKmbNptuF67FIuDUmMylbYA2aYof24cKLGfmMtTKR0UMO-EKC_eG1B\
    ogLffIZthzeriTdSV5L7tCEtArZe0ruoH9R9ubgbLsgxINxB5PFbJiD2k70VAFtxjs_qN9PDL1n-\
    lyqhMyusz_wlRxhP-gf-g-i-cJlEBm3nIFtWbQ\
    ";

const EMAIL: &str = "service-account@example.invalid";
const NOW: u64 = 1_700_000_000;

fn armored(label: &str, body: &str) -> String {
    format!("-----BEGIN {label}-----\n{body}-----END {label}-----\n")
}

#[test]
fn an_assertion_is_signed_with_the_key() {
    let assertion = create_jwt_assertion(EMAIL, &armored("PRIVATE KEY", KEY), NOW).unwrap();
    let payload = create_jwt_payload(EMAIL, NOW);
    assert_eq!(assertion, format!("{payload}.{SIGNATURE}"));
    assert_eq!(assertion.split('.').count(), 3);
}

#[test]
fn the_payload_holds_the_header_and_the_claims() {
    let payload = create_jwt_payload(EMAIL, NOW);
    assert_eq!(
        payload,
        "eyJhbGciOiJSUzI1NiIsInR5cCI6IkpXVCJ9.\
         eyJpc3MiOiJzZXJ2aWNlLWFjY291bnRAZXhhbXBsZS5pbnZhbGlkIiwic2NvcGUiOiJodHRwczovL3d3dy5n\
         b29nbGVhcGlzLmNvbS9hdXRoL3NwYW5uZXIuZGF0YSBodHRwczovL3d3dy5nb29nbGVhcGlzLmNvbS9hdXRo\
         L2Nsb3VkLXBsYXRmb3JtIiwiYXVkIjoiaHR0cHM6Ly9vYXV0aDIuZ29vZ2xlYXBpcy5jb20vdG9rZW4iLCJl\
         eHAiOjE3MDAwMDM2MDAsImlhdCI6MTcwMDAwMDAwMH0"
    );
}

#[test]
fn signing_is_repeatable_and_depends_on_the_message() {
    let key = armored("PRIVATE KEY", KEY);
    let once = sign_rs256(&key, b"message").unwrap();
    assert_eq!(once.len(), 256);
    assert_eq!(sign_rs256(&key, b"message").unwrap(), once);
    assert_ne!(sign_rs256(&key, b"another").unwrap(), once);
}

#[test]
fn a_key_must_be_pem() {
    assert_eq!(
        sign_rs256("not-a-private-key", b"").unwrap_err(),
        "invalid Google service account private key PEM."
    );
    assert_eq!(
        require_pkcs8(None).unwrap_err(),
        "invalid Google service account private key PEM."
    );
}

#[test]
fn a_key_must_be_labelled_as_pkcs8() {
    let error = "Google service account private key must use PKCS#8 PEM.";
    assert_eq!(
        sign_rs256(&armored("RSA PRIVATE KEY", KEY), b"").unwrap_err(),
        error
    );
    assert_eq!(
        require_pkcs8(Some(("CERTIFICATE".to_string(), vec![1]))).unwrap_err(),
        error
    );
    assert_eq!(
        require_pkcs8(Some(("PRIVATE KEY".to_string(), vec![1, 2]))),
        Ok(vec![1, 2])
    );
}

#[test]
fn a_key_must_be_a_pkcs8_document() {
    assert_eq!(
        sign_rs256(&armored("PRIVATE KEY", "AAAA\n"), b"").unwrap_err(),
        "invalid Google service account PKCS#8 private key."
    );
}

#[test]
fn a_signature_is_put_behind_its_payload() {
    assert_eq!(seal("a.b", Ok(vec![0, 0, 0])), Ok("a.b.AAAA".to_string()));
    assert_eq!(seal("a.b", Err("no".to_string())), Err("no".to_string()));
}

#[test]
fn a_key_in_the_request_leads_to_a_session() {
    let request = parse_json(
        r#"{"serviceAccountJson":"{}","profile":{"instanceId":"i","databaseId":"d"}}"#,
    )
    .unwrap();
    let environment = Environment {
        oauth_access_token: Some("unused".to_string()),
        application_credentials: Some("/unused.json".to_string()),
        cloudsdk_config: None,
        home: None,
        metadata_host: None,
    };
    let answered = |body: &str| {
        Event::Replied(HttpReply::Answered(Status::new(200).unwrap(), body.to_string()))
    };
    let mut step = begin(request, environment);
    let mut sent = Vec::new();
    let connection = loop {
        step = match step {
            Step::Perform(wanted, stage, action) => {
                let event = match action {
                    Action::ReadKey(_) => Event::Key(Ok(ServiceAccountKey {
                        project_id: "from-key".to_string(),
                        client_email: EMAIL.to_string(),
                        private_key: armored("PRIVATE KEY", KEY),
                    })),
                    Action::ReadClock => Event::Clock(NOW),
                    Action::Send(request) => {
                        let reply = if sent.is_empty() {
                            answered(r#"{"access_token":"tok"}"#)
                        } else {
                            answered(r#"{"name":"s"}"#)
                        };
                        sent.push(request);
                        reply
                    }
                    _ => panic!("no file is read"),
                };
                advance(wanted, stage, event)
            }
            Step::Connected(connection) => break connection,
            Step::Refused(_) => panic!("the connection is refused"),
        };
    };
    assert_eq!(sent.len(), 2);
    assert_eq!(
        sent[0].body,
        Body::Text(format!(
            "grant_type=urn%3Aietf%3Aparams%3Aoauth%3Agrant-type%3Ajwt-bearer&assertion={}.{SIGNATURE}",
            create_jwt_payload(EMAIL, NOW)
        ))
    );
    assert_eq!(sent[1].bearer, Some("tok".to_string()));
    assert_eq!(
        connection.config.database_path,
        "projects/from-key/instances/i/databases/d"
    );
    assert_eq!(connection.session, "s");
}
