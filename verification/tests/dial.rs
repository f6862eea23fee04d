use juno::dial::{Attempt, DialError, Endpoint, Family, Outcome, Race, Verdict};
use juno::socks::provider;
use juno::{create_service, ConfigError, Dialer, Service};

const LOOPBACK: Endpoint = Endpoint::V4(0x7f000001, 443);
const LOOPBACK6: Endpoint = Endpoint::V6(1, 443);
const SOURCE: Endpoint = Endpoint::V4(0x0a000001, 0);

#[test]
fn bind_takes_the_first_address() {
    let dialer = Dialer::bind(&[SOURCE, LOOPBACK]).unwrap();
    assert_eq!(dialer.bind_addr(), Some(SOURCE));
}

#[test]
fn bind_without_address_fails() {
    assert_eq!(Dialer::bind(&[]), Err(DialError::AddrNotAvailable));
}

#[test]
fn default_dialer_binds_nothing() {
    assert_eq!(Dialer::default().bind_addr(), None);
}

#[test]
fn family_follows_the_address() {
    assert_eq!(LOOPBACK.family(), Family::V4);
    assert_eq!(LOOPBACK6.family(), Family::V6);
}

#[test]
fn dial_one_plans_the_attempt() {
    let dialer = Dialer::bind(&[SOURCE]).unwrap();
    assert_eq!(
        dialer.dial_one(LOOPBACK6),
        Attempt {
            family: Family::V6,
            bind: Some(SOURCE),
            target: LOOPBACK6
        }
    );
    assert_eq!(
        Dialer::default().dial_one(LOOPBACK),
        Attempt {
            family: Family::V4,
            bind: None,
            target: LOOPBACK
        }
    );
}

#[test]
fn dial_without_candidates_fails() {
    assert_eq!(
        Dialer::default().dial(&[]),
        Err(DialError::AddrNotAvailable)
    );
}

#[test]
fn dial_attempts_every_candidate() {
    let race = Dialer::default().dial(&[LOOPBACK, LOOPBACK6]).unwrap();
    assert_eq!(race.running(), 2);
    assert_eq!(
        race.attempts(),
        &vec![
            Attempt {
                family: Family::V4,
                bind: None,
                target: LOOPBACK
            },
            Attempt {
                family: Family::V6,
                bind: None,
                target: LOOPBACK6
            },
        ]
    );
}

#[test]
fn first_connection_wins() {
    let mut race = Dialer::default()
        .dial(&[LOOPBACK, LOOPBACK6, LOOPBACK])
        .unwrap();
    assert_eq!(
        race.settle(Outcome::Failed("refused".to_string())),
        Verdict::Pending
    );
    assert_eq!(race.running(), 2);
    assert_eq!(race.settle(Outcome::Connected), Verdict::Won);
    assert_eq!(race.running(), 0);
    assert_eq!(race.settle(Outcome::Connected), Verdict::Over);
    assert_eq!(
        race.settle(Outcome::Failed("late".to_string())),
        Verdict::Over
    );
}

#[test]
fn one_live_candidate_is_enough() {
    let mut race = Dialer::default().dial(&[LOOPBACK]).unwrap();
    assert_eq!(race.settle(Outcome::Connected), Verdict::Won);
}

#[test]
fn all_failed_reports_the_last_error() {
    let mut race = Dialer::default().dial(&[LOOPBACK, LOOPBACK6]).unwrap();
    assert_eq!(
        race.settle(Outcome::Failed("first".to_string())),
        Verdict::Pending
    );
    assert_eq!(
        race.settle(Outcome::Failed("second".to_string())),
        Verdict::Lost(DialError::Failed("second".to_string()))
    );
    assert_eq!(race.settle(Outcome::Connected), Verdict::Over);
}

#[test]
fn race_of_given_attempts() {
    let race = Race::start(vec![]);
    assert_eq!(race.running(), 0);
    assert!(race.attempts().is_empty());
}

#[test]
fn dial_error_text() {
    assert_eq!(
        DialError::AddrNotAvailable.to_string(),
        "address not available"
    );
    assert_eq!(
        DialError::Failed("timed out".to_string()).to_string(),
        "timed out"
    );
}

#[test]
fn providers_by_name() {
    let dialer = Dialer::bind(&[SOURCE]).unwrap();
    let http = create_service("http", dialer).unwrap();
    assert!(matches!(http, Service::Http(_)));
    assert_eq!(*http.dialer(), dialer);
    let socks = create_service("socks", dialer).unwrap();
    assert!(matches!(socks, Service::Socks(_)));
    assert_eq!(*socks.dialer(), dialer);
}

#[test]
fn unknown_provider() {
    let err = match create_service("gopher", Dialer::default()) {
        Err(e) => e,
        Ok(_) => panic!("a provider of that name"),
    };
    assert_eq!(err, ConfigError::UnknownProvider("gopher".to_string()));
    assert_eq!(err.to_string(), "unknown provider: `gopher`");
    assert!(create_service("HTTP", Dialer::default()).is_err());
    assert!(create_service("", Dialer::default()).is_err());
}

#[test]
fn socks_provider_keeps_the_dialer() {
    let dialer = Dialer::bind(&[SOURCE]).unwrap();
    let service = provider::Service::new(dialer);
    assert_eq!(*service.dialer(), dialer);
    assert_eq!(service.call(), juno::socks::Session::Starting);
}
