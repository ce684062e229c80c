use server_schema::{decode, encode, Country, DecodeError, Identity, Json, Protocol, Server,
    Status};

fn fixtures() -> (Json, Server) {
    let mut srv = Server::new(Identity::Addr("127.0.0.1:9000".to_owned()));
    srv.status = Status::Up;
    srv.country = Country(iso_country::Country::RU);
    srv.rules.push(("protocol-version".to_owned(), Json::Int(84)));

    let ser = Json::Obj(vec![
        ("addr".to_owned(), Json::Str("127.0.0.1:9000".to_owned())),
        ("status".to_owned(), Json::Str("Up".to_owned())),
        ("country".to_owned(), Json::Str("RU".to_owned())),
        (
            "rules".to_owned(),
            Json::Obj(vec![("protocol-version".to_owned(), Json::Int(84))]),
        ),
    ]);

    (ser, srv)
}

#[test]
fn serialization() {
    let (expectation, fixture) = fixtures();

    let result = encode(fixture);

    assert!(expectation == result);
}

#[test]
fn deserialization() {
    let (fixture, expectation) = fixtures();

    let result = decode(fixture).unwrap();

    assert!(expectation == result);
}

#[test]
fn country_round_trip() {
    for c in [
        iso_country::Country::RU,
        iso_country::Country::PL,
        iso_country::Country::DE,
        iso_country::Country::Unspecified,
    ] {
        let code = Country(c).encode();
        assert!(Country::decode(code.as_str()) == Country(c));
    }
    assert!(Country(iso_country::Country::RU).encode() == "RU");
    assert!(Country(iso_country::Country::Unspecified).encode() == "");
}

#[test]
fn country_fallback_total() {
    assert!(Country::decode("ZZ") == Country::default());
    assert!(Country::decode("ru") == Country::default());
    assert!(Country::decode("") == Country::default());
    assert!(Country::decode("not a code") == Country::default());
    assert!(Country::decode("DE") != Country::default());
}

#[test]
fn defaulting_of_missing_fields() {
    let tree = Json::Obj(vec![(
        "addr".to_owned(),
        Json::Str("10.0.0.1:27015".to_owned()),
    )]);
    let decoded = decode(tree).unwrap();
    let explicit = Server::new(Identity::Addr("10.0.0.1:27015".to_owned()));
    assert!(decoded == explicit);
    assert!(decoded.status == Status::Unspecified);
    assert!(decoded.country == Country::default());
    assert!(decoded.rules.is_empty());
}

#[test]
fn omission_symmetry() {
    let srv = Server::new(Identity::Host("example.org".to_owned()));
    let tree = encode(srv);
    match &tree {
        Json::Obj(entries) => {
            assert!(entries.iter().all(|(k, _)| k != "name"));
            assert!(entries.iter().all(|(k, _)| k != "players"));
            assert!(entries.iter().any(|(k, _)| k == "status"));
        },
        _ => panic!("expected an object"),
    }
    let back = decode(tree).unwrap();
    assert!(back.name.is_none());
    assert!(back.players.is_none());
}

#[test]
fn strict_status_tag() {
    let tree = Json::Obj(vec![
        ("host".to_owned(), Json::Str("example.org".to_owned())),
        ("status".to_owned(), Json::Str("Sideways".to_owned())),
    ]);
    assert!(decode(tree) == Err(DecodeError::UnknownTag));
}

#[test]
fn strict_protocol_tag() {
    let tree = Json::Obj(vec![
        ("host".to_owned(), Json::Str("example.org".to_owned())),
        ("protocol".to_owned(), Json::Str("GOPHER".to_owned())),
    ]);
    assert!(decode(tree) == Err(DecodeError::UnknownTag));
}

#[test]
fn status_type_mismatch() {
    let tree = Json::Obj(vec![
        ("host".to_owned(), Json::Str("example.org".to_owned())),
        ("status".to_owned(), Json::Int(1)),
    ]);
    assert!(decode(tree) == Err(DecodeError::TypeMismatch));
}

#[test]
fn missing_address() {
    let tree = Json::Obj(vec![("status".to_owned(), Json::Str("Up".to_owned()))]);
    assert!(decode(tree) == Err(DecodeError::MissingAddress));
}

#[test]
fn scenario_encode_exact() {
    let mut srv = Server::new(Identity::Host("127.0.0.1".to_owned()));
    srv.protocol = Some(Protocol::Q3S);
    srv.status = Status::Up;
    srv.country = Country(iso_country::Country::RU);
    let expected = Json::Obj(vec![
        ("host".to_owned(), Json::Str("127.0.0.1".to_owned())),
        ("protocol".to_owned(), Json::Str("Q3S".to_owned())),
        ("status".to_owned(), Json::Str("Up".to_owned())),
        ("country".to_owned(), Json::Str("RU".to_owned())),
        ("rules".to_owned(), Json::Obj(vec![])),
    ]);
    assert!(encode(srv) == expected);
}

#[test]
fn scenario_decode_invalid_country() {
    let tree = Json::Obj(vec![
        ("host".to_owned(), Json::Str("127.0.0.1".to_owned())),
        ("status".to_owned(), Json::Str("Up".to_owned())),
        ("country".to_owned(), Json::Str("ZZ".to_owned())),
    ]);
    let srv = decode(tree).unwrap();
    assert!(srv.country == Country::default());
    assert!(srv.status == Status::Up);
}

fn roster() -> Vec<server_schema::Player> {
    vec![
        server_schema::Player {
            name: "alice".to_owned(),
            ping: Some(23),
            info: vec![("team".to_owned(), Json::Str("red".to_owned()))],
        },
        server_schema::Player {
            name: "bob".to_owned(),
            ping: None,
            info: vec![],
        },
    ]
}

#[test]
fn players_round_trip() {
    let mut srv = Server::new(Identity::Host("example.org".to_owned()));
    srv.players = Some(roster());
    let mut srv2 = Server::new(Identity::Host("example.org".to_owned()));
    srv2.players = Some(roster());
    let back = decode(encode(srv)).unwrap();
    assert!(back == srv2);
    let ps = back.players.unwrap();
    assert!(ps[0].name == "alice");
    assert!(ps[0].ping == Some(23));
    assert!(ps[1].ping.is_none());
}

#[test]
fn player_missing_name() {
    let tree = Json::Obj(vec![
        ("host".to_owned(), Json::Str("example.org".to_owned())),
        (
            "players".to_owned(),
            Json::Arr(vec![Json::Obj(vec![("info".to_owned(), Json::Obj(vec![]))])]),
        ),
    ]);
    assert!(decode(tree) == Err(DecodeError::MissingField));
}

#[test]
fn protocol_tags() {
    let tags = [
        (Protocol::Unspecified, "Unspecified"),
        (Protocol::Q3M, "Q3M"),
        (Protocol::Q3S, "Q3S"),
        (Protocol::A2S, "A2S"),
        (Protocol::TEEWORLDSM, "TEEWORLDSM"),
        (Protocol::TEEWORLDSS, "TEEWORLDSS"),
    ];
    for (p, tag) in tags {
        let mut srv = Server::new(Identity::Host("h".to_owned()));
        srv.protocol = Some(p);
        let tree = encode(srv);
        match &tree {
            Json::Obj(entries) => {
                assert!(entries
                    .iter()
                    .any(|(k, v)| k == "protocol" && *v == Json::Str(tag.to_owned())));
            },
            _ => panic!("expected an object"),
        }
        let back = decode(tree).unwrap();
        assert!(back.protocol == Some(p));
    }
}

#[test]
fn nested_rules_round_trip() {
    let mut srv = Server::new(Identity::Addr("[::1]:9000".to_owned()));
    srv.rules.push((
        "limits".to_owned(),
        Json::Obj(vec![
            ("fraglimit".to_owned(), Json::Int(30)),
            ("timelimit".to_owned(), Json::Null),
            ("sudden_death".to_owned(), Json::Bool(false)),
        ]),
    ));
    srv.rules.push((
        "maps".to_owned(),
        Json::Arr(vec![
            Json::Str("q3dm17".to_owned()),
            Json::Str("q3dm6".to_owned()),
        ]),
    ));
    let mut expected = Server::new(Identity::Addr("[::1]:9000".to_owned()));
    expected.rules.push((
        "limits".to_owned(),
        Json::Obj(vec![
            ("fraglimit".to_owned(), Json::Int(30)),
            ("timelimit".to_owned(), Json::Null),
            ("sudden_death".to_owned(), Json::Bool(false)),
        ]),
    ));
    expected.rules.push((
        "maps".to_owned(),
        Json::Arr(vec![
            Json::Str("q3dm17".to_owned()),
            Json::Str("q3dm6".to_owned()),
        ]),
    ));
    let back = decode(encode(srv)).unwrap();
    assert!(back == expected);
    assert!(back.rules.len() == 2);
}
