use forwarded_http::{bracket_ipv6, split_forwarded_for, Forwarded};

#[test]
fn parsing_for() {
    assert_eq!(
        Forwarded::parse(r#"for="_gazonk""#).unwrap().forwarded_for(),
        vec!["_gazonk"]
    );
    assert_eq!(
        Forwarded::parse(r#"For="[2001:db8:cafe::17]:4711""#)
            .unwrap()
            .forwarded_for(),
        vec!["[2001:db8:cafe::17]:4711"]
    );

    assert_eq!(
        Forwarded::parse("for=192.0.2.60;proto=http;by=203.0.113.43")
            .unwrap()
            .forwarded_for(),
        vec!["192.0.2.60"]
    );

    assert_eq!(
        Forwarded::parse("for=192.0.2.43,   for=198.51.100.17")
            .unwrap()
            .forwarded_for(),
        vec!["192.0.2.43", "198.51.100.17"]
    );

    assert_eq!(
        Forwarded::parse(r#"for=192.0.2.43,for="[2001:db8:cafe::17]",for=unknown"#)
            .unwrap()
            .forwarded_for(),
        Forwarded::parse(r#"for=192.0.2.43, for="[2001:db8:cafe::17]", for=unknown"#)
            .unwrap()
            .forwarded_for()
    );

    assert_eq!(
        Forwarded::parse(r#"for=192.0.2.43,for="this is a valid quoted-string, \" \\",for=unknown"#)
            .unwrap()
            .forwarded_for(),
        vec![
            "192.0.2.43",
            r#"this is a valid quoted-string, " \"#,
            "unknown"
        ]
    );
}

#[test]
fn formatting_for() {
    assert_eq!("", Forwarded::new().value().unwrap());
}

#[test]
fn basic_parse() {
    let forwarded =
        Forwarded::parse("for=client.com;by=proxy.com;host=host.com;proto=https").unwrap();

    assert_eq!(forwarded.by(), Some("proxy.com"));
    assert_eq!(forwarded.forwarded_for(), vec!["client.com"]);
    assert_eq!(forwarded.host(), Some("host.com"));
    assert_eq!(forwarded.proto(), Some("https"));
    assert!(matches!(forwarded, Forwarded { .. }));
}

#[test]
fn bad_parse() {
    let err = Forwarded::parse("by=proxy.com;for=client;host=example.com;host").unwrap_err();
    assert_eq!(
        err.to_string(),
        "unable to parse forwarded header: parse error in forwarded-pair"
    );

    let err = Forwarded::parse("by;for;host;proto").unwrap_err();
    assert_eq!(
        err.to_string(),
        "unable to parse forwarded header: parse error in forwarded-pair"
    );

    let err = Forwarded::parse("for=for, key=value").unwrap_err();
    assert_eq!(
        err.to_string(),
        "unable to parse forwarded header: http list must start with for="
    );

    let err = Forwarded::parse(r#"for="unterminated string"#).unwrap_err();
    assert_eq!(
        err.to_string(),
        "unable to parse forwarded header: for= without valid value"
    );

    let err = Forwarded::parse(r#"for=, for=;"#).unwrap_err();
    assert_eq!(
        err.to_string(),
        "unable to parse forwarded header: for= without valid value"
    );
}

#[test]
fn bad_parse_from_headers() {
    assert_eq!(
        Forwarded::from_headers(Some("uh oh"), vec![], None, None)
            .unwrap_err()
            .to_string(),
        "unable to parse forwarded header: parse error in forwarded-pair"
    );

    assert!(Forwarded::from_headers(None, vec![], None, None)
        .unwrap()
        .is_none());
}

#[test]
fn from_x_headers() {
    let pieces = split_forwarded_for("192.0.2.43, 2001:db8:cafe::17");
    let forwarded_for = vec![pieces[0].clone(), bracket_ipv6(&pieces[1])];
    let forwarded = Forwarded::from_headers(None, forwarded_for, None, Some("gopher"))
        .unwrap()
        .unwrap();
    assert_eq!(
        forwarded.value().unwrap(),
        r#"for=192.0.2.43, for="[2001:db8:cafe::17]";proto=gopher"#
    );
}

#[test]
fn formatting_edge_cases() {
    let forwarded = Forwarded::new()
        .with_for(r#"quote: " backslash: \"#.into())
        .with_for(";proto=https".into());
    assert_eq!(
        forwarded.value().unwrap(),
        r#"for="quote: \" backslash: \\", for=";proto=https""#
    );
}

#[test]
fn parse_edge_cases() {
    let forwarded =
        Forwarded::parse(r#"for=";", for=",", for="\"", for=unquoted;by=";proto=https""#)
            .unwrap();
    assert_eq!(forwarded.forwarded_for(), vec![";", ",", "\"", "unquoted"]);
    assert_eq!(forwarded.by(), Some(";proto=https"));
    assert!(forwarded.proto().is_none());

    let forwarded = Forwarded::parse("proto=https").unwrap();
    assert_eq!(forwarded.proto(), Some("https"));
}

#[test]
fn owned_parse() {
    let forwarded = Forwarded::parse("for=client;by=proxy.com;host=example.com;proto=https")
        .unwrap()
        .into_owned();

    assert_eq!(forwarded.by(), Some("proxy.com"));
    assert_eq!(forwarded.forwarded_for(), vec!["client"]);
    assert_eq!(forwarded.host(), Some("example.com"));
    assert_eq!(forwarded.proto(), Some("https"));
    assert!(matches!(forwarded, Forwarded { .. }));
}

#[test]
fn from_request() {
    let forwarded = Forwarded::from_headers(Some("for=for"), vec![], None, None)
        .unwrap()
        .unwrap();
    assert_eq!(forwarded.forwarded_for(), vec!["for"]);
}

#[test]
fn owned_can_outlive_request() {
    let forwarded = {
        let header = String::from("for=for;by=by;host=host;proto=proto");
        let parsed = Forwarded::from_headers(Some(&header), vec![], None, None)
            .unwrap()
            .unwrap()
            .into_owned();
        drop(header);
        parsed
    };
    assert_eq!(forwarded.by(), Some("by"));
}

#[test]
fn parse_empty_gives_empty_model() {
    let forwarded = Forwarded::parse("").unwrap();
    assert_eq!(forwarded.by(), None);
    assert!(forwarded.forwarded_for().is_empty());
    assert_eq!(forwarded.host(), None);
    assert_eq!(forwarded.proto(), None);
}

#[test]
fn parse_for_run_then_proto() {
    let forwarded =
        Forwarded::parse(r#"for=192.0.2.43, for="[2001:db8:cafe::17]", for=unknown;proto=https"#)
            .unwrap();
    assert_eq!(
        forwarded.forwarded_for(),
        vec!["192.0.2.43", "[2001:db8:cafe::17]", "unknown"]
    );
    assert_eq!(forwarded.proto(), Some("https"));
}

#[test]
fn legacy_for_list_brackets_ipv6() {
    let pieces = split_forwarded_for("192.0.2.43, 2001:db8:cafe::17");
    assert_eq!(pieces, vec!["192.0.2.43", "2001:db8:cafe::17"]);
    let forwarded_for = vec![pieces[0].clone(), bracket_ipv6(&pieces[1])];
    let forwarded = Forwarded::from_headers(None, forwarded_for, None, None)
        .unwrap()
        .unwrap();
    assert_eq!(
        forwarded.forwarded_for(),
        vec!["192.0.2.43", "[2001:db8:cafe::17]"]
    );
    assert_eq!(forwarded.host(), None);
}

#[test]
fn trailing_key_without_value_fails() {
    assert!(Forwarded::parse("by=proxy.com;for=client;host=example.com;host").is_err());
}

#[test]
fn unterminated_quote_fails() {
    let err = Forwarded::parse("for=\"unterminated string").unwrap_err();
    assert_eq!(
        err.to_string(),
        "unable to parse forwarded header: for= without valid value"
    );
}

#[test]
fn escaped_value_round_trips() {
    let original = "quote: \" backslash: \\";
    let forwarded = Forwarded::new().with_for(original.to_string());
    let written = forwarded.value().unwrap();
    assert_eq!(written, r#"for="quote: \" backslash: \\""#);
    let read = Forwarded::parse(&written).unwrap();
    assert_eq!(read.forwarded_for(), vec![original]);
}

#[test]
fn standard_header_wins_over_legacy() {
    let forwarded = Forwarded::from_headers(
        Some("for=client;proto=https"),
        vec!["192.0.2.43".to_string()],
        Some("proxy"),
        Some("gopher"),
    )
    .unwrap()
    .unwrap();
    assert_eq!(forwarded.forwarded_for(), vec!["client"]);
    assert_eq!(forwarded.by(), None);
    assert_eq!(forwarded.proto(), Some("https"));

    let err = Forwarded::from_headers(Some("uh oh"), vec!["192.0.2.43".to_string()], None, None);
    assert!(err.is_err());
}

#[test]
fn round_trip_of_built_models() {
    let models = vec![
        Forwarded::new(),
        Forwarded::new().with_by("proxy.example".to_string()),
        Forwarded::new().with_by("".to_string()),
        Forwarded::new()
            .with_for("a b".to_string())
            .with_for("".to_string())
            .with_for("192.0.2.1".to_string())
            .with_host("host, with = signs".to_string())
            .with_proto("https".to_string()),
        Forwarded::new().with_for("x".to_string()).with_proto("h;t".to_string()),
    ];
    for m in models {
        let written = m.value().unwrap();
        let read = Forwarded::parse(&written).unwrap();
        assert_eq!(read.by(), m.by());
        assert_eq!(read.forwarded_for(), m.forwarded_for());
        assert_eq!(read.host(), m.host());
        assert_eq!(read.proto(), m.proto());
    }
}

#[test]
fn values_are_quoted_only_when_needed() {
    let forwarded = Forwarded::new()
        .with_for("".to_string())
        .with_for("plain".to_string())
        .with_host("example.com:8080".to_string())
        .with_proto("https".to_string());
    assert_eq!(
        forwarded.value().unwrap(),
        r#"for="", for=plain;host="example.com:8080";proto=https"#
    );
    let forwarded = Forwarded::new().with_by("proxy".to_string());
    assert_eq!(forwarded.value().unwrap(), "by=proxy;");
    let forwarded = Forwarded::new().with_proto("https".to_string());
    assert_eq!(forwarded.value().unwrap(), ";proto=https");
}

#[test]
fn duplicate_keys_are_errors() {
    for (input, msg) in [
        ("by=a;by=b", "parse error, duplicate `by` key"),
        ("host=a;host=b", "parse error, duplicate `host` key"),
        ("for=x;proto=a;proto=b", "parse error, duplicate `proto` key"),
    ] {
        assert_eq!(
            Forwarded::parse(input).unwrap_err().to_string(),
            format!("unable to parse forwarded header: {}", msg)
        );
    }
}

#[test]
fn unexpected_character_after_for_run() {
    assert_eq!(
        Forwarded::parse("for=a b").unwrap_err().to_string(),
        "unable to parse forwarded header: unexpected character after for= section"
    );
}

#[test]
fn key_matching_is_case_sensitive_after_the_first_pair() {
    let forwarded = Forwarded::parse("FOR=a;For=b;Host=h;by=x").unwrap();
    assert_eq!(forwarded.forwarded_for(), vec!["a"]);
    assert_eq!(forwarded.host(), None);
    assert_eq!(forwarded.by(), Some("x"));

    let forwarded = Forwarded::parse("by=x;for=y").unwrap();
    assert!(forwarded.forwarded_for().is_empty());
}

#[test]
fn short_input_is_not_a_for_run() {
    assert_eq!(
        Forwarded::parse("fo").unwrap_err().to_string(),
        "unable to parse forwarded header: parse error in forwarded-pair"
    );
    assert_eq!(Forwarded::parse("a=b").unwrap().by(), None);
}

#[test]
fn pairs_without_semicolon_after_quoted_value() {
    let forwarded = Forwarded::parse(r#"by="x"host=h"#).unwrap();
    assert_eq!(forwarded.by(), Some("x"));
    assert_eq!(forwarded.host(), Some("h"));
}

#[test]
fn builders_and_setters() {
    let mut forwarded = Forwarded::new();
    forwarded.set_by("b".to_string());
    forwarded.set_host("h".to_string());
    forwarded.add_for("f1".to_string());
    forwarded.add_for("f2".to_string());
    let forwarded = forwarded.with_proto("p".to_string());
    assert_eq!(forwarded.by(), Some("b"));
    assert_eq!(forwarded.host(), Some("h"));
    assert_eq!(forwarded.proto(), Some("p"));
    assert_eq!(forwarded.forwarded_for(), vec!["f1", "f2"]);
}

#[test]
fn legacy_headers_absent_or_partial() {
    assert!(Forwarded::from_x_headers(vec![], None, None).is_none());
    let forwarded = Forwarded::from_x_headers(vec![], Some("proxy"), None).unwrap();
    assert_eq!(forwarded.by(), Some("proxy"));
    assert!(forwarded.forwarded_for().is_empty());
    assert_eq!(forwarded.value().unwrap(), "by=proxy;");
}

#[test]
fn split_trims_unicode_white_space() {
    assert_eq!(
        split_forwarded_for("\u{a0} a ,b\t,, c\u{3000}"),
        vec!["a", "b", "", "c"]
    );
    assert_eq!(split_forwarded_for(""), vec![""]);
    assert_eq!(split_forwarded_for("   "), vec![""]);
    assert_eq!(bracket_ipv6("::1"), "[::1]");
}

#[test]
fn from_forwarded_header_ignores_absence() {
    assert!(Forwarded::from_forwarded_header(None).unwrap().is_none());
    let forwarded = Forwarded::from_forwarded_header(Some("proto=http"))
        .unwrap()
        .unwrap();
    assert_eq!(forwarded.proto(), Some("http"));
}
