use barclock::iotawatt::{
    content_length, head_end, http_request, split_body, timeout_message, timings, ConfigInput,
    DeviceConfig, Endpoint, HttpReader, Poller, PowerEvent, Status, StatusInput, StatusOutput,
    MAX_BODY,
};
use barclock::number::{Quantity, Reading};
use serde_json::Value;

/// Captured from the real device on 2026-09-06 (trimmed to the channels that matter).
const STATUS: &str = r#"{"inputs":[{"channel":0,"Vrms":123.5632,"Hz":60.03416,"phase":0.6},
    {"channel":3,"Watts":" 5","Pf":0.477556},{"channel":4,"Watts":"962","Pf":0.953421},
    {"channel":13,"Watts":"3399"},{"channel":14,"Watts":"3657"}],
    "outputs":[{"name":"HydroQuebec","units":"Watts","value":7027.6}]}"#;

const CONFIG: &str = r#"{"inputs":[{"channel":0,"name":"Tension","model":"Jameco/112336"},null,
    {"channel":4,"name":"Serveurs","model":"AcuCT-H040-50"},
    {"channel":10,"name":"Poele","model":"AcuCT-H040-50"}],
    "outputs":[{"name":"HydroQuebec","script":"@13+@14","units":"Watts"}]}"#;

fn quantity(v: f64) -> Quantity {
    Quantity {
        value: Reading { bits: v.to_bits() },
        rounded: v.round() as i64,
        tenths: format!("{v:.1}"),
        percent_tenths: format!("{:.1}", v.clamp(0.0, 100.0)),
        minutes: (v * 60.0).round() as i64,
        thousandfold: Reading { bits: (v * 1000.0).to_bits() },
        thousandfold_rounded: (v * 1000.0).round() as i64,
        percent: (v / 255.0 * 100.0).round() as i64,
    }
}

fn watts(v: &Value) -> Option<Quantity> {
    match v {
        Value::Number(n) => n.as_f64(),
        Value::String(s) => s.trim().parse::<f64>().ok(),
        _ => None,
    }
    .filter(|w| w.is_finite())
    .map(quantity)
}

fn status(t: &str) -> Status {
    let v: Value = serde_json::from_str(t).unwrap();
    let list = |k: &str| v[k].as_array().cloned().unwrap_or_default();
    Status {
        inputs: list("inputs")
            .iter()
            .map(|i| StatusInput { channel: i["channel"].as_i64().unwrap(), watts: watts(&i["Watts"]) })
            .collect(),
        outputs: list("outputs")
            .iter()
            .map(|o| StatusOutput { name: o["name"].as_str().unwrap().into(), value: watts(&o["value"]) })
            .collect(),
    }
}

fn device(t: &str) -> DeviceConfig {
    let v: Value = serde_json::from_str(t).unwrap();
    DeviceConfig {
        inputs: v["inputs"]
            .as_array()
            .unwrap()
            .iter()
            .map(|i| {
                i.as_object().map(|o| ConfigInput {
                    channel: o["channel"].as_i64().unwrap(),
                    name: o["name"].as_str().unwrap().into(),
                })
            })
            .collect(),
    }
}

fn value(q: Option<Quantity>) -> Option<f64> {
    q.map(|q| f64::from_bits(q.value.bits))
}

#[test]
fn reads_the_house_output_and_the_servers_input() {
    let s = status(STATUS);
    assert_eq!(value(s.output_watts("HydroQuebec")), Some(7027.6));
    assert_eq!(value(s.output_watts("hydroquebec")), Some(7027.6), "names match case-insensitively");
    assert_eq!(s.output_watts("Nope"), None);
    assert_eq!(s.output_watts(""), None);
    // padded strings, and the voltage channel that carries no Watts at all
    assert_eq!(value(s.input_watts(4)), Some(962.0));
    assert_eq!(value(s.input_watts(3)), Some(5.0));
    assert_eq!(s.input_watts(0), None);
    assert_eq!(s.input_watts(99), None);
    assert_eq!(s.output_names(), vec!["HydroQuebec".to_string()]);
}

#[test]
fn resolves_an_input_name_to_its_channel_skipping_empty_slots() {
    let c = device(CONFIG);
    assert_eq!(c.channel_of("Serveurs"), Some(4));
    assert_eq!(c.channel_of(" serveurs "), Some(4));
    assert_eq!(c.channel_of("Poele"), Some(10));
    assert_eq!(c.channel_of("Absent"), None);
}

#[test]
fn reads_content_length_from_headers() {
    assert_eq!(content_length(b"HTTP/1.1 200 OK\r\nContent-Length: 950"), Some(950));
    assert_eq!(content_length(b"HTTP/1.1 200 OK\r\ncontent-length:  12  "), Some(12));
    assert_eq!(content_length(b"HTTP/1.1 200 OK\r\nContent-Type: application/json"), None);
    assert_eq!(content_length(b"HTTP/1.1 200 OK\r\nContent-Length: nope"), None);
}

#[test]
fn the_first_length_counts_and_headers_must_be_text() {
    assert_eq!(content_length(b"Content-Length: x\r\nContent-Length: 5"), None);
    assert_eq!(content_length(b"Content-Length: 5\r\nContent-Length: 6"), Some(5));
    assert_eq!(content_length(b"Content-Length: 5\xff"), None);
    assert_eq!(content_length(b""), None);
    assert_eq!(head_end(b"a\r\n\r\nb\r\n\r\n"), Some(1));
    assert_eq!(head_end(b"\r\n\r"), None);
}

#[test]
fn splits_the_body_and_refuses_non_200() {
    let ok = b"HTTP/1.1 200 OK\r\nContent-Type: application/json\r\nContent-Length: 2\r\nConnection: close\r\n\r\n{}";
    assert_eq!(split_body(ok).unwrap(), b"{}");
    let missing = b"HTTP/1.1 404 Not Found\r\nContent-Length: 0\r\n\r\n";
    assert!(split_body(missing).unwrap_err().to_string().contains("404"));
    assert!(split_body(b"HTTP/1.1 200 OK\r\nno end of headers").is_err());
    // a body containing the separator's bytes must not confuse the split
    let tricky = b"HTTP/1.1 200 OK\r\n\r\n{\"a\":\"\r\n\r\n\"}";
    assert_eq!(split_body(tricky).unwrap(), b"{\"a\":\"\r\n\r\n\"}");
    // Content-Length wins over whatever else the device leaves on the socket
    let extra = b"HTTP/1.1 200 OK\r\nContent-Length: 2\r\n\r\n{}trailing junk";
    assert_eq!(split_body(extra).unwrap(), b"{}");
    // a too-large Content-Length keeps what actually arrived instead of panicking
    let short = b"HTTP/1.1 200 OK\r\nContent-Length: 99\r\n\r\n{}";
    assert_eq!(split_body(short).unwrap(), b"{}");
}

#[test]
fn response_errors_in_words() {
    assert_eq!(split_body(b"HTTP"), Err("truncated response: no end of headers".into()));
    assert_eq!(split_body(b"\xff\r\n\r\n"), Err("non-UTF-8 response headers: invalid utf-8 sequence of 1 bytes from index 0".into()));
    assert_eq!(split_body(b"HTTP/1.1 500\r\n\r\n"), Err("unexpected response status: \"HTTP/1.1 500\"".into()));
    assert_eq!(split_body(b"\r\n\r\n"), Err("unexpected response status: \"\"".into()));
}

#[test]
fn a_response_is_read_until_it_is_complete() {
    let mut r = HttpReader::new();
    assert!(!r.is_complete());
    r.feed(b"HTTP/1.1 200 OK\r\nContent-Le").unwrap();
    r.feed(b"ngth: 3\r\n\r").unwrap();
    assert!(!r.is_complete());
    r.feed(b"\n{}").unwrap();
    assert!(!r.is_complete());
    r.feed(b" ").unwrap();
    assert!(r.is_complete());
    assert_eq!(r.finish(), Ok(b"{} ".to_vec()));
    // without a length the close is the end
    let mut r = HttpReader::new();
    r.feed(b"HTTP/1.1 200 OK\r\n\r\n{}").unwrap();
    assert!(!r.is_complete());
    assert_eq!(r.finish(), Ok(b"{}".to_vec()));
    // a length that nothing can reach
    let mut r = HttpReader::new();
    r.feed(b"HTTP/1.1 200 OK\r\nContent-Length: 18446744073709551615\r\n\r\n").unwrap();
    assert!(!r.is_complete());
    let mut r = HttpReader::new();
    r.feed(&vec![b'x'; MAX_BODY]).unwrap();
    assert_eq!(r.feed(b"x"), Err("response larger than 262144 bytes".into()));
}

#[test]
fn parses_urls() {
    assert_eq!(
        Endpoint::parse("http://192.168.1.50/").unwrap(),
        Endpoint { host: "192.168.1.50".into(), port: 80 }
    );
    assert_eq!(
        Endpoint::parse("192.168.1.50").unwrap(),
        Endpoint { host: "192.168.1.50".into(), port: 80 }
    );
    assert_eq!(
        Endpoint::parse("http://iotawatt.local:8080/status").unwrap(),
        Endpoint { host: "iotawatt.local".into(), port: 8080 }
    );
    assert_eq!(Endpoint::parse("http://192.168.1.50/").unwrap().to_text(), "192.168.1.50");
    assert_eq!(
        Endpoint::parse("http://h:8080/").unwrap().to_text(),
        "h:8080",
        "the Host header keeps a non-default port"
    );
    assert!(Endpoint::parse("https://192.168.1.50/").is_err());
    assert!(Endpoint::parse("http://host:notaport/").is_err());
    assert!(Endpoint::parse("   ").is_err());
}

#[test]
fn url_errors_in_words() {
    assert_eq!(
        Endpoint::parse(" https://h\t"),
        Err("the IoTaWatt is polled over plain HTTP, https is not supported: \"https://h\"".into())
    );
    assert_eq!(Endpoint::parse("http:///x"), Err("no host in the iotawatt url \"http:///x\"".into()));
    assert_eq!(Endpoint::parse("http://:80"), Err("no host in the iotawatt url \"http://:80\"".into()));
    let bad_port = |port: &str, why: &str| {
        assert_eq!(
            Endpoint::parse(&format!("h:{port}")),
            Err(format!("bad port in the iotawatt url \"h:{port}\": {why}"))
        )
    };
    bad_port("65536", "number too large to fit in target type");
    bad_port("8o", "invalid digit found in string");
    bad_port("", "cannot parse integer from empty string");
    assert_eq!(Endpoint::parse("h:+81").unwrap(), Endpoint { host: "h".into(), port: 81 });
    let e = Endpoint::parse("h:81").unwrap();
    assert_eq!(
        http_request("/config.txt", &e),
        "GET /config.txt HTTP/1.1\r\nHost: h:81\r\nUser-Agent: barclock\r\nAccept: application/json\r\nConnection: close\r\n\r\n"
    );
    assert_eq!(timeout_message(&e, 2000), "no answer from h:81 within 2000 ms");
    assert_eq!(timings(1, 0), (200_000_000, 200_000_000));
    assert_eq!(timings(1000, 99_999), (1_000_000_000, 30_000_000_000));
}

#[test]
fn an_outage_falls_back_once() {
    let mut p = Poller::new("HydroQuebec", "Serveurs", 3);
    assert!(p.on_answer());
    assert_eq!(p.on_channel(Some(4)), None);
    assert!(!p.on_answer());
    let step = p.on_status(&status(STATUS));
    assert!(step.warnings.is_empty());
    match step.event {
        Some(PowerEvent::Live { house, servers }) => {
            assert_eq!(value(house), Some(7027.6));
            assert_eq!(value(servers), Some(962.0));
        }
        other => panic!("{other:?}"),
    }
    let step = p.on_failure("timeout".into());
    assert_eq!(step.warnings, vec!["iotawatt: timeout (attempt 1)".to_string()]);
    assert_eq!(step.event, None);
    assert!(p.on_failure("timeout".into()).warnings.is_empty());
    let step = p.on_failure("timeout".into());
    assert_eq!(
        step.warnings,
        vec!["iotawatt: unreachable after 3 polls, house and servers fall back to the Home Assistant sensors".to_string()]
    );
    assert_eq!(step.event, Some(PowerEvent::Down));
    assert_eq!(p.servers_channel, None);
    let step = p.on_failure("refused".into());
    assert_eq!(step.warnings, vec!["iotawatt: refused (attempt 4)".to_string()]);
    assert_eq!(step.event, None);
    assert!(p.on_answer(), "the channel is asked for again");
    assert_eq!((p.failures, p.fell_back), (0, false));
}

#[test]
fn missing_names_are_warned_about_once() {
    let mut p = Poller::new("Nope", "Absent", 0);
    assert_eq!(p.give_up_after, 1);
    assert_eq!(
        p.on_channel(None).as_deref(),
        Some("iotawatt: no input named \"Absent\" on the device, the servers value stays on Home Assistant")
    );
    assert_eq!(p.on_channel(None), None);
    assert!(p.on_status(&status(STATUS)).warnings.is_empty());
    let mut p = Poller::new("Nope", "", 1);
    assert!(!p.on_answer());
    let step = p.on_status(&status(STATUS));
    assert_eq!(
        step.warnings,
        vec!["iotawatt: no output named \"Nope\" on the device (it has [\"HydroQuebec\"])".to_string()]
    );
    assert_eq!(step.event, Some(PowerEvent::Live { house: None, servers: None }));
    assert!(p.on_status(&status(STATUS)).warnings.is_empty());
}

#[test]
fn an_endpoint_reads_back() {
    for url in ["http://192.168.1.50/", "iotawatt.local:8080", "http://a:b:81/x"] {
        let e = Endpoint::parse(url).unwrap();
        let text = e.to_text();
        assert_eq!(Endpoint::parse(&text).unwrap(), e);
        assert_eq!(Endpoint::parse(&format!("http://{text}")).unwrap(), e);
        assert_eq!(Endpoint::parse(&format!("http://{text}/status?a=b:c/d ")).unwrap(), e);
    }
}
