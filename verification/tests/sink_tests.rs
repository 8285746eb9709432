use ccheck::adapters::{CCheckChat, CCheckPlayer, CCheckResponse};
use ccheck::format::ccheck::{CCheckFileHandler, CCheckFormat, Server};
use ccheck::pool::Target;
use ccheck::text::{i32_to_string, usize_to_string};

fn chat(text: &str) -> CCheckChat {
    CCheckChat {
        text: text.to_string(),
        bold: false,
        italic: false,
        underlined: false,
        strikethrough: false,
        obfuscated: false,
        color: None,
        extra: Vec::new(),
    }
}

fn rich_resp() -> CCheckResponse {
    let mut motd = chat("A \"fancy\" server\nline two \\ done");
    motd.bold = true;
    motd.color = Some("gold".to_string());
    motd.extra = vec![chat("child one"), chat("child \u{1} two")];
    CCheckResponse {
        version: "1.19.2".to_string(),
        protocol: 760,
        max_players: 500,
        online_players: 2,
        sample: Some(vec![
            CCheckPlayer { name: "Alice".to_string(), id: "aaaa-1111".to_string() },
            CCheckPlayer { name: "B\"ob".to_string(), id: "bbbb-2222".to_string() },
        ]),
        description: motd,
        favicon: Some(vec![0x89, 0x50, 0x4e, 0x47, 0x00, 0x0a]),
    }
}

#[test]
fn decimal_renderings_are_exact() {
    assert_eq!(usize_to_string(0), "0");
    assert_eq!(usize_to_string(10), "10");
    assert_eq!(usize_to_string(65535), "65535");
    assert_eq!(i32_to_string(-2147483648), "-2147483648");
    assert_eq!(i32_to_string(758), "758");
    assert_eq!(i32_to_string(0), "0");
}

#[test]
fn stream_parses_as_array_with_one_element_per_append() {
    let mut h = CCheckFileHandler::new();
    for i in 0..3 {
        let r = rich_resp();
        let server = Server::from_resp(r, Target { host: format!("host{i}"), port: 25565 });
        h.write_resp(server);
    }
    assert_eq!(h.count, 3);
    h.done();
    let text: String = h.buf.iter().collect();
    let v: serde_json::Value = serde_json::from_str(&text).expect("stream must parse");
    assert_eq!(v.as_array().expect("array").len(), 3);
}

#[test]
fn chunks_reassemble_into_the_same_stream() {
    let mut h = CCheckFileHandler::new();
    let mut assembled = String::from("[");
    for i in 0..2 {
        let r = rich_resp();
        let server = Server::from_resp(r, Target { host: format!("h{i}"), port: 1 });
        let chunk = h.write_resp(server);
        assembled.push_str(&chunk);
    }
    assembled.push_str(&h.done());
    let stream: String = h.buf.iter().collect();
    assert_eq!(assembled, stream);
}

#[test]
fn record_read_back_reproduces_the_response() {
    let r = rich_resp();
    let favicon_bytes = r.favicon.clone().unwrap();
    let t = Target { host: "203.0.113.9".to_string(), port: 25565 };
    let mut h = CCheckFileHandler::new();
    h.write_resp(Server::from_resp(r, t));
    h.done();
    let text: String = h.buf.iter().collect();
    let v: serde_json::Value = serde_json::from_str(&text).expect("stream must parse");
    let rec = &v.as_array().unwrap()[0];

    assert_eq!(rec["version"].as_str().unwrap(), "1.19.2");
    assert_eq!(rec["protocol"].as_i64().unwrap(), 760);
    assert_eq!(rec["ip"][0].as_str().unwrap(), "203.0.113.9");
    assert_eq!(rec["ip"][1].as_u64().unwrap(), 25565);

    let players = rec["players"].as_array().unwrap();
    assert_eq!(players.len(), 2);
    assert_eq!(players[0]["username"].as_str().unwrap(), "Alice");
    assert_eq!(players[0]["uuid"].as_str().unwrap(), "aaaa-1111");
    assert_eq!(players[1]["username"].as_str().unwrap(), "B\"ob");
    assert_eq!(players[1]["uuid"].as_str().unwrap(), "bbbb-2222");
    assert!(players[0]["last_online"].is_u64());

    let favicon = rec["favicon"].as_str().unwrap();
    assert_eq!(base64::decode(favicon).unwrap(), favicon_bytes);

    let motd = &rec["motd"];
    assert_eq!(motd["text"].as_str().unwrap(), "A \"fancy\" server\nline two \\ done");
    assert_eq!(motd["bold"].as_bool().unwrap(), true);
    assert_eq!(motd["italic"].as_bool().unwrap(), false);
    assert_eq!(motd["color"].as_str().unwrap(), "gold");
    let extra = motd["extra"].as_array().unwrap();
    assert_eq!(extra.len(), 2);
    assert_eq!(extra[0]["text"].as_str().unwrap(), "child one");
    assert_eq!(extra[1]["text"].as_str().unwrap(), "child \u{1} two");
    assert!(extra[0]["color"].is_null());
}

#[test]
fn empty_sink_closes_as_an_empty_array() {
    let mut h = CCheckFileHandler::new();
    h.done();
    let text: String = h.buf.iter().collect();
    assert_eq!(text, "[]");
    let v: serde_json::Value = serde_json::from_str(&text).unwrap();
    assert_eq!(v.as_array().unwrap().len(), 0);
}

#[test]
fn format_to_json_matches_the_sink_stream() {
    let make = |host: &str| {
        Server::from_resp(rich_resp(), Target { host: host.to_string(), port: 7 })
    };
    let s1 = make("x");
    let s2 = make("y");
    let fmt = CCheckFormat::new(vec![s1, s2]);
    let text = fmt.to_json();
    let v: serde_json::Value = serde_json::from_str(&text).expect("must parse");
    let arr = v.as_array().unwrap();
    assert_eq!(arr.len(), 2);
    assert_eq!(arr[0]["ip"][0].as_str().unwrap(), "x");
    assert_eq!(arr[1]["ip"][0].as_str().unwrap(), "y");
}
