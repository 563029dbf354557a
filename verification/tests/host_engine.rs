//! Host facts read as text, and the in-process engine's message and reply.
use genie::engine::{answer_of, extract_text, generation_result, user_message, Json};
use genie::host::{home_dir, meminfo_total_gb, memsize_total_gb, search_candidates, total_gb};

const MEMINFO: &str = "MemTotal:       16318412 kB\nMemFree:         1024 kB\n";

#[test]
fn meminfo_total() {
    assert_eq!(meminfo_total_gb(MEMINFO), Some(15));
    assert_eq!(meminfo_total_gb("MemFree: 1 kB\n"), None);
    assert_eq!(meminfo_total_gb("MemTotal: lots\nMemTotal: 8388608 kB\n"), Some(8));
    assert_eq!(meminfo_total_gb(""), None);
}

#[test]
fn sysctl_memsize() {
    assert_eq!(memsize_total_gb("17179869184\n"), Some(16));
    assert_eq!(memsize_total_gb("sysctl: unknown oid"), None);
}

#[test]
fn total_ram_prefers_meminfo() {
    assert_eq!(total_gb(&Some(MEMINFO.to_string()), &Some("34359738368".to_string())), 15);
    assert_eq!(total_gb(&Some("junk".to_string()), &Some("34359738368".to_string())), 32);
    assert_eq!(total_gb(&None, &None), 0);
    assert_eq!(total_gb(&None, &Some("x".to_string())), 0);
}

#[test]
fn search_path_candidates() {
    assert_eq!(search_candidates("/usr/bin:/bin", ':', "soffice"), vec!["/usr/bin/soffice", "/bin/soffice"]);
    assert_eq!(search_candidates("", ':', "uvx"), vec!["uvx"]);
}

#[test]
fn home_directory_fallbacks() {
    assert_eq!(home_dir(&Some("/home/u".into()), &Some("C:\\U".into())), "/home/u");
    assert_eq!(home_dir(&None, &Some("C:\\U".into())), "C:\\U");
    assert_eq!(home_dir(&None, &None), ".");
}

#[test]
fn user_message_is_json() {
    assert_eq!(user_message("why?"), "{\"content\":\"why?\",\"role\":\"user\"}");
    assert_eq!(
        user_message("a \"q\"\\\n\t\u{1}"),
        "{\"content\":\"a \\\"q\\\"\\\\\\n\\t\\u0001\",\"role\":\"user\"}"
    );
    let v: serde_json::Value = serde_json::from_str(&user_message("x\u{7f}y")).unwrap();
    assert_eq!(v["content"], "x\u{7f}y");
    assert_eq!(v["role"], "user");
}

fn obj(members: Vec<(&str, Json)>) -> Json {
    Json::Object(members.into_iter().map(|(k, v)| (k.to_string(), v)).collect())
}

#[test]
fn reply_text_extraction() {
    let raw = "{...}";
    let parts = obj(vec![(
        "content",
        Json::Array(vec![
            obj(vec![("type", Json::Str("text".into())), ("text", Json::Str("Blue ".into()))]),
            obj(vec![("type", Json::Str("image".into()))]),
            obj(vec![("text", Json::Str("sky.".into()))]),
        ]),
    )]);
    assert_eq!(extract_text(raw, &Some(parts)), "Blue sky.");
    let plain = obj(vec![("content", Json::Str("Hello".into()))]);
    assert_eq!(extract_text(raw, &Some(plain)), "Hello");
    let empty_parts = obj(vec![("content", Json::Array(vec![])), ("text", Json::Str("T".into()))]);
    assert_eq!(extract_text(raw, &Some(empty_parts)), "T");
    let other = obj(vec![("content", Json::Number("3".into()))]);
    assert_eq!(extract_text(raw, &Some(other)), raw);
    assert_eq!(extract_text("not json", &None), "not json");
    assert_eq!(extract_text(raw, &Some(Json::Null)), raw);
}

#[test]
fn blank_generation_is_an_error() {
    assert_eq!(generation_result("answer".into()), Ok("answer".to_string()));
    assert_eq!(generation_result(" \n".into()), Err("generation produced no output".to_string()));
}

#[test]
fn reply_is_parsed_and_read() {
    assert_eq!(
        answer_of("{\"content\":[{\"type\":\"text\",\"text\":\"Blue \"},{\"type\":\"text\",\"text\":\"sky.\"}]}"),
        "Blue sky."
    );
    assert_eq!(answer_of("{\"content\":\"Hi\",\"role\":\"model\"}"), "Hi");
    assert_eq!(answer_of("{\"text\":\"T\",\"n\":1.5}"), "T");
    assert_eq!(answer_of("{\"other\":[1,null,true]}"), "{\"other\":[1,null,true]}");
    assert_eq!(answer_of("plain words"), "plain words");
}
