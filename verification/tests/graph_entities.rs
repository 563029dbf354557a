//! Entity extraction and the correlation-graph statements.
use genie::entities::{extract_entities, is_acronym, is_stopword, is_title_case};
use genie::graph::{
    already_recorded, correlation_context, display_name, esc, file_update, files_query, format_i64, join_strings,
    pad_left, plan_file_update, question_terms, related_query, schema_statements, sig_query,
    stats_lines, stats_queries, table_lines, update_statements, TermHits,
};

#[test]
fn entities_ranked_by_count_then_length() {
    let text = "Project Apollo is owned by Jane Smith and built by Acme Corporation.\n\
                Project Zeus is owned by Bob Jones. Acme Corporation is the auditor.\n\
                NASA and NASA again.";
    let e = extract_entities(text, 40);
    let expected: Vec<(String, i64)> = vec![
        ("Acme Corporation".to_string(), 2),
        ("NASA".to_string(), 2),
        ("Project Apollo".to_string(), 1),
        ("Project Zeus".to_string(), 1),
        ("Jane Smith".to_string(), 1),
        ("Bob Jones".to_string(), 1),
    ];
    assert_eq!(e, expected);
}

#[test]
fn entities_are_capped_and_skip_stopwords() {
    let e = extract_entities("The cat. This dog. Alpha Beta Gamma went home.", 1);
    assert_eq!(e, vec![("Alpha Beta Gamma".to_string(), 1)]);
    assert!(extract_entities("The end. This one. That too.", 10).is_empty());
    assert_eq!(extract_entities("The This That", 10), vec![("The This That".to_string(), 1)]);
    assert!(extract_entities("", 10).is_empty());
}

#[test]
fn word_classes() {
    assert!(is_title_case("Apollo"));
    assert!(!is_title_case("APOLLO"));
    assert!(!is_title_case("apollo"));
    assert!(is_acronym("NASA"));
    assert!(is_acronym("B52"));
    assert!(!is_acronym("52"));
    assert!(!is_acronym("A"));
    assert!(!is_acronym("ABCDEFGHIJK"));
    assert!(is_stopword("Which"));
    assert!(!is_stopword("which"));
}

#[test]
fn escaping_for_cypher_strings() {
    assert_eq!(esc("O'Brien"), "O\\'Brien");
    assert_eq!(esc("a\\b"), "a\\\\b");
    assert_eq!(esc("plain"), "plain");
}

#[test]
fn escaping_round_trips() {
    for s in ["O'Brien", "a\\b", "\\'", "''\\\\", "x"] {
        let e = esc(s);
        let mut out = String::new();
        let mut it = e.chars();
        while let Some(c) = it.next() {
            if c == '\\' {
                out.push(it.next().unwrap());
            } else {
                assert_ne!(c, '\'');
                out.push(c);
            }
        }
        assert_eq!(out, s);
    }
}

#[test]
fn schema_and_queries() {
    let s = schema_statements();
    assert_eq!(s.len(), 3);
    assert!(s[0].starts_with("CREATE NODE TABLE IF NOT EXISTS File("));
    assert_eq!(sig_query("/d/a'b.txt"), "MATCH (f:File {path:'/d/a\\'b.txt'}) RETURN f.sig;");
    assert_eq!(
        files_query("Acme"),
        "MATCH (e:Entity {name:'Acme'})<-[:Mentions]-(f:File) RETURN f.name LIMIT 20;"
    );
    assert_eq!(
        related_query("Acme"),
        "MATCH (e:Entity {name:'Acme'})<-[:Mentions]-(:File)-[:Mentions]->(e2:Entity) RETURN DISTINCT e2.name LIMIT 20;"
    );
    let q = stats_queries();
    assert_eq!(q.0, "MATCH (f:File) RETURN count(f);");
}

#[test]
fn recorded_signature_check() {
    assert!(already_recorded(&vec!["old".into(), "s1".into()], "s1"));
    assert!(!already_recorded(&vec!["s1".into(), "old".into()], "s1"));
    assert!(!already_recorded(&vec![], "s1"));
}

#[test]
fn display_name_is_the_final_component() {
    assert_eq!(display_name("/docs/apollo.txt"), "apollo.txt");
    assert_eq!(display_name("/"), "/");
    assert_eq!(display_name("/docs/.."), "/docs/..");
}

#[test]
fn update_statements_for_a_file() {
    let u = update_statements("/d/a.txt", "sig1", "a.txt", &vec![("Acme".to_string(), 3)]);
    assert_eq!(u.upsert_file, "MERGE (f:File {path:'/d/a.txt'}) SET f.sig='sig1', f.name='a.txt';");
    assert_eq!(u.clear_mentions, "MATCH (f:File {path:'/d/a.txt'})-[m:Mentions]->() DELETE m;");
    assert_eq!(u.entities.len(), 1);
    assert_eq!(u.entities[0].0, "MERGE (e:Entity {name:'Acme'});");
    assert_eq!(
        u.entities[0].1,
        "MATCH (f:File {path:'/d/a.txt'}), (e:Entity {name:'Acme'}) MERGE (f)-[m:Mentions]->(e) SET m.count=3;"
    );
}

#[test]
fn plan_file_update_uses_the_file_name() {
    let (ents, u) = plan_file_update("/d/zeus.txt", "s", "Project Zeus is owned by Bob Jones.");
    assert_eq!(ents.len(), 2);
    assert_eq!(u.upsert_file, "MERGE (f:File {path:'/d/zeus.txt'}) SET f.sig='s', f.name='zeus.txt';");
    assert_eq!(u.entities.len(), 2);
}

#[test]
fn i64_rendering() {
    assert_eq!(format_i64(0), "0");
    assert_eq!(format_i64(-42), "-42");
    assert_eq!(format_i64(i64::MIN), i64::MIN.to_string());
    assert_eq!(format_i64(i64::MAX), i64::MAX.to_string());
}

#[test]
fn correlation_context_lines() {
    let hits = vec![
        TermHits { term: "Acme".into(), files: vec!["a.txt".into(), "b.txt".into()], related: vec!["Jane Smith".into()] },
        TermHits { term: "Nobody".into(), files: vec![], related: vec![] },
        TermHits { term: "Zeus".into(), files: vec![], related: vec!["Bob Jones".into()] },
    ];
    assert_eq!(
        correlation_context(&hits),
        Some("- Acme: mentioned in [a.txt, b.txt]; related to [Jane Smith]\n- Zeus: ; related to [Bob Jones]\n".to_string())
    );
    assert_eq!(correlation_context(&vec![TermHits { term: "X".into(), files: vec![], related: vec![] }]), None);
    let terms = question_terms("Who owns Project Apollo?");
    assert_eq!(terms, vec![("Project Apollo".to_string(), 1), ("Who".to_string(), 1)]);
}

#[test]
fn stats_and_tables() {
    assert_eq!(stats_lines(false, "/g", &None, &None, &None, &vec![]), vec!["No correlation graph yet (index some files first)."]);
    let l = stats_lines(true, "/g", &Some("2".into()), &None, &Some("5".into()), &vec![("Acme".into(), "2".into())]);
    assert_eq!(
        l,
        vec![
            "Correlation graph: /g",
            "  Files:    2",
            "  Entities: 0",
            "  Mentions: 5",
            "  Top entities (by files mentioning):",
            "      2  Acme",
        ]
    );
    assert_eq!(pad_left("7", 3), "  7");
    assert_eq!(pad_left("1234", 3), "1234");
    assert_eq!(join_strings(&vec!["a".into(), "b".into()], ", "), "a, b");
    assert_eq!(join_strings(&vec![], ", "), "");
    let t = table_lines(&vec!["f.name".into(), "e.name".into()], &vec![vec!["a.txt".into(), "Acme".into()]]);
    assert_eq!(t, vec!["f.name | e.name", "a.txt | Acme"]);
}

#[test]
fn recorded_file_is_skipped() {
    let text = "Project Apollo is owned by Jane Smith.";
    assert!(file_update(&vec!["s1".into()], "/d/a.txt", "s1", text).is_none());
    let (ents, u) = file_update(&vec!["s0".into()], "/d/a.txt", "s1", text).unwrap();
    assert_eq!(ents.len(), 2);
    assert_eq!(u.upsert_file, "MERGE (f:File {path:'/d/a.txt'}) SET f.sig='s1', f.name='a.txt';");
    assert!(file_update(&vec![], "/d/a.txt", "s1", text).is_some());
}

#[test]
fn top_k_is_a_prefix_of_the_full_ranking() {
    let text = "Acme Corporation and Acme Corporation. NASA, NASA, NASA. Jane Smith met Bob Jones.";
    let all = extract_entities(text, 100);
    for k in 0..=all.len() + 1 {
        let top = extract_entities(text, k);
        assert_eq!(top.len(), k.min(all.len()));
        for e in &top {
            assert!(all.contains(e));
        }
    }
    assert_eq!(all[0], ("NASA".to_string(), 3));
    assert_eq!(all[1], ("Acme Corporation".to_string(), 2));
}
