use spiceai::research::{
    check_prompt_size, planning_prompt, research_complete_msg, truncate_escape_content, Artifact,
    Research, MAX_CONTENT_LENGTH,
};

#[test]
fn artifact_messages() {
    let doc = Artifact::Document { path: "a/b.md".to_string(), content: "say \"hi\"".to_string() };
    assert_eq!(
        doc.to_progress_message(3),
        "<artifact id=\"3\" type=\"document\" path=\"a/b.md\" length=\"8\" truncated=\"say \\\"hi\\\"\" />"
    );
    let snip = Artifact::TextSnippet("héllo".to_string());
    assert_eq!(snip.to_progress_message(0), "<artifact id=\"0\" type=\"text\" length=\"6\" truncated=\"héllo\" />");
    assert_eq!(doc.to_string(), "Document: a/b.md\nsay \"hi\"");
    assert_eq!(snip.to_string(), "héllo");
}

#[test]
fn truncation_at_one_hundred_bytes() {
    let long = "x".repeat(150);
    let t = truncate_escape_content(&long);
    assert_eq!(t, format!("{}...(truncated)...", "x".repeat(100)));
    let exact = "y".repeat(100);
    assert_eq!(truncate_escape_content(&exact), exact);
    let quoted = format!("{}\"tail", "z".repeat(99));
    assert_eq!(truncate_escape_content(&quoted), format!("{}\\\"...(truncated)...", "z".repeat(99)));
}

#[test]
fn research_summary_message() {
    let empty = Research { prompt: "p".to_string(), artifacts: vec![] };
    assert_eq!(research_complete_msg(&empty), "✅ Research completed\n\n📊 Summary:");
    let r = Research {
        prompt: "p".to_string(),
        artifacts: vec![
            Artifact::TextSnippet("s".to_string()),
            Artifact::Document { path: "x.rs".to_string(), content: String::new() },
            Artifact::Document { path: "y.rs".to_string(), content: String::new() },
        ],
    };
    assert_eq!(
        research_complete_msg(&r),
        "✅ Research completed\n\n📊 Summary:\n• Total artifacts: 3\n• Text snippets: 1\n• Documents: 2\n  - `x.rs`\n  - `y.rs`"
    );
    let only_snippets = Research { prompt: "p".to_string(), artifacts: vec![Artifact::TextSnippet("s".to_string())] };
    assert_eq!(
        research_complete_msg(&only_snippets),
        "✅ Research completed\n\n📊 Summary:\n• Total artifacts: 1\n• Text snippets: 1"
    );
}

#[test]
fn planning_prompt_and_size_limit() {
    let r = Research {
        prompt: "make a plan".to_string(),
        artifacts: vec![
            Artifact::Document { path: "a.md".to_string(), content: "alpha".to_string() },
            Artifact::TextSnippet("beta".to_string()),
        ],
    };
    assert_eq!(planning_prompt(&r), "Document: a.md\nalpha\n\nbeta\n\nmake a plan");
    let empty = Research { prompt: "p".to_string(), artifacts: vec![] };
    assert_eq!(planning_prompt(&empty), "\n\np");
    assert_eq!(check_prompt_size("short"), Ok(()));
    let long = "x".repeat(MAX_CONTENT_LENGTH + 1);
    assert_eq!(
        check_prompt_size(&long),
        Err("Research artifacts exceeds size limit: 1048577 (max: 1048576)".to_string())
    );
    assert_eq!(check_prompt_size(&"é".repeat(MAX_CONTENT_LENGTH / 2)), Ok(()));
}
