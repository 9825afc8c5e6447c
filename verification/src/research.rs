//! Research artifacts gathered by the agent pipeline, and their summaries.

use vstd::prelude::*;
use vstd::string::StringExecFns;
use vstd::utf8::{decode_utf8, encode_utf8, encode_utf8_decode_utf8, is_char_boundary};
use crate::text::{chars_of, decimal, decimal_string, push_char};

verus! {

broadcast use vstd::string::group_string_axioms;

/// An artifact found while researching.
#[derive(Debug, Clone)]
pub enum Artifact {
    Document { path: String, content: String },
    TextSnippet(String),
}

/// A research result: the prompt and the artifacts found for it.
#[derive(Debug, Clone)]
pub struct Research {
    pub prompt: String,
    pub artifacts: Vec<Artifact>,
}

/// `s` with each `"` preceded by a backslash.
pub open spec fn escape_quotes(s: Seq<char>) -> Seq<char>
    decreases s.len(),
{
    if s.len() == 0 {
        Seq::empty()
    } else {
        escape_quotes(s.drop_last()) + if s.last() == '"' {
            seq!['\\', '"']
        } else {
            seq![s.last()]
        }
    }
}

/// The UTF-8 length in bytes of a text, as `str::len` reports it.
pub open spec fn byte_len(s: Seq<char>) -> usize {
    encode_utf8(s).len() as usize
}

/// A text cut to its first 100 bytes, with a marker, when it is longer.
pub open spec fn truncated_text(s: Seq<char>) -> Seq<char> {
    if byte_len(s) > 100 {
        decode_utf8(encode_utf8(s).take(100)) + "...(truncated)..."@
    } else {
        s
    }
}

/// Whether a text can be cut at byte 100 (it is short enough, or byte 100
/// starts a character).
pub open spec fn cuttable(s: Seq<char>) -> bool {
    byte_len(s) <= 100 || is_char_boundary(encode_utf8(s), 100)
}

fn escape_quote_chars(s: &str) -> (res: String)
    ensures
        res@ == escape_quotes(s@),
{
    let cs = chars_of(s);
    let mut res = String::new();
    let mut i: usize = 0;
    while i < cs.len()
        invariant
            i <= cs.len(),
            cs@ == s@,
            res@ == escape_quotes(s@.take(i as int)),
        decreases cs.len() - i,
    {
        assert(s@.take(i + 1).drop_last() =~= s@.take(i as int));
        if cs[i] == '"' {
            push_char(&mut res, '\\');
            push_char(&mut res, '"');
        } else {
            push_char(&mut res, cs[i]);
        }
        i += 1;
    }
    assert(s@.take(cs.len() as int) =~= s@);
    res
}

/// Cuts a text to 100 bytes (marking the cut) and escapes its quotes.
pub fn truncate_escape_content(content: &str) -> (res: String)
    requires
        cuttable(content@),
    ensures
        res@ == escape_quotes(truncated_text(content@)),
{
    if content.len() > 100 {
        let (head, _) = content.split_at(100);
        proof {
            encode_utf8_decode_utf8(head@);
        }
        let mut t = String::from_str(head);
        t.append("...(truncated)...");
        escape_quote_chars(t.as_str())
    } else {
        escape_quote_chars(content)
    }
}

/// The progress message of an artifact.
pub open spec fn artifact_message(a: Artifact, id: nat) -> Seq<char> {
    "<artifact id=\""@ + decimal(id) + "\" "@ + match a {
        Artifact::Document { path, content } => "type=\"document\" path=\""@ + path@
            + "\" length=\""@ + decimal(byte_len(content@) as nat) + "\" truncated=\""@
            + escape_quotes(truncated_text(content@)) + "\" />"@,
        Artifact::TextSnippet(text) => "type=\"text\" length=\""@ + decimal(
            byte_len(text@) as nat,
        ) + "\" truncated=\""@ + escape_quotes(truncated_text(text@)) + "\" />"@,
    }
}

/// Whether every text of an artifact can be cut at byte 100.
pub open spec fn artifact_cuttable(a: Artifact) -> bool {
    match a {
        Artifact::Document { content, .. } => cuttable(content@),
        Artifact::TextSnippet(text) => cuttable(text@),
    }
}

impl Artifact {
    /// `<artifact id="<id>" type=... length="<bytes>" truncated="<text>" />`
    pub fn to_progress_message(&self, id: usize) -> (res: String)
        requires
            artifact_cuttable(*self),
        ensures
            res@ == artifact_message(*self, id as nat),
    {
        let mut message = String::from_str("<artifact id=\"");
        let ids = decimal_string(id);
        message.append(ids.as_str());
        message.append("\" ");
        match self {
            Artifact::Document { path, content } => {
                message.append("type=\"document\" path=\"");
                message.append(path.as_str());
                message.append("\" length=\"");
                let len = decimal_string(content.as_str().len());
                message.append(len.as_str());
                message.append("\" truncated=\"");
                let t = truncate_escape_content(content.as_str());
                message.append(t.as_str());
                message.append("\" />");
            },
            Artifact::TextSnippet(text) => {
                message.append("type=\"text\" length=\"");
                let len = decimal_string(text.as_str().len());
                message.append(len.as_str());
                message.append("\" truncated=\"");
                let t = truncate_escape_content(text.as_str());
                message.append(t.as_str());
                message.append("\" />");
            },
        }
        message
    }

    /// The display form of an artifact.
    pub fn to_string(&self) -> (res: String)
        ensures
            res@ == match *self {
                Artifact::Document { path, content } => "Document: "@ + path@ + seq!['\n']
                    + content@,
                Artifact::TextSnippet(text) => text@,
            },
    {
        match self {
            Artifact::Document { path, content } => {
                let mut s = String::from_str("Document: ");
                s.append(path.as_str());
                push_char(&mut s, '\n');
                s.append(content.as_str());
                s
            },
            Artifact::TextSnippet(text) => text.clone(),
        }
    }
}

/// The number of text snippets among the artifacts.
pub open spec fn snippet_count(a: Seq<Artifact>) -> nat
    decreases a.len(),
{
    if a.len() == 0 {
        0
    } else {
        snippet_count(a.drop_last()) + if a.last() is TextSnippet {
            1nat
        } else {
            0nat
        }
    }
}

/// The paths of the documents among the artifacts, in order.
pub open spec fn document_paths(a: Seq<Artifact>) -> Seq<Seq<char>>
    decreases a.len(),
{
    if a.len() == 0 {
        Seq::empty()
    } else {
        match a.last() {
            Artifact::Document { path, .. } => document_paths(a.drop_last()).push(path@),
            Artifact::TextSnippet(_) => document_paths(a.drop_last()),
        }
    }
}

/// `\n  - `<path>`` for each path.
pub open spec fn path_lines(paths: Seq<Seq<char>>) -> Seq<char>
    decreases paths.len(),
{
    if paths.len() == 0 {
        Seq::empty()
    } else {
        path_lines(paths.drop_last()) + "\n  - `"@ + paths.last() + seq!['`']
    }
}

/// The summary of a finished research stage.
pub open spec fn research_summary(a: Seq<Artifact>) -> Seq<char> {
    let header = "✅ Research completed\n\n📊 Summary:"@;
    if a.len() == 0 {
        header
    } else {
        let paths = document_paths(a);
        header + "\n• Total artifacts: "@ + decimal(a.len()) + (if snippet_count(a) > 0 {
            "\n• Text snippets: "@ + decimal(snippet_count(a))
        } else {
            Seq::empty()
        }) + (if paths.len() > 0 {
            "\n• Documents: "@ + decimal(paths.len()) + path_lines(paths)
        } else {
            Seq::empty()
        })
    }
}

proof fn lemma_counts_bounded(a: Seq<Artifact>)
    ensures
        snippet_count(a) + document_paths(a).len() == a.len(),
    decreases a.len(),
{
    if a.len() > 0 {
        lemma_counts_bounded(a.drop_last());
    }
}

/// Summarizes a research result: totals, snippet count, and document paths.
pub fn research_complete_msg(r: &Research) -> (res: String)
    ensures
        res@ == research_summary(r.artifacts@),
{
    let ghost av = r.artifacts@;
    let mut paths: Vec<String> = Vec::new();
    let mut num_snippets: usize = 0;
    let mut i: usize = 0;
    while i < r.artifacts.len()
        invariant
            i <= r.artifacts.len(),
            av == r.artifacts@,
            paths@.map_values(|p: String| p@) == document_paths(av.take(i as int)),
            num_snippets == snippet_count(av.take(i as int)),
        decreases r.artifacts.len() - i,
    {
        assert(av.take(i + 1).drop_last() =~= av.take(i as int));
        proof {
            lemma_counts_bounded(av.take(i as int));
        }
        match &r.artifacts[i] {
            Artifact::Document { path, .. } => {
                let ghost prev = paths@;
                paths.push(path.clone());
                assert(paths@.map_values(|p: String| p@) =~= prev.map_values(|p: String| p@).push(
                    path@,
                ));
            },
            Artifact::TextSnippet(_) => {
                num_snippets += 1;
            },
        }
        i += 1;
    }
    assert(av.take(r.artifacts.len() as int) =~= av);
    let mut message = String::from_str("✅ Research completed\n\n📊 Summary:");
    let total = r.artifacts.len();
    if total > 0 {
        message.append("\n• Total artifacts: ");
        let t = decimal_string(total);
        message.append(t.as_str());
        if num_snippets > 0 {
            message.append("\n• Text snippets: ");
            let n = decimal_string(num_snippets);
            message.append(n.as_str());
        }
        if paths.len() > 0 {
            message.append("\n• Documents: ");
            let d = decimal_string(paths.len());
            message.append(d.as_str());
            let ghost pv = paths@.map_values(|p: String| p@);
            let ghost base = message@;
            let mut j: usize = 0;
            while j < paths.len()
                invariant
                    j <= paths.len(),
                    pv == paths@.map_values(|p: String| p@),
                    message@ == base + path_lines(pv.take(j as int)),
                decreases paths.len() - j,
            {
                assert(pv.take(j + 1).drop_last() =~= pv.take(j as int));
                message.append("\n  - `");
                message.append(paths[j].as_str());
                push_char(&mut message, '`');
                j += 1;
            }
            assert(pv.take(paths.len() as int) =~= pv);
        }
    }
    message
}

/// The display text of an artifact.
pub open spec fn artifact_text(a: Artifact) -> Seq<char> {
    match a {
        Artifact::Document { path, content } => "Document: "@ + path@ + seq!['\n'] + content@,
        Artifact::TextSnippet(text) => text@,
    }
}

/// The artifacts shown one after another, separated by blank lines.
pub open spec fn artifacts_text(a: Seq<Artifact>) -> Seq<char>
    decreases a.len(),
{
    if a.len() == 0 {
        Seq::empty()
    } else if a.len() == 1 {
        artifact_text(a[0])
    } else {
        artifacts_text(a.drop_last()) + "\n\n"@ + artifact_text(a.last())
    }
}

/// The prompt for planning from research: the artifacts, a blank line, and
/// the research prompt.
pub open spec fn planning_prompt_text(r: Research) -> Seq<char> {
    artifacts_text(r.artifacts@) + "\n\n"@ + r.prompt@
}

/// The prompt for planning from a research result.
pub fn planning_prompt(r: &Research) -> (res: String)
    ensures
        res@ == planning_prompt_text(*r),
{
    let ghost av = r.artifacts@;
    let mut s = String::new();
    let mut i: usize = 0;
    while i < r.artifacts.len()
        invariant
            i <= r.artifacts.len(),
            av == r.artifacts@,
            s@ == artifacts_text(av.take(i as int)),
        decreases r.artifacts.len() - i,
    {
        assert(av.take(i + 1).drop_last() =~= av.take(i as int));
        assert(av.take(i + 1).last() == av[i as int]);
        if i > 0 {
            s.append("\n\n");
        } else {
            assert(av.take(1)[0] == av[0]);
        }
        let t = r.artifacts[i].to_string();
        s.append(t.as_str());
        i += 1;
    }
    assert(av.take(r.artifacts.len() as int) =~= av);
    s.append("\n\n");
    s.append(r.prompt.as_str());
    s
}

/// The largest single message, in bytes, that a stage may send.
pub const MAX_CONTENT_LENGTH: usize = 1_048_576;

/// `Research artifacts exceeds size limit: <bytes> (max: 1048576)`
pub open spec fn size_error_text(bytes: nat) -> Seq<char> {
    "Research artifacts exceeds size limit: "@ + decimal(bytes) + " (max: "@ + decimal(
        MAX_CONTENT_LENGTH as nat,
    ) + ")"@
}

/// Checks the size of a planning prompt: an error message when it is longer
/// than `MAX_CONTENT_LENGTH` bytes.
pub fn check_prompt_size(prompt: &str) -> (res: Result<(), String>)
    ensures
        byte_len(prompt@) <= MAX_CONTENT_LENGTH ==> res is Ok,
        byte_len(prompt@) > MAX_CONTENT_LENGTH ==> (res matches Err(m) && m@ == size_error_text(
            byte_len(prompt@) as nat,
        )),
{
    let n = prompt.len();
    if n > MAX_CONTENT_LENGTH {
        let mut m = String::from_str("Research artifacts exceeds size limit: ");
        let d = decimal_string(n);
        m.append(d.as_str());
        m.append(" (max: ");
        let mx = decimal_string(MAX_CONTENT_LENGTH);
        m.append(mx.as_str());
        m.append(")");
        Err(m)
    } else {
        Ok(())
    }
}

} // verus!
