//! The knowledge base's query logic: the kinds of remembered events, the
//! filters of a search, and the SQL text that a filtered search runs.
//! Embedding texts and running the queries happen outside.
use vstd::prelude::*;
use crate::text::{concat2, concat3, join, join_strings, owned, views};

verus! {

/// What a remembered piece of knowledge came from.
#[derive(Debug, Clone)]
pub enum MemoryEventType {
    TaskResult { task_id: String, tool: String },
    WebScrape { url: String },
    CodeAnalysis { file_path: String },
    UserInput { session_id: String },
    LLMResponse { model: String },
    SystemLog { level: String },
    GitOperation { repo: String, operation: String },
    AgentAction { agent: String, action: String },
}

/// The filters of a search; dates as RFC 3339 text.
#[derive(Debug, Clone)]
pub struct MemoryFilters {
    pub session_id: Option<String>,
    pub parent_id: Option<String>,
    pub tags: Option<Vec<String>>,
    pub tool: Option<String>,
    pub from_date: Option<String>,
    pub to_date: Option<String>,
}

impl Default for MemoryFilters {
    fn default() -> (f: MemoryFilters)
        ensures
            f.session_id is None && f.parent_id is None && f.tags is None && f.tool is None
                && f.from_date is None && f.to_date is None,
    {
        MemoryFilters { session_id: None, parent_id: None, tags: None, tool: None, from_date: None, to_date: None }
    }
}

/// A hexadecimal digit, in lower case.
pub open spec fn hex_digit(n: u32) -> char {
    if n < 10 {
        ((48 + n) as u32) as char
    } else {
        ((87 + n) as u32) as char
    }
}

/// A character inside a JSON string: `"` and `\` escaped with a backslash,
/// the controls with short escapes where JSON has them, other characters
/// below U+0020 as `\u00XX`, everything else as it is.
pub open spec fn json_char(c: char) -> Seq<char> {
    if c == '"' {
        seq!['\\', '"']
    } else if c == '\\' {
        seq!['\\', '\\']
    } else if c == '\u{8}' {
        seq!['\\', 'b']
    } else if c == '\t' {
        seq!['\\', 't']
    } else if c == '\n' {
        seq!['\\', 'n']
    } else if c == '\u{c}' {
        seq!['\\', 'f']
    } else if c == '\r' {
        seq!['\\', 'r']
    } else if (c as u32) < 32 {
        seq!['\\', 'u', '0', '0', hex_digit((c as u32) / 16), hex_digit((c as u32) % 16)]
    } else {
        seq![c]
    }
}

/// The characters of a text, escaped for a JSON string.
pub open spec fn json_escaped(s: Seq<char>) -> Seq<char>
    decreases s.len(),
{
    if s.len() == 0 {
        Seq::empty()
    } else {
        json_escaped(s.drop_last()) + json_char(s.last())
    }
}

/// A text as a JSON string.
pub open spec fn json_string(s: Seq<char>) -> Seq<char> {
    seq!['"'] + json_escaped(s) + seq!['"']
}

/// JSON strings separated by commas.
pub open spec fn json_items(items: Seq<Seq<char>>) -> Seq<char>
    decreases items.len(),
{
    if items.len() == 0 {
        Seq::empty()
    } else if items.len() == 1 {
        json_string(items[0])
    } else {
        json_items(items.drop_last()) + seq![','] + json_string(items.last())
    }
}

/// The compact JSON text of a list of strings, as `serde_json::to_string`
/// writes it.
pub open spec fn json_text(items: Seq<Seq<char>>) -> Seq<char> {
    seq!['['] + json_items(items) + seq![']']
}

/// Trusted: `serde_json::to_string` on a list of strings (its compact
/// formatter and escape table). The contract states the text. The function reports an
/// error only when its writer fails, and it writes into a `Vec<u8>`, which
/// never fails; the empty text stands for that unreachable case.
#[verifier::external_body]
fn json_list(items: &Vec<String>) -> (r: String)
    ensures
        r@ == json_text(views(items@)),
{
    match serde_json::to_string(items) {
        Ok(s) => s,
        Err(_) => String::new(),
    }
}

/// The conditions and parameters of a filtered search.
pub struct FilterQuery {
    /// The conditions, each with one `?` placeholder.
    pub clauses: Vec<String>,
    /// The values of the placeholders, in order.
    pub params: Vec<String>,
}

/// The conditions that the filters add, in order, each with its parameter.
pub open spec fn filter_parts(
    session_id: Option<Seq<char>>,
    parent_id: Option<Seq<char>>,
    tags_json: Option<Seq<char>>,
    tool: Option<Seq<char>>,
    from_date: Option<Seq<char>>,
    to_date: Option<Seq<char>>,
) -> Seq<(Seq<char>, Seq<char>)> {
    let a = match session_id {
        Some(s) => seq![("session_id = ?"@, s)],
        None => Seq::empty(),
    };
    let b = match parent_id {
        Some(s) => seq![("parent_id = ?"@, s)],
        None => Seq::empty(),
    };
    let c = match tags_json {
        Some(s) => seq![("json_extract(metadata, '$.tags') LIKE ?"@, "%"@ + s + "%"@)],
        None => Seq::empty(),
    };
    let d = match tool {
        Some(s) => seq![("json_extract(metadata, '$.tool') = ?"@, s)],
        None => Seq::empty(),
    };
    let e = match from_date {
        Some(s) => seq![("created_at >= ?"@, s)],
        None => Seq::empty(),
    };
    let f = match to_date {
        Some(s) => seq![("created_at <= ?"@, s)],
        None => Seq::empty(),
    };
    a + b + c + d + e + f
}

/// An optional text as plain values.
pub open spec fn opt_text(o: Option<String>) -> Option<Seq<char>> {
    match o {
        Some(s) => Some(s@),
        None => None,
    }
}

fn add_part(q: &mut FilterQuery, clause: &str, param: String)
    ensures
        views(final(q).clauses@) == views(old(q).clauses@).push(clause@),
        views(final(q).params@) == views(old(q).params@).push(param@),
{
    let ghost c0 = views(q.clauses@);
    let ghost p0 = views(q.params@);
    q.clauses.push(owned(clause));
    q.params.push(param);
    assert(views(q.clauses@) =~= c0.push(clause@));
    assert(views(q.params@) =~= p0.push(param@));
}

/// The conditions and parameters of the filters, in the order session,
/// parent, tags (the JSON list between `%` wildcards), tool, from and to dates.
#[verifier::rlimit(30)]
pub fn build_filter(filters: &MemoryFilters) -> (q: FilterQuery)
    ensures
        ({
                let tags_json = match filters.tags {
                    Some(t) => Some(json_text(views(t@))),
                    None => None,
                };
                let parts = filter_parts(
                    opt_text(filters.session_id),
                    opt_text(filters.parent_id),
                    tags_json,
                    opt_text(filters.tool),
                    opt_text(filters.from_date),
                    opt_text(filters.to_date),
                );
                &&& views(q.clauses@) == parts.map_values(|p: (Seq<char>, Seq<char>)| p.0)
                &&& views(q.params@) == parts.map_values(|p: (Seq<char>, Seq<char>)| p.1)
        }),
{
    let mut q = FilterQuery { clauses: Vec::new(), params: Vec::new() };
    let tags_json: Option<String> = match &filters.tags {
        Some(t) => Some(json_list(t)),
        None => None,
    };
    assert(opt_text(tags_json) == match filters.tags {
        Some(t) => Some(json_text(views(t@))),
        None => None::<Seq<char>>,
    });
    let ghost parts = filter_parts(
        opt_text(filters.session_id),
        opt_text(filters.parent_id),
        opt_text(tags_json),
        opt_text(filters.tool),
        opt_text(filters.from_date),
        opt_text(filters.to_date),
    );
    if let Some(s) = &filters.session_id {
        add_part(&mut q, "session_id = ?", s.clone());
    }
    if let Some(s) = &filters.parent_id {
        add_part(&mut q, "parent_id = ?", s.clone());
    }
    if let Some(j) = &tags_json {
        add_part(&mut q, "json_extract(metadata, '$.tags') LIKE ?", concat3("%", j.as_str(), "%"));
    }
    if let Some(s) = &filters.tool {
        add_part(&mut q, "json_extract(metadata, '$.tool') = ?", s.clone());
    }
    if let Some(s) = &filters.from_date {
        add_part(&mut q, "created_at >= ?", s.clone());
    }
    if let Some(s) = &filters.to_date {
        add_part(&mut q, "created_at <= ?", s.clone());
    }
    assert(views(q.clauses@) =~= parts.map_values(|p: (Seq<char>, Seq<char>)| p.0));
    assert(views(q.params@) =~= parts.map_values(|p: (Seq<char>, Seq<char>)| p.1));
    q
}

/// The `WHERE` clause of the conditions: none when there are none, else
/// the conditions joined by `AND`.
pub fn where_clause(clauses: &Vec<String>) -> (r: String)
    ensures
        r@ == if clauses@.len() == 0 {
            Seq::empty()
        } else {
            "WHERE "@ + join(views(clauses@), " AND "@)
        },
{
    if clauses.len() == 0 {
        String::new()
    } else {
        let j = join_strings(clauses, " AND ");
        concat2("WHERE ", j.as_str())
    }
}

/// The text of a filtered vector search, before and after its `WHERE` clause.
pub open spec fn search_sql_head() -> Seq<char> {
    "WITH vector_scores AS (\n                SELECT id,\n                       array_cosine_similarity(embedding, ?::FLOAT[]) AS score\n                FROM knowledge_base\n                "@
}

pub open spec fn search_sql_tail() -> Seq<char> {
    "\n            )\n            SELECT kb.id, kb.content, kb.title, kb.embedding, kb.metadata,\n                   kb.created_at, kb.updated_at, kb.access_count,\n                   0.0 AS bm25_score,\n                   COALESCE(v.score, 0) AS vector_score,\n                   COALESCE(v.score, 0) AS hybrid_score\n            FROM knowledge_base kb\n            JOIN vector_scores v ON kb.id = v.id\n            ORDER BY hybrid_score DESC\n            LIMIT ?"@
}

/// The query of a filtered vector search: the scores of the documents
/// that pass the clause, best first, up to a limit. Its parameters are the
/// query's embedding, the filter parameters and the limit.
pub fn filtered_search_sql(where_clause: &str) -> (r: String)
    ensures
        r@ == search_sql_head() + where_clause@ + search_sql_tail(),
{
    concat3(
        "WITH vector_scores AS (\n                SELECT id,\n                       array_cosine_similarity(embedding, ?::FLOAT[]) AS score\n                FROM knowledge_base\n                ",
        where_clause,
        "\n            )\n            SELECT kb.id, kb.content, kb.title, kb.embedding, kb.metadata,\n                   kb.created_at, kb.updated_at, kb.access_count,\n                   0.0 AS bm25_score,\n                   COALESCE(v.score, 0) AS vector_score,\n                   COALESCE(v.score, 0) AS hybrid_score\n            FROM knowledge_base kb\n            JOIN vector_scores v ON kb.id = v.id\n            ORDER BY hybrid_score DESC\n            LIMIT ?",
    )
}

} // verus!
