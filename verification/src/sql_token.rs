use crate::std_specs::{str_to_uppercase, to_uppercase};
use crate::text::str_eq;
use vstd::prelude::*;

verus! {

/// A lexical unit of SQL.
#[derive(Debug, PartialEq, Clone)]
pub enum Token {
    Keyword(SqlKeyword),
    Identifier(String),
    Value(SqlValue),
    /// `=`, `<>`, `!=`, `<`, `>`, `<=`, `>=`, `+`, `-`, `*`, `/`
    Operator(String),
    /// `(`, `)`, `,`, `;`
    Delimiter(char),
    Comment(String),
}

/// The reserved words.
#[derive(Debug, PartialEq, Clone)]
pub enum SqlKeyword {
    // The core of a query.
    Select,
    From,
    Where,
    // Logic.
    And,
    Or,
    Not,
    // Joins.
    Join,
    Left,
    Right,
    Inner,
    Outer,
    On,
    // Grouping and ordering.
    Group,
    By,
    Having,
    Order,
    Distinct,
    // Other clauses and tests.
    As,
    In,
    Like,
    Between,
    Is,
    Exists,
    // Paging.
    Limit,
    Offset,
    // Set operations.
    Union,
    Intersect,
    Except,
    // Sort direction.
    Asc,
    Desc,
}

/// A number literal.
#[derive(Debug, PartialEq, Clone)]
pub enum SqlNumber {
    Integer(i64),
    /// A binary64 number, held as its IEEE 754 bit pattern.
    Float(u64),
}

/// A literal value.
#[derive(Debug, PartialEq, Clone)]
pub enum SqlValue {
    Number(SqlNumber),
    /// `'hello world'`
    String(String),
    /// `TRUE`, `FALSE`
    Boolean(bool),
    /// `NULL`
    Null,
}

/// The spelling of a keyword: the table of keywords, read from the keyword
/// to its upper case spelling.
pub open spec fn spelling(keyword: SqlKeyword) -> Seq<char> {
    match keyword {
        SqlKeyword::Select => "SELECT"@,
        SqlKeyword::From => "FROM"@,
        SqlKeyword::Where => "WHERE"@,
        SqlKeyword::And => "AND"@,
        SqlKeyword::Or => "OR"@,
        SqlKeyword::Not => "NOT"@,
        SqlKeyword::Join => "JOIN"@,
        SqlKeyword::Left => "LEFT"@,
        SqlKeyword::Right => "RIGHT"@,
        SqlKeyword::Inner => "INNER"@,
        SqlKeyword::Outer => "OUTER"@,
        SqlKeyword::On => "ON"@,
        SqlKeyword::Group => "GROUP"@,
        SqlKeyword::By => "BY"@,
        SqlKeyword::Having => "HAVING"@,
        SqlKeyword::Order => "ORDER"@,
        SqlKeyword::Distinct => "DISTINCT"@,
        SqlKeyword::As => "AS"@,
        SqlKeyword::In => "IN"@,
        SqlKeyword::Like => "LIKE"@,
        SqlKeyword::Between => "BETWEEN"@,
        SqlKeyword::Is => "IS"@,
        SqlKeyword::Exists => "EXISTS"@,
        SqlKeyword::Limit => "LIMIT"@,
        SqlKeyword::Offset => "OFFSET"@,
        SqlKeyword::Union => "UNION"@,
        SqlKeyword::Intersect => "INTERSECT"@,
        SqlKeyword::Except => "EXCEPT"@,
        SqlKeyword::Asc => "ASC"@,
        SqlKeyword::Desc => "DESC"@,
    }
}

/// The keyword that is spelled `upper`, if there is one: the table of
/// keywords, read from the spelling to the keyword.
pub open spec fn keyword_of(upper: Seq<char>) -> Option<SqlKeyword> {
    if exists|k: SqlKeyword| spelling(k) == upper {
        Some(choose|k: SqlKeyword| spelling(k) == upper)
    } else {
        None
    }
}

/// No two keywords are spelled alike.
pub proof fn lemma_spelling_injective(a: SqlKeyword, b: SqlKeyword)
    requires
        spelling(a) == spelling(b),
    ensures
        a == b,
{
    reveal_strlit("SELECT");
    reveal_strlit("FROM");
    reveal_strlit("WHERE");
    reveal_strlit("AND");
    reveal_strlit("OR");
    reveal_strlit("NOT");
    reveal_strlit("JOIN");
    reveal_strlit("LEFT");
    reveal_strlit("RIGHT");
    reveal_strlit("INNER");
    reveal_strlit("OUTER");
    reveal_strlit("ON");
    reveal_strlit("GROUP");
    reveal_strlit("BY");
    reveal_strlit("HAVING");
    reveal_strlit("ORDER");
    reveal_strlit("DISTINCT");
    reveal_strlit("AS");
    reveal_strlit("IN");
    reveal_strlit("LIKE");
    reveal_strlit("BETWEEN");
    reveal_strlit("IS");
    reveal_strlit("EXISTS");
    reveal_strlit("LIMIT");
    reveal_strlit("OFFSET");
    reveal_strlit("UNION");
    reveal_strlit("INTERSECT");
    reveal_strlit("EXCEPT");
    reveal_strlit("ASC");
    reveal_strlit("DESC");
    // Equal spellings agree in length and in their first three characters,
    // and no two keywords do.
    let x = spelling(a);
    let y = spelling(b);
    assert(x.len() == y.len() && x[0] == y[0] && x[1] == y[1] && x[2] == y[2]);
}

/// The spelling of a keyword resolves to that keyword.
pub proof fn lemma_keyword_of_spelling(keyword: SqlKeyword)
    ensures
        keyword_of(spelling(keyword)) == Some(keyword),
{
    let found = choose|k: SqlKeyword| spelling(k) == spelling(keyword);
    lemma_spelling_injective(found, keyword);
}

/// Looks an upper case spelling up in the table of keywords.
pub fn keyword_from_upper(upper: &str) -> (keyword: Option<SqlKeyword>)
    ensures
        keyword == keyword_of(upper@),
{
    let keyword = if str_eq(upper, "SELECT") {
        Some(SqlKeyword::Select)
    } else if str_eq(upper, "FROM") {
        Some(SqlKeyword::From)
    } else if str_eq(upper, "WHERE") {
        Some(SqlKeyword::Where)
    } else if str_eq(upper, "AND") {
        Some(SqlKeyword::And)
    } else if str_eq(upper, "OR") {
        Some(SqlKeyword::Or)
    } else if str_eq(upper, "NOT") {
        Some(SqlKeyword::Not)
    } else if str_eq(upper, "JOIN") {
        Some(SqlKeyword::Join)
    } else if str_eq(upper, "LEFT") {
        Some(SqlKeyword::Left)
    } else if str_eq(upper, "RIGHT") {
        Some(SqlKeyword::Right)
    } else if str_eq(upper, "INNER") {
        Some(SqlKeyword::Inner)
    } else if str_eq(upper, "OUTER") {
        Some(SqlKeyword::Outer)
    } else if str_eq(upper, "ON") {
        Some(SqlKeyword::On)
    } else if str_eq(upper, "GROUP") {
        Some(SqlKeyword::Group)
    } else if str_eq(upper, "BY") {
        Some(SqlKeyword::By)
    } else if str_eq(upper, "HAVING") {
        Some(SqlKeyword::Having)
    } else if str_eq(upper, "ORDER") {
        Some(SqlKeyword::Order)
    } else if str_eq(upper, "DISTINCT") {
        Some(SqlKeyword::Distinct)
    } else if str_eq(upper, "AS") {
        Some(SqlKeyword::As)
    } else if str_eq(upper, "IN") {
        Some(SqlKeyword::In)
    } else if str_eq(upper, "LIKE") {
        Some(SqlKeyword::Like)
    } else if str_eq(upper, "BETWEEN") {
        Some(SqlKeyword::Between)
    } else if str_eq(upper, "IS") {
        Some(SqlKeyword::Is)
    } else if str_eq(upper, "EXISTS") {
        Some(SqlKeyword::Exists)
    } else if str_eq(upper, "LIMIT") {
        Some(SqlKeyword::Limit)
    } else if str_eq(upper, "OFFSET") {
        Some(SqlKeyword::Offset)
    } else if str_eq(upper, "UNION") {
        Some(SqlKeyword::Union)
    } else if str_eq(upper, "INTERSECT") {
        Some(SqlKeyword::Intersect)
    } else if str_eq(upper, "EXCEPT") {
        Some(SqlKeyword::Except)
    } else if str_eq(upper, "ASC") {
        Some(SqlKeyword::Asc)
    } else if str_eq(upper, "DESC") {
        Some(SqlKeyword::Desc)
    } else {
        None
    };
    proof {
        if keyword is Some {
            lemma_keyword_of_spelling(keyword.unwrap());
        }
    }
    keyword
}

/// Resolves a word to a keyword, ignoring case. A word that is no keyword
/// is to be taken as a plain identifier.
pub fn get_sql_keyword(word: &str) -> (keyword: Option<SqlKeyword>)
    ensures
        keyword == keyword_of(to_uppercase(word@)),
{
    let upper = str_to_uppercase(word);
    keyword_from_upper(upper.as_str())
}

/// Lookup ignores case: two words with the same upper case spelling resolve
/// alike.
pub proof fn lemma_keyword_lookup_ignores_case(a: Seq<char>, b: Seq<char>)
    requires
        to_uppercase(a) == to_uppercase(b),
    ensures
        keyword_of(to_uppercase(a)) == keyword_of(to_uppercase(b)),
{
}

} // verus!
