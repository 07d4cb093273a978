use sql_combinators::sql_token::{
    get_sql_keyword, keyword_from_upper, SqlKeyword, SqlNumber, SqlValue, Token,
};

fn table() -> Vec<(&'static str, SqlKeyword)> {
    vec![
        ("SELECT", SqlKeyword::Select),
        ("FROM", SqlKeyword::From),
        ("WHERE", SqlKeyword::Where),
        ("AND", SqlKeyword::And),
        ("OR", SqlKeyword::Or),
        ("NOT", SqlKeyword::Not),
        ("JOIN", SqlKeyword::Join),
        ("LEFT", SqlKeyword::Left),
        ("RIGHT", SqlKeyword::Right),
        ("INNER", SqlKeyword::Inner),
        ("OUTER", SqlKeyword::Outer),
        ("ON", SqlKeyword::On),
        ("GROUP", SqlKeyword::Group),
        ("BY", SqlKeyword::By),
        ("HAVING", SqlKeyword::Having),
        ("ORDER", SqlKeyword::Order),
        ("DISTINCT", SqlKeyword::Distinct),
        ("AS", SqlKeyword::As),
        ("IN", SqlKeyword::In),
        ("LIKE", SqlKeyword::Like),
        ("BETWEEN", SqlKeyword::Between),
        ("IS", SqlKeyword::Is),
        ("EXISTS", SqlKeyword::Exists),
        ("LIMIT", SqlKeyword::Limit),
        ("OFFSET", SqlKeyword::Offset),
        ("UNION", SqlKeyword::Union),
        ("INTERSECT", SqlKeyword::Intersect),
        ("EXCEPT", SqlKeyword::Except),
        ("ASC", SqlKeyword::Asc),
        ("DESC", SqlKeyword::Desc),
    ]
}

#[test]
fn keyword_lookup_ignores_case() {
    assert_eq!(get_sql_keyword("select"), Some(SqlKeyword::Select));
    assert_eq!(get_sql_keyword("SELECT"), Some(SqlKeyword::Select));
    assert_eq!(get_sql_keyword("SeLeCt"), Some(SqlKeyword::Select));
}

#[test]
fn keyword_lookup_rejects_a_longer_word() {
    assert_eq!(get_sql_keyword("selectx"), None);
}

#[test]
fn keyword_lookup_rejects_a_shorter_word() {
    assert_eq!(get_sql_keyword("selec"), None);
    assert_eq!(get_sql_keyword(""), None);
}

#[test]
fn keyword_lookup_rejects_surrounding_space() {
    assert_eq!(get_sql_keyword(" select"), None);
    assert_eq!(get_sql_keyword("select "), None);
}

#[test]
fn every_keyword_resolves_in_upper_case() {
    for (spelling, keyword) in table() {
        assert_eq!(get_sql_keyword(spelling), Some(keyword));
    }
}

#[test]
fn every_keyword_resolves_in_lower_case() {
    for (spelling, keyword) in table() {
        assert_eq!(get_sql_keyword(&spelling.to_lowercase()), Some(keyword));
    }
}

#[test]
fn every_keyword_resolves_in_mixed_case() {
    for (spelling, keyword) in table() {
        let mixed: String = spelling
            .chars()
            .enumerate()
            .map(|(i, c)| if i % 2 == 0 { c.to_ascii_lowercase() } else { c })
            .collect();
        assert_eq!(get_sql_keyword(&mixed), Some(keyword));
    }
}

#[test]
fn the_table_holds_thirty_different_keywords() {
    let table = table();
    assert_eq!(table.len(), 30);
    for (i, a) in table.iter().enumerate() {
        for b in &table[i + 1..] {
            assert_ne!(a.1, b.1);
        }
    }
}

#[test]
fn plain_identifiers_are_no_keywords() {
    for word in ["id", "name", "foo", "orders", "selects", "fromage", "nulls", "a", "_"] {
        assert_eq!(get_sql_keyword(word), None);
    }
}

#[test]
fn upper_case_lookup_is_exact() {
    assert_eq!(keyword_from_upper("SELECT"), Some(SqlKeyword::Select));
    assert_eq!(keyword_from_upper("DESC"), Some(SqlKeyword::Desc));
    assert_eq!(keyword_from_upper("select"), None);
    assert_eq!(keyword_from_upper("Select"), None);
    assert_eq!(keyword_from_upper("SELECTX"), None);
    assert_eq!(keyword_from_upper(""), None);
}

#[test]
fn upper_case_lookup_finds_every_keyword() {
    for (spelling, keyword) in table() {
        assert_eq!(keyword_from_upper(spelling), Some(keyword));
    }
}

#[test]
fn lookup_upper_cases_beyond_ascii() {
    // U+017F, the long s, has the upper case `S`.
    assert_eq!(get_sql_keyword("\u{17f}elect"), Some(SqlKeyword::Select));
    assert_eq!(keyword_from_upper("\u{17f}ELECT"), None);
}

#[test]
fn tokens_are_equal_by_value() {
    assert_eq!(Token::Identifier("id".to_string()), Token::Identifier("id".to_string()));
    assert_ne!(Token::Identifier("id".to_string()), Token::Identifier("name".to_string()));
    assert_ne!(Token::Identifier("id".to_string()), Token::Comment("id".to_string()));
    assert_eq!(Token::Keyword(SqlKeyword::From), Token::Keyword(SqlKeyword::From));
    assert_ne!(Token::Keyword(SqlKeyword::From), Token::Keyword(SqlKeyword::Where));
    assert_eq!(Token::Delimiter(','), Token::Delimiter(','));
    assert_ne!(Token::Delimiter(','), Token::Delimiter(';'));
    assert_eq!(Token::Operator("<=".to_string()), Token::Operator("<=".to_string()));
}

#[test]
fn values_are_equal_by_value() {
    assert_eq!(SqlValue::Null, SqlValue::Null);
    assert_ne!(SqlValue::Boolean(true), SqlValue::Boolean(false));
    assert_eq!(SqlValue::String("a b".to_string()), SqlValue::String("a b".to_string()));
    assert_eq!(SqlValue::Number(SqlNumber::Integer(42)), SqlValue::Number(SqlNumber::Integer(42)));
    assert_ne!(SqlValue::Number(SqlNumber::Integer(42)), SqlValue::Number(SqlNumber::Integer(43)));
    let half = 0.5f64.to_bits();
    assert_eq!(SqlNumber::Float(half), SqlNumber::Float(half));
    assert_ne!(SqlNumber::Float(half), SqlNumber::Integer(0));
    assert_eq!(
        Token::Value(SqlValue::Number(SqlNumber::Float(half))),
        Token::Value(SqlValue::Number(SqlNumber::Float(half))),
    );
}

#[test]
fn tokens_can_be_cloned() {
    let token = Token::Value(SqlValue::String("x".to_string()));
    assert_eq!(token.clone(), token);
    let keyword = SqlKeyword::Between;
    assert_eq!(keyword.clone(), keyword);
}
