use subterfuge::remote::{
    check_games_list, field_string, field_u32, has_short_digit_runs, parse_profile, parse_recent_titles, titles_from_entries, FetchError, Field, FieldFault,
    Malformed, RawTitle,
};

#[test]
fn parses_recent_titles() {
    let body = r#"{"response":{"total_count":2,"games":[
        {"appid":10,"name":"Game A","playtime_2weeks":25,"playtime_forever":145},
        {"appid":20,"name":"B","playtime_forever":5}]}}"#;
    let v = parse_recent_titles(body).unwrap();
    assert_eq!(v.len(), 2);
    assert_eq!((v[0].app_id, v[0].name.as_str(), v[0].playtime_forever), (10, "Game A", 145));
    assert_eq!((v[1].app_id, v[1].name.as_str(), v[1].playtime_forever), (20, "B", 5));
}

#[test]
fn html_body_is_not_json() {
    let r = parse_recent_titles("<html><body>502 Bad Gateway</body></html>");
    assert_eq!(r.unwrap_err(), FetchError::Malformed(Malformed::NotJson));
}

#[test]
fn missing_games_list() {
    let r = parse_recent_titles(r#"{"response":{}}"#);
    assert_eq!(
        r.unwrap_err(),
        FetchError::Malformed(Malformed::Field(Field::Games, FieldFault::Absent))
    );
}

#[test]
fn games_list_of_wrong_type() {
    let r = parse_recent_titles(r#"{"response":{"games":"none"}}"#);
    assert_eq!(
        r.unwrap_err(),
        FetchError::Malformed(Malformed::Field(Field::Games, FieldFault::WrongType))
    );
}

#[test]
fn empty_games_list_is_an_empty_snapshot() {
    let v = parse_recent_titles(r#"{"response":{"games":[]}}"#).unwrap();
    assert!(v.is_empty());
}

#[test]
fn entry_without_playtime_fails_the_whole_response() {
    let body = r#"{"response":{"games":[
        {"appid":10,"name":"A","playtime_forever":1},
        {"appid":20,"name":"B"}]}}"#;
    assert_eq!(
        parse_recent_titles(body).unwrap_err(),
        FetchError::Malformed(Malformed::Field(Field::Playtime, FieldFault::Absent))
    );
}

#[test]
fn entry_with_textual_id_is_wrong_type() {
    let body = r#"{"response":{"games":[{"appid":"10","name":"A","playtime_forever":1}]}}"#;
    assert_eq!(
        parse_recent_titles(body).unwrap_err(),
        FetchError::Malformed(Malformed::Field(Field::AppId, FieldFault::WrongType))
    );
}

#[test]
fn entry_with_numeric_name_is_wrong_type() {
    let body = r#"{"response":{"games":[{"appid":10,"name":7,"playtime_forever":1}]}}"#;
    assert_eq!(
        parse_recent_titles(body).unwrap_err(),
        FetchError::Malformed(Malformed::Field(Field::Name, FieldFault::WrongType))
    );
}

#[test]
fn duplicate_identifier_is_refused() {
    let body = r#"{"response":{"games":[
        {"appid":10,"name":"A","playtime_forever":1},
        {"appid":10,"name":"A","playtime_forever":2}]}}"#;
    assert_eq!(
        parse_recent_titles(body).unwrap_err(),
        FetchError::Malformed(Malformed::DuplicateId(10))
    );
}

#[test]
fn entries_to_titles() {
    let es = vec![RawTitle { app_id: Ok(4), name: Ok("D".to_string()), playtime: Ok(40) }];
    let v = titles_from_entries(&es).unwrap();
    assert_eq!((v[0].app_id, v[0].name.as_str(), v[0].playtime_forever), (4, "D", 40));
}

#[test]
fn first_fault_of_an_entry_is_reported() {
    let es = vec![RawTitle {
        app_id: Ok(4),
        name: Err(FieldFault::Absent),
        playtime: Err(FieldFault::WrongType),
    }];
    assert_eq!(
        titles_from_entries(&es).unwrap_err(),
        Malformed::Field(Field::Name, FieldFault::Absent)
    );
}

#[test]
fn parses_profile_name() {
    let body = r#"{"response":{"players":[{"steamid":"76561197960435530","personaname":"Robin"}]}}"#;
    assert_eq!(parse_profile(body).unwrap(), "Robin");
}

#[test]
fn profile_without_players() {
    let r = parse_profile(r#"{"response":{"players":[]}}"#);
    assert_eq!(
        r.unwrap_err(),
        FetchError::Malformed(Malformed::Field(Field::PersonaName, FieldFault::Absent))
    );
}

#[test]
fn profile_that_is_not_json() {
    assert_eq!(
        parse_profile("Service Unavailable").unwrap_err(),
        FetchError::Malformed(Malformed::NotJson)
    );
}

#[test]
fn number_field_judged() {
    assert_eq!(field_u32(Some(7), false), Ok(7));
    assert_eq!(field_u32(None, true), Err(FieldFault::Absent));
    assert_eq!(field_u32(None, false), Err(FieldFault::WrongType));
}

#[test]
fn string_field_judged() {
    assert_eq!(field_string(Some("Portal"), false), Ok("Portal".to_string()));
    assert_eq!(field_string(None, true), Err(FieldFault::Absent));
    assert_eq!(field_string(None, false), Err(FieldFault::WrongType));
}

#[test]
fn games_list_judged() {
    assert_eq!(check_games_list(true, false), Ok(()));
    assert_eq!(check_games_list(false, true), Err(Malformed::Field(Field::Games, FieldFault::Absent)));
    assert_eq!(check_games_list(false, false), Err(Malformed::Field(Field::Games, FieldFault::WrongType)));
}

#[test]
fn large_playtime_fits() {
    let body = r#"{"response":{"games":[{"appid":4294967295,"name":"X","playtime_forever":4294967295}]}}"#;
    let v = parse_recent_titles(body).unwrap();
    assert_eq!((v[0].app_id, v[0].playtime_forever), (u32::MAX, u32::MAX));
}

#[test]
fn playtime_beyond_u32_is_wrong_type() {
    let body = r#"{"response":{"games":[{"appid":1,"name":"X","playtime_forever":4294967296}]}}"#;
    assert_eq!(
        parse_recent_titles(body).unwrap_err(),
        FetchError::Malformed(Malformed::Field(Field::Playtime, FieldFault::WrongType))
    );
}

#[test]
fn overlong_digit_run_is_refused_before_parsing() {
    let body = format!(r#"{{"response":{{"games":[{{"appid":1,"name":"X","playtime_forever":0.{}}}]}}}}"#, "0".repeat(40000));
    assert!(!has_short_digit_runs(&body));
    assert_eq!(
        parse_recent_titles(&body).unwrap_err(),
        FetchError::Malformed(Malformed::OverlongNumber)
    );
    assert_eq!(parse_profile(&body).unwrap_err(), FetchError::Malformed(Malformed::OverlongNumber));
}

#[test]
fn digit_runs_below_the_limit_pass() {
    assert!(has_short_digit_runs("12345 and 678"));
    assert!(has_short_digit_runs(""));
    assert!(has_short_digit_runs(&"9".repeat(32767)));
    assert!(!has_short_digit_runs(&"9".repeat(32768)));
}

#[test]
fn earliest_entry_fault_wins() {
    let body = r#"{"response":{"games":[
        {"appid":10,"name":"A","playtime_forever":"long"},
        {"name":"B","playtime_forever":2}]}}"#;
    assert_eq!(
        parse_recent_titles(body).unwrap_err(),
        FetchError::Malformed(Malformed::Field(Field::Playtime, FieldFault::WrongType))
    );
}

#[test]
fn field_fault_comes_before_duplicate() {
    let es = vec![
        RawTitle { app_id: Ok(1), name: Ok("A".to_string()), playtime: Ok(1) },
        RawTitle { app_id: Ok(1), name: Ok("A".to_string()), playtime: Ok(1) },
        RawTitle { app_id: Err(FieldFault::Absent), name: Ok("C".to_string()), playtime: Ok(1) },
    ];
    assert_eq!(
        titles_from_entries(&es).unwrap_err(),
        Malformed::Field(Field::AppId, FieldFault::Absent)
    );
}

#[test]
fn first_repeated_identifier_is_reported() {
    let es = vec![
        RawTitle { app_id: Ok(1), name: Ok("A".to_string()), playtime: Ok(1) },
        RawTitle { app_id: Ok(2), name: Ok("B".to_string()), playtime: Ok(1) },
        RawTitle { app_id: Ok(2), name: Ok("B".to_string()), playtime: Ok(1) },
        RawTitle { app_id: Ok(1), name: Ok("A".to_string()), playtime: Ok(1) },
    ];
    assert_eq!(titles_from_entries(&es).unwrap_err(), Malformed::DuplicateId(2));
}

#[test]
fn profile_name_of_wrong_type() {
    let r = parse_profile(r#"{"response":{"players":[{"personaname":12}]}}"#);
    assert_eq!(
        r.unwrap_err(),
        FetchError::Malformed(Malformed::Field(Field::PersonaName, FieldFault::WrongType))
    );
}
