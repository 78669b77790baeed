use vstd::prelude::*;
use vstd::string::StringSliceAdditionalSpecFns;

use crate::delta::unique_ids;
use crate::game::Game;

verus! {

/// What a JSON value holds.
pub enum JsonView {
    Null,
    Bool(bool),
    /// Whether the number is positive (false for a NaN), its mantissa and its
    /// decimal exponent.
    Number(bool, u64, i16),
    Str(Seq<char>),
    Array(Seq<JsonView>),
    /// Members in the order in which they were first inserted; no key occurs
    /// twice.
    Object(Seq<(Seq<char>, JsonView)>),
}

#[verifier::external_type_specification]
#[verifier::external_body]
pub struct ExJsonValue(json::JsonValue);

#[verifier::external_type_specification]
#[verifier::external_body]
pub struct ExJsonError(json::Error);

/// What a value of json::JsonValue holds.
pub uninterp spec fn json_view(v: json::JsonValue) -> JsonView;

/// The document that json::parse reads from a text, or `None` where it
/// refuses the text.
pub uninterp spec fn json_of(text: Seq<char>) -> Option<JsonView>;

/// Longest run of decimal digits that a text handed to the parser may hold.
pub const DIGIT_RUN_LIMIT: usize = 32768;

pub open spec fn is_ascii_digit(b: u8) -> bool {
    48 <= b <= 57
}

/// Length of the run of digits that ends at byte `i` of `s`.
pub open spec fn digit_run_at(s: Seq<u8>, i: int) -> nat
    decreases i + 1,
{
    if i < 0 || i >= s.len() {
        0
    } else if is_ascii_digit(s[i]) {
        digit_run_at(s, i - 1) + 1
    } else {
        0
    }
}

/// No run of digits in `s` reaches `DIGIT_RUN_LIMIT`.
pub open spec fn digit_runs_short(s: Seq<u8>) -> bool {
    forall|i: int| 0 <= i < s.len() ==> digit_run_at(s, i) < DIGIT_RUN_LIMIT
}

/// Relies on json::parse to read a text into a document, or to refuse it.
/// The parser counts the digits of a fraction down in an `i16` exponent,
/// which overflows after 32768 of them: texts with such runs are left out.
pub assume_specification[ json::parse ](source: &str) -> (r: Result<json::JsonValue, json::Error>)
    requires
        digit_runs_short(source.spec_bytes()),
    ensures
        r is Ok <==> json_of(source@) is Some,
        r matches Ok(v) ==> json_view(v) == json_of(source@)->Some_0,
;

/// Relies on JsonValue::is_null: true of null alone.
pub assume_specification[ json::JsonValue::is_null ](v: &json::JsonValue) -> (r: bool)
    ensures
        r == (json_view(*v) is Null),
;

/// Relies on JsonValue::is_array: true of an array alone.
pub assume_specification[ json::JsonValue::is_array ](v: &json::JsonValue) -> (r: bool)
    ensures
        r == (json_view(*v) is Array),
;

/// Number of elements of an array, or of members of an object; 0 otherwise.
pub open spec fn size_of(v: JsonView) -> nat {
    match v {
        JsonView::Array(xs) => xs.len(),
        JsonView::Object(ms) => ms.len(),
        _ => 0,
    }
}

/// Relies on JsonValue::len: the number of elements of an array or of
/// members of an object, 0 for any other value.
pub assume_specification[ json::JsonValue::len ](v: &json::JsonValue) -> (r: usize)
    ensures
        r as nat == size_of(json_view(*v)),
;

/// The number that a value holds where it is positive, has exponent 0 and
/// fits in a `u32`.
pub open spec fn u32_of(v: JsonView) -> Option<u32> {
    match v {
        JsonView::Number(positive, mantissa, exponent) => if positive && exponent == 0
            && mantissa <= u32::MAX {
            Some(mantissa as u32)
        } else {
            None
        },
        _ => None,
    }
}

/// Relies on JsonValue::as_u32, through `Number::as_parts`: a number that is
/// positive, has exponent 0 and fits in a `u32`; `None` for any other value.
pub assume_specification[ json::JsonValue::as_u32 ](v: &json::JsonValue) -> (r: Option<u32>)
    ensures
        r == u32_of(json_view(*v)),
;

/// Relies on JsonValue::as_str: the text of a string, `None` for any other
/// value.
pub assume_specification<'a>[ json::JsonValue::as_str ](v: &'a json::JsonValue) -> (r: Option<
    &'a str,
>)
    ensures
        match r {
            Some(s) => json_view(*v) is Str && s@ == json_view(*v)->Str_0,
            None => !(json_view(*v) is Str),
        },
;

/// The value stored under `key` among the members `ms`, or null.
pub open spec fn lookup(ms: Seq<(Seq<char>, JsonView)>, key: Seq<char>) -> JsonView
    decreases ms.len(),
{
    if ms.len() == 0 {
        JsonView::Null
    } else if ms[0].0 == key {
        ms[0].1
    } else {
        lookup(ms.drop_first(), key)
    }
}

/// The member `key` of an object; null for any other value or a missing key.
pub open spec fn member_of(v: JsonView, key: Seq<char>) -> JsonView {
    match v {
        JsonView::Object(ms) => lookup(ms, key),
        _ => JsonView::Null,
    }
}

/// The element `i` of an array; null for any other value or an index out of
/// range.
pub open spec fn element_of(v: JsonView, i: int) -> JsonView {
    match v {
        JsonView::Array(xs) => if 0 <= i < xs.len() {
            xs[i]
        } else {
            JsonView::Null
        },
        _ => JsonView::Null,
    }
}

/// Relies on JsonValue's `Index<&str>`: the member `key` of an object, or
/// null for any other value or a missing key.
#[verifier::external_body]
fn member<'a>(v: &'a json::JsonValue, key: &str) -> (r: &'a json::JsonValue)
    ensures
        json_view(*r) == member_of(json_view(*v), key@),
{
    &v[key]
}

/// Relies on JsonValue's `Index<usize>`: the element `i` of an array, or null
/// for any other value or an index out of range.
#[verifier::external_body]
fn element<'a>(v: &'a json::JsonValue, i: usize) -> (r: &'a json::JsonValue)
    ensures
        json_view(*r) == element_of(json_view(*v), i as int),
{
    &v[i]
}

/// Tells whether no run of digits in `text` reaches `DIGIT_RUN_LIMIT`.
pub fn has_short_digit_runs(text: &str) -> (r: bool)
    ensures
        r == digit_runs_short(text.spec_bytes()),
{
    let b = text.as_bytes();
    let mut run: usize = 0;
    let mut i: usize = 0;
    while i < b.len()
        invariant
            b@ == text.spec_bytes(),
            i <= b@.len(),
            run == digit_run_at(b@, i - 1),
            run < DIGIT_RUN_LIMIT,
            forall|k: int| 0 <= k < i ==> digit_run_at(b@, k) < DIGIT_RUN_LIMIT,
        decreases b.len() - i,
    {
        if 48 <= b[i] && b[i] <= 57 {
            run = run + 1;
            assert(digit_run_at(b@, i as int) == run);
            if run >= DIGIT_RUN_LIMIT {
                return false;
            }
        } else {
            run = 0;
        }
        i = i + 1;
    }
    true
}

/// A field of the remote service's responses.
#[derive(Debug, Clone, Copy, PartialEq, Eq, Structural)]
pub enum Field {
    Games,
    AppId,
    Name,
    Playtime,
    PersonaName,
}

/// What is wrong with a field of a response.
#[derive(Debug, Clone, Copy, PartialEq, Eq, Structural)]
pub enum FieldFault {
    Absent,
    WrongType,
}

/// A response that does not have the expected shape.
#[derive(Debug, Clone, Copy, PartialEq, Eq, Structural)]
pub enum Malformed {
    /// The body is not JSON (the service sometimes answers with a page of HTML).
    NotJson,
    /// The body holds a run of digits too long to be read as a number.
    OverlongNumber,
    Field(Field, FieldFault),
    /// Two titles of one response share this identifier.
    DuplicateId(u32),
}

/// Why one poll of the remote service failed. Both kinds are transient.
#[derive(Debug, Clone, Copy, PartialEq, Eq, Structural)]
pub enum FetchError {
    /// The request could not be sent, or no response came.
    Transport,
    Malformed(Malformed),
}

/// The three fields of one entry of the recently played titles, each read or
/// found wanting.
#[derive(Debug)]
pub struct RawTitle {
    pub app_id: Result<u32, FieldFault>,
    pub name: Result<String, FieldFault>,
    pub playtime: Result<u32, FieldFault>,
}

/// An entry's identifier, name and playtime, each read or found wanting.
pub type RawView = (Result<u32, FieldFault>, Result<Seq<char>, FieldFault>, Result<u32, FieldFault>);

pub open spec fn raw_view(e: RawTitle) -> RawView {
    (
        e.app_id,
        match e.name {
            Ok(s) => Ok(s@),
            Err(f) => Err(f),
        },
        e.playtime,
    )
}

/// The entry that a title makes.
pub open spec fn game_view(g: Game) -> RawView {
    (Ok(g.app_id), Ok(g.name@), Ok(g.playtime_forever))
}

/// The fault of a field that holds no readable value: absent where it is
/// null or missing, of the wrong type otherwise.
pub open spec fn fault_of(v: JsonView) -> FieldFault {
    if v is Null {
        FieldFault::Absent
    } else {
        FieldFault::WrongType
    }
}

/// A field that should hold a number fitting in a `u32`.
pub open spec fn u32_field(v: JsonView) -> Result<u32, FieldFault> {
    match u32_of(v) {
        Some(n) => Ok(n),
        None => Err(fault_of(v)),
    }
}

/// A field that should hold a string.
pub open spec fn str_field(v: JsonView) -> Result<Seq<char>, FieldFault> {
    match v {
        JsonView::Str(s) => Ok(s),
        _ => Err(fault_of(v)),
    }
}

/// What an entry of `response.games` holds.
pub open spec fn entry_view(e: JsonView) -> RawView {
    (
        u32_field(member_of(e, "appid"@)),
        str_field(member_of(e, "name"@)),
        u32_field(member_of(e, "playtime_forever"@)),
    )
}

/// The entries under `response.games` of a document, or what is wrong with
/// that list.
pub open spec fn games_of(doc: JsonView) -> Result<Seq<JsonView>, Malformed> {
    let g = member_of(member_of(doc, "response"@), "games"@);
    match g {
        JsonView::Array(xs) => Ok(xs),
        _ => Err(Malformed::Field(Field::Games, fault_of(g))),
    }
}

/// The first fault of an entry, its fields taken in the order identifier,
/// name, playtime.
pub open spec fn entry_fault(e: RawView) -> Option<Malformed> {
    match e.0 {
        Err(f) => Some(Malformed::Field(Field::AppId, f)),
        Ok(_) => match e.1 {
            Err(f) => Some(Malformed::Field(Field::Name, f)),
            Ok(_) => match e.2 {
                Err(f) => Some(Malformed::Field(Field::Playtime, f)),
                Ok(_) => None,
            },
        },
    }
}

/// The fault of the first entry that has one.
pub open spec fn first_fault(es: Seq<RawView>) -> Option<Malformed>
    decreases es.len(),
{
    if es.len() == 0 {
        None
    } else {
        match entry_fault(es[0]) {
            Some(m) => Some(m),
            None => first_fault(es.drop_first()),
        }
    }
}

/// The first identifier, in order of position, that repeats an earlier one.
pub open spec fn first_duplicate(ids: Seq<u32>) -> Option<u32>
    decreases ids.len(),
{
    if ids.len() == 0 {
        None
    } else {
        match first_duplicate(ids.drop_last()) {
            Some(id) => Some(id),
            None => if ids.drop_last().contains(ids.last()) {
                Some(ids.last())
            } else {
                None
            },
        }
    }
}

pub open spec fn entry_ids(es: Seq<RawView>) -> Seq<u32> {
    es.map_values(|e: RawView| e.0->Ok_0)
}

/// What is wrong with a list of entries: the first fault of a field, else the
/// first repeated identifier; `None` where nothing is.
pub open spec fn entries_verdict(es: Seq<RawView>) -> Option<Malformed> {
    match first_fault(es) {
        Some(m) => Some(m),
        None => match first_duplicate(entry_ids(es)) {
            Some(id) => Some(Malformed::DuplicateId(id)),
            None => None,
        },
    }
}

/// A duplicate found in a prefix stays the first one of every longer prefix.
proof fn lemma_first_duplicate_extends(ids: Seq<u32>, n: int, m: int)
    requires
        0 <= n <= m <= ids.len(),
        first_duplicate(ids.subrange(0, n)) is Some,
    ensures
        first_duplicate(ids.subrange(0, m)) == first_duplicate(ids.subrange(0, n)),
    decreases m - n,
{
    if m > n {
        lemma_first_duplicate_extends(ids, n, m - 1);
        assert(ids.subrange(0, m).drop_last() =~= ids.subrange(0, m - 1));
    }
}

/// Builds a snapshot from the entries of a response. The whole response is
/// refused if one entry lacks a field or two entries share an identifier.
pub fn titles_from_entries(es: &Vec<RawTitle>) -> (r: Result<Vec<Game>, Malformed>)
    ensures
        ({
            let raws = es@.map_values(|e: RawTitle| raw_view(e));
            match entries_verdict(raws) {
                Some(m) => r == Err::<Vec<Game>, Malformed>(m),
                None => r is Ok && r->Ok_0@.map_values(|g: Game| game_view(g)) == raws
                    && unique_ids(r->Ok_0@),
            }
        }),
{
    let ghost raws = es@.map_values(|e: RawTitle| raw_view(e));
    let mut out: Vec<Game> = Vec::new();
    let mut i: usize = 0;
    assert(raws.subrange(0, raws.len() as int) =~= raws);
    while i < es.len()
        invariant
            raws == es@.map_values(|e: RawTitle| raw_view(e)),
            i <= es@.len(),
            out@.len() == i,
            first_fault(raws) == first_fault(raws.subrange(i as int, raws.len() as int)),
            forall|k: int| 0 <= k < i ==> game_view(#[trigger] out@[k]) == raws[k],
        decreases es.len() - i,
    {
        let ghost rest = raws.subrange(i as int, raws.len() as int);
        assert(rest.drop_first() =~= raws.subrange(i + 1, raws.len() as int));
        assert(rest[0] == raws[i as int]);
        let e = &es[i];
        let app_id = match e.app_id {
            Ok(n) => n,
            Err(f) => {
                return Err(Malformed::Field(Field::AppId, f));
            },
        };
        let name = match &e.name {
            Ok(s) => s.clone(),
            Err(f) => {
                return Err(Malformed::Field(Field::Name, *f));
            },
        };
        let playtime = match e.playtime {
            Ok(n) => n,
            Err(f) => {
                return Err(Malformed::Field(Field::Playtime, f));
            },
        };
        out.push(Game::new(name, app_id, playtime));
        i = i + 1;
    }
    assert(raws.subrange(raws.len() as int, raws.len() as int).len() == 0);
    let ghost ids = entry_ids(raws);
    assert(out@.map_values(|g: Game| game_view(g)) =~= raws);
    assert forall|k: int| 0 <= k < ids.len() implies ids[k] == out@[k].app_id by {
        assert(game_view(out@[k]) == raws[k]);
    }
    assert(ids.subrange(0, 0).len() == 0);
    let mut j: usize = 0;
    while j < out.len()
        invariant
            out@.len() == ids.len(),
            ids == entry_ids(raws),
            raws == es@.map_values(|e: RawTitle| raw_view(e)),
            first_fault(raws) is None,
            out@.map_values(|g: Game| game_view(g)) == raws,
            j <= out@.len(),
            forall|k: int| 0 <= k < ids.len() ==> ids[k] == (#[trigger] out@[k]).app_id,
            forall|a: int, b: int| 0 <= a < b < j ==> out@[a].app_id != out@[b].app_id,
            first_duplicate(ids.subrange(0, j as int)) is None,
        decreases out.len() - j,
    {
        let ghost next = ids.subrange(0, j + 1);
        assert(next.drop_last() =~= ids.subrange(0, j as int));
        assert(next.last() == ids[j as int]);
        let mut a: usize = 0;
        while a < j
            invariant
                out@.len() == ids.len(),
                ids == entry_ids(raws),
                raws == es@.map_values(|e: RawTitle| raw_view(e)),
                first_fault(raws) is None,
                j < out@.len(),
                a <= j,
                forall|k: int| 0 <= k < ids.len() ==> ids[k] == (#[trigger] out@[k]).app_id,
                forall|x: int| 0 <= x < a ==> out@[x].app_id != out@[j as int].app_id,
                next == ids.subrange(0, j + 1),
                next.drop_last() == ids.subrange(0, j as int),
                next.last() == ids[j as int],
                first_duplicate(ids.subrange(0, j as int)) is None,
            decreases j - a,
        {
            if out[a].app_id == out[j].app_id {
                proof {
                    assert(next.drop_last()[a as int] == next.last());
                    lemma_first_duplicate_extends(ids, j + 1, ids.len() as int);
                    assert(ids.subrange(0, ids.len() as int) =~= ids);
                }
                return Err(Malformed::DuplicateId(out[j].app_id));
            }
            a = a + 1;
        }
        proof {
            assert forall|x: int| 0 <= x < next.drop_last().len() implies next.drop_last()[x]
                != next.last() by {
                assert(out@[x].app_id != out@[j as int].app_id);
            }
        }
        j = j + 1;
    }
    assert(ids.subrange(0, ids.len() as int) =~= ids);
    Ok(out)
}

/// Judges a field that should hold a number fitting in a `u32`, from what
/// was read of it: `value` as such a number, and whether it is null.
pub fn field_u32(value: Option<u32>, null: bool) -> (r: Result<u32, FieldFault>)
    ensures
        r == match value {
            Some(n) => Ok::<u32, FieldFault>(n),
            None => Err(
                if null {
                    FieldFault::Absent
                } else {
                    FieldFault::WrongType
                },
            ),
        },
{
    match value {
        Some(n) => Ok(n),
        None => if null {
            Err(FieldFault::Absent)
        } else {
            Err(FieldFault::WrongType)
        },
    }
}

/// Judges a field that should hold a string, from what was read of it:
/// `value` as a string, and whether it is null.
pub fn field_string(value: Option<&str>, null: bool) -> (r: Result<String, FieldFault>)
    ensures
        match value {
            Some(v) => r is Ok && r->Ok_0@ == v@,
            None => r == Err::<String, FieldFault>(
                if null {
                    FieldFault::Absent
                } else {
                    FieldFault::WrongType
                },
            ),
        },
{
    match value {
        Some(v) => Ok(v.to_owned()),
        None => if null {
            Err(FieldFault::Absent)
        } else {
            Err(FieldFault::WrongType)
        },
    }
}

/// Judges the list of titles of a response, from whether it is an array and
/// whether it is null.
pub fn check_games_list(array: bool, null: bool) -> (r: Result<(), Malformed>)
    ensures
        r == if array {
            Ok::<(), Malformed>(())
        } else if null {
            Err(Malformed::Field(Field::Games, FieldFault::Absent))
        } else {
            Err(Malformed::Field(Field::Games, FieldFault::WrongType))
        },
{
    if array {
        Ok(())
    } else if null {
        Err(Malformed::Field(Field::Games, FieldFault::Absent))
    } else {
        Err(Malformed::Field(Field::Games, FieldFault::WrongType))
    }
}

/// Reads the entries under `response.games` of a recently played titles
/// response.
pub fn read_title_entries(doc: &json::JsonValue) -> (r: Result<Vec<RawTitle>, Malformed>)
    ensures
        match games_of(json_view(*doc)) {
            Err(m) => r == Err::<Vec<RawTitle>, Malformed>(m),
            Ok(xs) => r is Ok && r->Ok_0@.map_values(|e: RawTitle| raw_view(e)) == xs.map_values(
                |e: JsonView| entry_view(e),
            ),
        },
{
    let games = member(member(doc, "response"), "games");
    if let Err(m) = check_games_list(games.is_array(), games.is_null()) {
        return Err(m);
    }
    let ghost xs = json_view(*games)->Array_0;
    let n = games.len();
    let mut out: Vec<RawTitle> = Vec::new();
    let mut i: usize = 0;
    while i < n
        invariant
            json_view(*games) == JsonView::Array(xs),
            n == xs.len(),
            i <= n,
            out@.len() == i,
            forall|k: int| 0 <= k < i ==> raw_view(#[trigger] out@[k]) == entry_view(xs[k]),
        decreases n - i,
    {
        let g = element(games, i);
        let app_id = member(g, "appid");
        let name = member(g, "name");
        let playtime = member(g, "playtime_forever");
        out.push(
            RawTitle {
                app_id: field_u32(app_id.as_u32(), app_id.is_null()),
                name: field_string(name.as_str(), name.is_null()),
                playtime: field_u32(playtime.as_u32(), playtime.is_null()),
            },
        );
        i = i + 1;
    }
    assert(out@.map_values(|e: RawTitle| raw_view(e)) =~= xs.map_values(|e: JsonView| entry_view(e)));
    Ok(out)
}

/// What a recently played titles response with document `doc` gives: the
/// entries under `response.games`, each with its three fields, and no
/// identifier twice.
pub open spec fn titles_of(doc: JsonView) -> Result<Seq<RawView>, Malformed> {
    match games_of(doc) {
        Err(m) => Err(m),
        Ok(xs) => {
            let raws = xs.map_values(|e: JsonView| entry_view(e));
            match entries_verdict(raws) {
                Some(m) => Err(m),
                None => Ok(raws),
            }
        },
    }
}

/// Why a response body cannot be read, before its entries are looked at: a
/// run of digits too long for the parser, or a body that is no JSON.
pub open spec fn document_of(body: &str) -> Result<JsonView, Malformed> {
    if !digit_runs_short(body.spec_bytes()) {
        Err(Malformed::OverlongNumber)
    } else {
        match json_of(body@) {
            None => Err(Malformed::NotJson),
            Some(d) => Ok(d),
        }
    }
}

/// Parses the body of a recently played titles response into a snapshot.
/// A body that is no JSON, an entry that lacks a field, or two entries with
/// one identifier make the whole response malformed.
pub fn parse_recent_titles(body: &str) -> (r: Result<Vec<Game>, FetchError>)
    ensures
        match document_of(body) {
            Err(m) => r == Err::<Vec<Game>, FetchError>(FetchError::Malformed(m)),
            Ok(d) => match titles_of(d) {
                Err(m) => r == Err::<Vec<Game>, FetchError>(FetchError::Malformed(m)),
                Ok(raws) => r is Ok && r->Ok_0@.map_values(|g: Game| game_view(g)) == raws
                    && unique_ids(r->Ok_0@),
            },
        },
{
    if !has_short_digit_runs(body) {
        return Err(FetchError::Malformed(Malformed::OverlongNumber));
    }
    let doc = match json::parse(body) {
        Ok(d) => d,
        Err(_) => {
            return Err(FetchError::Malformed(Malformed::NotJson));
        },
    };
    let entries = match read_title_entries(&doc) {
        Ok(es) => es,
        Err(m) => {
            return Err(FetchError::Malformed(m));
        },
    };
    match titles_from_entries(&entries) {
        Ok(v) => Ok(v),
        Err(m) => Err(FetchError::Malformed(m)),
    }
}

/// The display name of a player summary document, at
/// `response.players[0].personaname`.
pub open spec fn persona_of(doc: JsonView) -> Result<Seq<char>, FieldFault> {
    str_field(
        member_of(element_of(member_of(member_of(doc, "response"@), "players"@), 0), "personaname"@),
    )
}

/// Parses the body of a player summary response into the account's display
/// name, found at `response.players[0].personaname`.
pub fn parse_profile(body: &str) -> (r: Result<String, FetchError>)
    ensures
        match document_of(body) {
            Err(m) => r == Err::<String, FetchError>(FetchError::Malformed(m)),
            Ok(d) => match persona_of(d) {
                Err(f) => r == Err::<String, FetchError>(
                    FetchError::Malformed(Malformed::Field(Field::PersonaName, f)),
                ),
                Ok(s) => r is Ok && r->Ok_0@ == s,
            },
        },
{
    if !has_short_digit_runs(body) {
        return Err(FetchError::Malformed(Malformed::OverlongNumber));
    }
    let doc = match json::parse(body) {
        Ok(d) => d,
        Err(_) => {
            return Err(FetchError::Malformed(Malformed::NotJson));
        },
    };
    let players = member(member(&doc, "response"), "players");
    let persona = member(element(players, 0), "personaname");
    match field_string(persona.as_str(), persona.is_null()) {
        Ok(name) => Ok(name),
        Err(f) => Err(FetchError::Malformed(Malformed::Field(Field::PersonaName, f))),
    }
}

} // verus!
