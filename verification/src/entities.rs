//! Entity relationships: the Cypher statements sent to the graph database,
//! the endpoint and Basic credentials for its HTTP API, and the reading of
//! its answers into entities, relationships, connections and insider status.
use vstd::prelude::*;
use vstd::string::StringSliceAdditionalSpecFns;
use crate::text::{decimal, join_seq, join_texts, push_char, push_decimal, push_text, replace_all, replace_text, text};

verus! {

// ===== Configuration and data =====

#[derive(Debug, Clone, PartialEq, Eq)]
pub struct EntityRelationshipConfig {
    pub dashboard_contract_id: String,
    pub neo4j_uri: String,
    pub neo4j_user: String,
    pub neo4j_password: String,
}

#[derive(Debug, Clone, PartialEq, Eq)]
pub struct Entity {
    pub entity_id: String,
    pub entity_type: String,
    pub name: String,
    pub pan_number: String,
    pub registration_id: String,
}

#[derive(Debug, Clone, PartialEq, Eq)]
pub struct Relationship {
    pub source_entity_id: String,
    pub target_entity_id: String,
    pub relationship_type: String,
    pub relationship_detail: String,
    pub strength: u32,
    pub verified: bool,
}

#[derive(Debug, Clone, PartialEq, Eq)]
pub struct EntityConnection {
    pub entity_id: String,
    pub connected_entity_id: String,
    pub connection_path: String,
    pub hops: u32,
    pub relationship_types: String,
}

#[derive(Debug, Clone, PartialEq, Eq)]
pub struct InsiderStatus {
    pub entity_id: String,
    pub company_symbol: String,
    pub is_insider: bool,
    pub insider_type: String,
    pub designation: String,
    pub window_status: String,
}

/// One value of a result row, as far as the readers look at it: a string, an
/// unsigned integer, a boolean, a list, or anything else.
#[derive(Debug, PartialEq, Eq)]
pub enum RowValue {
    Text(String),
    Unsigned(u64),
    Boolean(bool),
    List(Vec<RowValue>),
    Other,
}

#[derive(Debug, PartialEq, Eq)]
pub struct Neo4jRow {
    pub row: Vec<RowValue>,
}

#[derive(Debug, PartialEq, Eq)]
pub struct Neo4jResult {
    pub columns: Vec<String>,
    pub data: Vec<Neo4jRow>,
}

#[derive(Debug, Clone, PartialEq, Eq)]
pub struct Neo4jError {
    pub message: String,
}

/// The answer of the transaction endpoint: results per statement and errors.
#[derive(Debug, PartialEq, Eq)]
pub struct Neo4jResponse {
    pub results: Vec<Neo4jResult>,
    pub errors: Vec<Neo4jError>,
}

/// A transaction request for the database: where it goes, its credentials and
/// its JSON body.
#[derive(Debug, Clone, PartialEq, Eq)]
pub struct CypherRequest {
    pub url: String,
    pub authorization: String,
    pub body: String,
}

/// The state of the entity relationship service.
#[derive(Debug)]
pub struct EntityRelationshipContractState {
    config: EntityRelationshipConfig,
}

// ===== Specifications =====

/// The base64 alphabet.
pub open spec fn base64_alphabet() -> Seq<char> {
    "ABCDEFGHIJKLMNOPQRSTUVWXYZabcdefghijklmnopqrstuvwxyz0123456789+/"@
}

/// The four characters for a chunk of one to three bytes, padded with `=`.
pub open spec fn base64_chunk(chunk: Seq<u8>) -> Seq<char> {
    let b0 = chunk[0] as int;
    let b1 = if chunk.len() > 1 { chunk[1] as int } else { 0 };
    let b2 = if chunk.len() > 2 { chunk[2] as int } else { 0 };
    let combined = b0 * 65536 + b1 * 256 + b2;
    seq![
        base64_alphabet()[(combined / 262144) % 64],
        base64_alphabet()[(combined / 4096) % 64],
        if chunk.len() > 1 { base64_alphabet()[(combined / 64) % 64] } else { '=' },
        if chunk.len() > 2 { base64_alphabet()[combined % 64] } else { '=' },
    ]
}

/// Standard padded base64 of a byte string, three bytes at a time.
pub open spec fn base64_of(bytes: Seq<u8>) -> Seq<char>
    decreases bytes.len(),
{
    if bytes.len() == 0 {
        Seq::<char>::empty()
    } else if bytes.len() <= 3 {
        base64_chunk(bytes)
    } else {
        base64_chunk(bytes.take(3)) + base64_of(bytes.skip(3))
    }
}

/// The text of a value, or the empty text for any other value.
pub open spec fn text_or_empty(v: RowValue) -> Seq<char> {
    match v {
        RowValue::Text(s) => s@,
        _ => Seq::<char>::empty(),
    }
}

/// The text of a value, or `fallback`.
pub open spec fn text_or(v: RowValue, fallback: Seq<char>) -> Seq<char> {
    match v {
        RowValue::Text(s) => s@,
        _ => fallback,
    }
}

/// The unsigned integer of a value, truncated to 32 bits, or 0.
pub open spec fn count_or_zero(v: RowValue) -> u32 {
    match v {
        RowValue::Unsigned(n) => n as u32,
        _ => 0,
    }
}

/// The boolean of a value, or false.
pub open spec fn flag_or_false(v: RowValue) -> bool {
    match v {
        RowValue::Boolean(b) => b,
        _ => false,
    }
}

/// The texts among the items of a list.
pub open spec fn texts_in(items: Seq<RowValue>) -> Seq<Seq<char>>
    decreases items.len(),
{
    if items.len() == 0 {
        Seq::<Seq<char>>::empty()
    } else {
        let rest = texts_in(items.drop_last());
        match items.last() {
            RowValue::Text(s) => rest.push(s@),
            _ => rest,
        }
    }
}

/// The texts of a list value joined by `sep`; the empty text for a non-list.
pub open spec fn joined_list(v: RowValue, sep: Seq<char>) -> Seq<char> {
    match v {
        RowValue::List(items) => join_seq(texts_in(items@), sep),
        _ => Seq::<char>::empty(),
    }
}

/// The entity read from a row of at least five values.
pub open spec fn entity_from(row: Seq<RowValue>, e: Entity) -> bool {
    &&& e.entity_id@ == text_or_empty(row[0])
    &&& e.entity_type@ == text_or_empty(row[1])
    &&& e.name@ == text_or_empty(row[2])
    &&& e.pan_number@ == text_or_empty(row[3])
    &&& e.registration_id@ == text_or_empty(row[4])
}

/// The entities of the rows of at least five values, in order.
pub open spec fn entities_from(rows: Seq<Neo4jRow>, out: Seq<Entity>) -> bool
    decreases rows.len(),
{
    if rows.len() == 0 {
        out.len() == 0
    } else if rows.last().row@.len() >= 5 {
        out.len() > 0 && entity_from(rows.last().row@, out.last()) && entities_from(rows.drop_last(), out.drop_last())
    } else {
        entities_from(rows.drop_last(), out)
    }
}

/// The relationship read from a row of at least six values.
pub open spec fn relationship_from(row: Seq<RowValue>, r: Relationship) -> bool {
    &&& r.source_entity_id@ == text_or_empty(row[0])
    &&& r.target_entity_id@ == text_or_empty(row[1])
    &&& r.relationship_type@ == text_or_empty(row[2])
    &&& r.relationship_detail@ == text_or_empty(row[3])
    &&& r.strength == count_or_zero(row[4])
    &&& r.verified == flag_or_false(row[5])
}

pub open spec fn relationships_from(rows: Seq<Neo4jRow>, out: Seq<Relationship>) -> bool
    decreases rows.len(),
{
    if rows.len() == 0 {
        out.len() == 0
    } else if rows.last().row@.len() >= 6 {
        out.len() > 0 && relationship_from(rows.last().row@, out.last()) && relationships_from(rows.drop_last(), out.drop_last())
    } else {
        relationships_from(rows.drop_last(), out)
    }
}

/// A connection of `entity` read from a row of at least four values.
pub open spec fn connection_from(row: Seq<RowValue>, entity: Seq<char>, c: EntityConnection) -> bool {
    &&& c.entity_id@ == entity
    &&& c.connected_entity_id@ == text_or_empty(row[0])
    &&& c.connection_path@ == joined_list(row[1], " -> "@)
    &&& c.hops == count_or_zero(row[2])
    &&& c.relationship_types@ == joined_list(row[3], ","@)
}

pub open spec fn connections_from(rows: Seq<Neo4jRow>, entity: Seq<char>, out: Seq<EntityConnection>) -> bool
    decreases rows.len(),
{
    if rows.len() == 0 {
        out.len() == 0
    } else if rows.last().row@.len() >= 4 {
        out.len() > 0 && connection_from(rows.last().row@, entity, out.last())
            && connections_from(rows.drop_last(), entity, out.drop_last())
    } else {
        connections_from(rows.drop_last(), entity, out)
    }
}

/// The insider status read from a row of at least six values.
pub open spec fn insider_from(row: Seq<RowValue>, is_insider: bool, s: InsiderStatus) -> bool {
    &&& s.entity_id@ == text_or_empty(row[0])
    &&& s.company_symbol@ == text_or_empty(row[1])
    &&& s.is_insider == is_insider
    &&& s.insider_type@ == text_or_empty(row[3])
    &&& s.designation@ == text_or_empty(row[4])
    &&& s.window_status@ == text_or(row[5], "OPEN"@)
}

pub open spec fn insiders_from(rows: Seq<Neo4jRow>, out: Seq<InsiderStatus>) -> bool
    decreases rows.len(),
{
    if rows.len() == 0 {
        out.len() == 0
    } else if rows.last().row@.len() >= 6 {
        out.len() > 0 && insider_from(rows.last().row@, true, out.last()) && insiders_from(rows.drop_last(), out.drop_last())
    } else {
        insiders_from(rows.drop_last(), out)
    }
}

/// The rows of the first result, none when there is no result.
pub open spec fn first_rows(resp: Neo4jResponse) -> Seq<Neo4jRow> {
    if resp.results@.len() > 0 { resp.results@[0].data@ } else { Seq::<Neo4jRow>::empty() }
}

/// The first row of the first result.
pub open spec fn first_row(resp: Neo4jResponse) -> Option<Seq<RowValue>> {
    if first_rows(resp).len() > 0 { Some(first_rows(resp)[0].row@) } else { None }
}

/// The database reported an error; the first one's message.
pub open spec fn reported_error(resp: Neo4jResponse) -> Option<Seq<char>> {
    if resp.errors@.len() > 0 { Some(resp.errors@[0].message@) } else { None }
}

/// The HTTP endpoint for a Bolt URI: the schemes mapped to HTTP ones and the
/// transaction path appended.
pub open spec fn endpoint_for(uri: Seq<char>) -> Seq<char> {
    replace_all(replace_all(uri, "neo4j+s://"@, "https://"@), "neo4j://"@, "http://"@) + "/db/neo4j/tx/commit"@
}

/// What `serde_json::to_string` gives for the transaction body
/// `{"statements": [{"statement": <statement>}]}`.
pub uninterp spec fn cypher_request_of(statement: Seq<char>) -> Seq<char>;

/// `serde_json::to_string` of the transaction body holding one statement, named
/// by `cypher_request_of`; the escaping of the statement is not stated. Maps
/// and lists of strings always serialise, so the error arm is never taken.
#[verifier::external_body]
fn cypher_request_text(statement: &String) -> (r: String)
    ensures
        r@ == cypher_request_of(statement@),
{
    let entry = std::collections::BTreeMap::from([("statement", statement.as_str())]);
    let body = std::collections::BTreeMap::from([("statements", vec![entry])]);
    match serde_json::to_string(&body) {
        Ok(s) => s,
        Err(_) => String::new(),
    }
}

pub open spec fn utf8_of(s: Seq<char>) -> Seq<u8> {
    vstd::utf8::encode_utf8(s)
}

// ===== Verified operations =====

/// The base64 character for a value below 64.
fn base64_char(i: u32) -> (c: char)
    requires
        i < 64,
    ensures
        c == base64_alphabet()[i as int],
{
    let alphabet = "ABCDEFGHIJKLMNOPQRSTUVWXYZabcdefghijklmnopqrstuvwxyz0123456789+/";
    proof {
        reveal_strlit("ABCDEFGHIJKLMNOPQRSTUVWXYZabcdefghijklmnopqrstuvwxyz0123456789+/");
    }
    alphabet.get_char(i as usize)
}

/// Appends the four characters for the bytes `i .. i + len` of `bytes`.
fn push_base64_chunk(out: &mut String, bytes: &[u8], i: usize, len: usize)
    requires
        1 <= len <= 3,
        i + len <= bytes@.len(),
    ensures
        final(out)@ == old(out)@ + base64_chunk(bytes@.subrange(i as int, i + len)),
{
    let ghost chunk = bytes@.subrange(i as int, i + len);
    let b0 = bytes[i] as u32;
    let b1: u32 = if len > 1 { bytes[i + 1] as u32 } else { 0 };
    let b2: u32 = if len > 2 { bytes[i + 2] as u32 } else { 0 };
    let combined: u32 = (b0 << 16u32) | (b1 << 8u32) | b2;
    assert(combined == b0 * 65536 + b1 * 256 + b2) by (bit_vector)
        requires
            b0 < 256 && b1 < 256 && b2 < 256,
            combined == (b0 << 16u32) | (b1 << 8u32) | b2;
    let c0 = (combined >> 18u32) & 0x3Fu32;
    let c1 = (combined >> 12u32) & 0x3Fu32;
    let c2 = (combined >> 6u32) & 0x3Fu32;
    let c3 = combined & 0x3Fu32;
    assert(c0 == (combined / 262144) % 64 && c1 == (combined / 4096) % 64 && c2 == (combined / 64) % 64
        && c3 == combined % 64) by (bit_vector)
        requires
            c0 == (combined >> 18u32) & 0x3Fu32,
            c1 == (combined >> 12u32) & 0x3Fu32,
            c2 == (combined >> 6u32) & 0x3Fu32,
            c3 == combined & 0x3Fu32;
    assert(chunk[0] == bytes@[i as int]);
    assert(len > 1 ==> chunk[1] == bytes@[i + 1]);
    assert(len > 2 ==> chunk[2] == bytes@[i + 2]);
    let ghost before = out@;
    push_char(out, base64_char(c0));
    push_char(out, base64_char(c1));
    if len > 1 {
        push_char(out, base64_char(c2));
    } else {
        push_char(out, '=');
    }
    if len > 2 {
        push_char(out, base64_char(c3));
    } else {
        push_char(out, '=');
    }
    assert(out@ =~= before + base64_chunk(chunk));
}

proof fn lemma_base64_step(bytes: Seq<u8>, i: int, len: int)
    requires
        0 <= i < bytes.len(),
        len == if bytes.len() - i >= 3 { 3 } else { bytes.len() - i },
    ensures
        base64_of(bytes.skip(i)) == base64_chunk(bytes.subrange(i, i + len)) + base64_of(bytes.skip(i + len)),
{
    let rest = bytes.skip(i);
    if rest.len() > 3 {
        assert(rest.take(3) =~= bytes.subrange(i, i + len));
        assert(rest.skip(3) =~= bytes.skip(i + len));
    } else {
        assert(rest =~= bytes.subrange(i, i + len));
        assert(bytes.skip(i + len) =~= Seq::<u8>::empty());
    }
}

/// Standard padded base64 of the UTF-8 bytes of the text.
pub fn base64_encode(input: &str) -> (r: String)
    ensures
        r@ == base64_of(utf8_of(input@)),
{
    let bytes = input.as_bytes();
    let n = bytes.len();
    let mut result = String::new();
    let mut i: usize = 0;
    assert(bytes@.skip(0) =~= bytes@);
    while i < n
        invariant
            n == bytes@.len(),
            i <= n,
            result@ + base64_of(bytes@.skip(i as int)) == base64_of(utf8_of(input@)),
        decreases n - i,
    {
        let len = if n - i >= 3 { 3 } else { n - i };
        proof { lemma_base64_step(bytes@, i as int, len as int); }
        let ghost before = result@;
        push_base64_chunk(&mut result, bytes, i, len);
        assert(result@ + base64_of(bytes@.skip(i + len)) =~= before + base64_of(bytes@.skip(i as int)));
        i = i + len;
    }
    assert(bytes@.skip(n as int) =~= Seq::<u8>::empty());
    result
}

fn text_of(v: &RowValue) -> (s: String)
    ensures
        s@ == text_or_empty(*v),
{
    match v {
        RowValue::Text(t) => t.clone(),
        _ => String::new(),
    }
}

fn text_or_default(v: &RowValue, fallback: &str) -> (s: String)
    ensures
        s@ == text_or(*v, fallback@),
{
    match v {
        RowValue::Text(t) => t.clone(),
        _ => text(fallback),
    }
}

fn count_of(v: &RowValue) -> (n: u32)
    ensures
        n == count_or_zero(*v),
{
    match v {
        RowValue::Unsigned(k) => *k as u32,
        _ => 0,
    }
}

fn flag_of(v: &RowValue) -> (b: bool)
    ensures
        b == flag_or_false(*v),
{
    match v {
        RowValue::Boolean(b) => *b,
        _ => false,
    }
}

/// The texts of a list value joined by `sep`.
fn join_list(v: &RowValue, sep: &str) -> (s: String)
    ensures
        s@ == joined_list(*v, sep@),
{
    match v {
        RowValue::List(items) => {
            let mut texts: Vec<String> = Vec::new();
            let mut i: usize = 0;
            while i < items.len()
                invariant
                    i <= items.len(),
                    texts@.map_values(|p: String| p@) == texts_in(items@.take(i as int)),
                decreases items.len() - i,
            {
                assert(items@.take(i + 1).drop_last() =~= items@.take(i as int));
                assert(items@.take(i + 1).last() == items@[i as int]);
                match &items[i] {
                    RowValue::Text(t) => {
                        texts.push(t.clone());
                    },
                    _ => {},
                }
                i = i + 1;
                assert(texts@.map_values(|p: String| p@) =~= texts_in(items@.take(i as int)));
            }
            assert(items@.take(items.len() as int) =~= items@);
            join_texts(&texts, sep)
        },
        _ => String::new(),
    }
}

fn first_error(resp: &Neo4jResponse) -> (r: Option<String>)
    ensures
        match reported_error(*resp) {
            Some(m) => r matches Some(s) && s@ == m,
            None => r is None,
        },
{
    if resp.errors.len() > 0 {
        Some(resp.errors[0].message.clone())
    } else {
        None
    }
}

/// The entity of a row of at least five values; `None` for a shorter row.
pub fn parse_entity(row: &Vec<RowValue>) -> (r: Option<Entity>)
    ensures
        row@.len() >= 5 ==> (r matches Some(e) && entity_from(row@, e)),
        row@.len() < 5 ==> r is None,
{
    if row.len() >= 5 {
        Some(Entity {
            entity_id: text_of(&row[0]),
            entity_type: text_of(&row[1]),
            name: text_of(&row[2]),
            pan_number: text_of(&row[3]),
            registration_id: text_of(&row[4]),
        })
    } else {
        None
    }
}

/// The entities of the rows of the first result.
fn entities_of(resp: &Neo4jResponse) -> (r: Vec<Entity>)
    ensures
        entities_from(first_rows(*resp), r@),
{
    let mut out: Vec<Entity> = Vec::new();
    if resp.results.len() == 0 {
        return out;
    }
    let rows = &resp.results[0].data;
    let mut i: usize = 0;
    while i < rows.len()
        invariant
            i <= rows.len(),
            entities_from(rows@.take(i as int), out@),
        decreases rows.len() - i,
    {
        assert(rows@.take(i + 1).drop_last() =~= rows@.take(i as int));
        assert(rows@.take(i + 1).last() == rows@[i as int]);
        let ghost prev = out@;
        match parse_entity(&rows[i].row) {
            Some(e) => {
                out.push(e);
                assert(out@.drop_last() =~= prev);
            },
            None => {},
        }
        i = i + 1;
    }
    assert(rows@.take(rows.len() as int) =~= rows@);
    out
}

impl EntityRelationshipContractState {
    pub closed spec fn configuration(self) -> EntityRelationshipConfig {
        self.config
    }

    /// The service with its configuration.
    pub fn new(config: EntityRelationshipConfig) -> (r: Result<EntityRelationshipContractState, String>)
        ensures
            r is Ok,
            r->Ok_0.configuration() == config,
    {
        Ok(EntityRelationshipContractState { config })
    }

    /// The configuration the service was made with.
    pub fn config(&self) -> (r: &EntityRelationshipConfig)
        ensures
            *r == self.configuration(),
    {
        &self.config
    }

    /// The transaction endpoint for the configured database.
    pub fn cypher_endpoint(&self) -> (r: String)
        ensures
            r@ == endpoint_for(self.configuration().neo4j_uri@),
    {
        proof {
            reveal_strlit("neo4j+s://");
            reveal_strlit("neo4j://");
        }
        let https = replace_text(&self.config.neo4j_uri, "neo4j+s://", "https://");
        let mut url = replace_text(&https, "neo4j://", "http://");
        url.append("/db/neo4j/tx/commit");
        url
    }

    /// The transaction request that runs one statement against the configured
    /// database.
    pub fn cypher_request(&self, statement: &String) -> (r: CypherRequest)
        ensures
            r.url@ == endpoint_for(self.configuration().neo4j_uri@),
            r.authorization@ == "Basic "@ + base64_of(utf8_of(self.configuration().neo4j_user@ + ":"@ + self.configuration().neo4j_password@)),
            r.body@ == cypher_request_of(statement@),
    {
        CypherRequest { url: self.cypher_endpoint(), authorization: self.basic_auth(), body: cypher_request_text(statement) }
    }

    /// The `Authorization` header value: `Basic` and the base64 of `user:password`.
    pub fn basic_auth(&self) -> (r: String)
        ensures
            r@ == "Basic "@ + base64_of(utf8_of(self.configuration().neo4j_user@ + ":"@ + self.configuration().neo4j_password@)),
    {
        let mut credentials = self.config.neo4j_user.clone();
        credentials.append(":");
        push_text(&mut credentials, &self.config.neo4j_password);
        let encoded = base64_encode(credentials.as_str());
        let mut header = text("Basic ");
        push_text(&mut header, &encoded);
        header
    }
}

/// The relationships of the rows of the first result.
fn relationships_of(resp: &Neo4jResponse) -> (r: Vec<Relationship>)
    ensures
        relationships_from(first_rows(*resp), r@),
{
    let mut out: Vec<Relationship> = Vec::new();
    if resp.results.len() == 0 {
        return out;
    }
    let rows = &resp.results[0].data;
    let mut i: usize = 0;
    while i < rows.len()
        invariant
            i <= rows.len(),
            relationships_from(rows@.take(i as int), out@),
        decreases rows.len() - i,
    {
        assert(rows@.take(i + 1).drop_last() =~= rows@.take(i as int));
        assert(rows@.take(i + 1).last() == rows@[i as int]);
        let row = &rows[i].row;
        if row.len() >= 6 {
            let ghost prev = out@;
            out.push(Relationship {
                source_entity_id: text_of(&row[0]),
                target_entity_id: text_of(&row[1]),
                relationship_type: text_of(&row[2]),
                relationship_detail: text_of(&row[3]),
                strength: count_of(&row[4]),
                verified: flag_of(&row[5]),
            });
            assert(out@.drop_last() =~= prev);
        }
        i = i + 1;
    }
    assert(rows@.take(rows.len() as int) =~= rows@);
    out
}

/// The connections of `entity_id` in the rows of the first result.
fn connections_of(resp: &Neo4jResponse, entity_id: &String) -> (r: Vec<EntityConnection>)
    ensures
        connections_from(first_rows(*resp), entity_id@, r@),
{
    let mut out: Vec<EntityConnection> = Vec::new();
    if resp.results.len() == 0 {
        return out;
    }
    let rows = &resp.results[0].data;
    let mut i: usize = 0;
    while i < rows.len()
        invariant
            i <= rows.len(),
            connections_from(rows@.take(i as int), entity_id@, out@),
        decreases rows.len() - i,
    {
        assert(rows@.take(i + 1).drop_last() =~= rows@.take(i as int));
        assert(rows@.take(i + 1).last() == rows@[i as int]);
        let row = &rows[i].row;
        if row.len() >= 4 {
            let ghost prev = out@;
            out.push(EntityConnection {
                entity_id: entity_id.clone(),
                connected_entity_id: text_of(&row[0]),
                connection_path: join_list(&row[1], " -> "),
                hops: count_of(&row[2]),
                relationship_types: join_list(&row[3], ","),
            });
            assert(out@.drop_last() =~= prev);
        }
        i = i + 1;
    }
    assert(rows@.take(rows.len() as int) =~= rows@);
    out
}

/// The insiders in the rows of the first result.
fn insiders_of(resp: &Neo4jResponse) -> (r: Vec<InsiderStatus>)
    ensures
        insiders_from(first_rows(*resp), r@),
{
    let mut out: Vec<InsiderStatus> = Vec::new();
    if resp.results.len() == 0 {
        return out;
    }
    let rows = &resp.results[0].data;
    let mut i: usize = 0;
    while i < rows.len()
        invariant
            i <= rows.len(),
            insiders_from(rows@.take(i as int), out@),
        decreases rows.len() - i,
    {
        assert(rows@.take(i + 1).drop_last() =~= rows@.take(i as int));
        assert(rows@.take(i + 1).last() == rows@[i as int]);
        let row = &rows[i].row;
        if row.len() >= 6 {
            let ghost prev = out@;
            out.push(InsiderStatus {
                entity_id: text_of(&row[0]),
                company_symbol: text_of(&row[1]),
                is_insider: true,
                insider_type: text_of(&row[3]),
                designation: text_of(&row[4]),
                window_status: text_or_default(&row[5], "OPEN"),
            });
            assert(out@.drop_last() =~= prev);
        }
        i = i + 1;
    }
    assert(rows@.take(rows.len() as int) =~= rows@);
    out
}

fn first_row_of(resp: &Neo4jResponse) -> (r: Option<&Vec<RowValue>>)
    ensures
        match first_row(*resp) {
            Some(row) => r matches Some(v) && v@ == row,
            None => r is None,
        },
{
    if resp.results.len() > 0 && resp.results[0].data.len() > 0 {
        Some(&resp.results[0].data[0].row)
    } else {
        None
    }
}

// ===== Statements =====

pub open spec fn entity_statement(entity_id: Seq<char>) -> Seq<char> {
    "MATCH (e:Entity {entity_id: '"@ + entity_id
        + "'}) RETURN e.entity_id, e.entity_type, e.name, e.pan_number, e.registration_id"@
}

pub open spec fn search_statement(q: Seq<char>, limit: u32) -> Seq<char> {
    "MATCH (e:Entity) WHERE e.name CONTAINS '"@ + q + "' OR e.pan_number CONTAINS '"@ + q
        + "' RETURN e.entity_id, e.entity_type, e.name, e.pan_number, e.registration_id LIMIT "@
        + decimal(limit as nat)
}

pub open spec fn relationships_statement(entity_id: Seq<char>) -> Seq<char> {
    "MATCH (a:Entity {entity_id: '"@ + entity_id
        + "'})-[r]->(b:Entity) RETURN a.entity_id, b.entity_id, type(r), r.detail, r.strength, r.verified"@
}

pub open spec fn connected_statement(entity_id: Seq<char>, max_hops: u32) -> Seq<char> {
    "MATCH path = (a:Entity {entity_id: '"@ + entity_id + "'})-[*1.."@ + decimal(max_hops as nat)
        + "]-(b:Entity) WHERE a <> b RETURN DISTINCT b.entity_id, [n IN nodes(path) | n.entity_id] AS path_nodes, length(path) AS hops, [r IN relationships(path) | type(r)] AS rel_types LIMIT 50"@
}

pub open spec fn insider_statement(entity_id: Seq<char>, symbol: Seq<char>) -> Seq<char> {
    "MATCH (e:Entity {entity_id: '"@ + entity_id + "'})-[r:INSIDER_OF]->(c:Company {symbol: '"@ + symbol
        + "'}) RETURN e.entity_id, c.symbol, true, r.insider_type, r.designation, r.window_status"@
}

pub open spec fn company_insiders_statement(symbol: Seq<char>) -> Seq<char> {
    "MATCH (e:Entity)-[r:INSIDER_OF]->(c:Company {symbol: '"@ + symbol
        + "'}) RETURN e.entity_id, c.symbol, true, r.insider_type, r.designation, r.window_status"@
}

pub open spec fn path_statement(id1: Seq<char>, id2: Seq<char>, max_hops: u32) -> Seq<char> {
    "MATCH path = shortestPath((a:Entity {entity_id: '"@ + id1 + "'})-[*1.."@ + decimal(max_hops as nat)
        + "]-(b:Entity {entity_id: '"@ + id2
        + "'})) RETURN [n IN nodes(path) | n.entity_id] AS path_nodes, length(path) AS hops, [r IN relationships(path) | type(r)] AS rel_types"@
}

pub open spec fn family_statement(entity_id: Seq<char>) -> Seq<char> {
    "MATCH (a:Entity {entity_id: '"@ + entity_id
        + "'})-[:FAMILY]-(b:Entity) RETURN b.entity_id, b.entity_type, b.name, b.pan_number, b.registration_id"@
}

pub open spec fn no_path_message(id1: Seq<char>, id2: Seq<char>, max_hops: u32) -> Seq<char> {
    "No path found between "@ + id1 + " and "@ + id2 + " within "@ + decimal(max_hops as nat) + " hops"@
}

impl EntityRelationshipContractState {
    /// The statement that fetches an entity.
    pub fn entity_statement(entity_id: &String) -> (r: String)
        ensures
            r@ == entity_statement(entity_id@),
    {
        let mut q = text("MATCH (e:Entity {entity_id: '");
        push_text(&mut q, entity_id);
        q.append("'}) RETURN e.entity_id, e.entity_type, e.name, e.pan_number, e.registration_id");
        q
    }

    /// The statement that searches entities by name or PAN.
    pub fn search_statement(search_query: &String, limit: u32) -> (r: String)
        ensures
            r@ == search_statement(search_query@, limit),
    {
        let mut q = text("MATCH (e:Entity) WHERE e.name CONTAINS '");
        push_text(&mut q, search_query);
        q.append("' OR e.pan_number CONTAINS '");
        push_text(&mut q, search_query);
        q.append("' RETURN e.entity_id, e.entity_type, e.name, e.pan_number, e.registration_id LIMIT ");
        push_decimal(&mut q, limit as u64);
        q
    }

    /// The statement that fetches an entity's outgoing relationships.
    pub fn relationships_statement(entity_id: &String) -> (r: String)
        ensures
            r@ == relationships_statement(entity_id@),
    {
        let mut q = text("MATCH (a:Entity {entity_id: '");
        push_text(&mut q, entity_id);
        q.append("'})-[r]->(b:Entity) RETURN a.entity_id, b.entity_id, type(r), r.detail, r.strength, r.verified");
        q
    }

    /// The statement that fetches the entities within `max_hops` of an entity.
    pub fn connected_statement(entity_id: &String, max_hops: u32) -> (r: String)
        ensures
            r@ == connected_statement(entity_id@, max_hops),
    {
        let mut q = text("MATCH path = (a:Entity {entity_id: '");
        push_text(&mut q, entity_id);
        q.append("'})-[*1..");
        push_decimal(&mut q, max_hops as u64);
        q.append("]-(b:Entity) WHERE a <> b RETURN DISTINCT b.entity_id, [n IN nodes(path) | n.entity_id] AS path_nodes, length(path) AS hops, [r IN relationships(path) | type(r)] AS rel_types LIMIT 50");
        q
    }

    /// The statement that fetches an entity's insider relation to a company.
    pub fn insider_statement(entity_id: &String, company_symbol: &String) -> (r: String)
        ensures
            r@ == insider_statement(entity_id@, company_symbol@),
    {
        let mut q = text("MATCH (e:Entity {entity_id: '");
        push_text(&mut q, entity_id);
        q.append("'})-[r:INSIDER_OF]->(c:Company {symbol: '");
        push_text(&mut q, company_symbol);
        q.append("'}) RETURN e.entity_id, c.symbol, true, r.insider_type, r.designation, r.window_status");
        q
    }

    /// The statement that fetches a company's insiders.
    pub fn company_insiders_statement(company_symbol: &String) -> (r: String)
        ensures
            r@ == company_insiders_statement(company_symbol@),
    {
        let mut q = text("MATCH (e:Entity)-[r:INSIDER_OF]->(c:Company {symbol: '");
        push_text(&mut q, company_symbol);
        q.append("'}) RETURN e.entity_id, c.symbol, true, r.insider_type, r.designation, r.window_status");
        q
    }

    /// The statement that fetches the shortest path between two entities.
    pub fn path_statement(entity_id_1: &String, entity_id_2: &String, max_hops: u32) -> (r: String)
        ensures
            r@ == path_statement(entity_id_1@, entity_id_2@, max_hops),
    {
        let mut q = text("MATCH path = shortestPath((a:Entity {entity_id: '");
        push_text(&mut q, entity_id_1);
        q.append("'})-[*1..");
        push_decimal(&mut q, max_hops as u64);
        q.append("]-(b:Entity {entity_id: '");
        push_text(&mut q, entity_id_2);
        q.append("'})) RETURN [n IN nodes(path) | n.entity_id] AS path_nodes, length(path) AS hops, [r IN relationships(path) | type(r)] AS rel_types");
        q
    }

    /// The statement that fetches an entity's family.
    pub fn family_statement(entity_id: &String) -> (r: String)
        ensures
            r@ == family_statement(entity_id@),
    {
        let mut q = text("MATCH (a:Entity {entity_id: '");
        push_text(&mut q, entity_id);
        q.append("'})-[:FAMILY]-(b:Entity) RETURN b.entity_id, b.entity_type, b.name, b.pan_number, b.registration_id");
        q
    }

    // ===== Reading the answers =====

    /// The entity in the answer: the database's first error, else the entity of
    /// the first row, else an error naming the id.
    pub fn get_entity_from(response: &Neo4jResponse, entity_id: &String) -> (r: Result<Entity, String>)
        ensures
            match reported_error(*response) {
                Some(m) => r is Err && r->Err_0@ == m,
                None => match first_row(*response) {
                    Some(row) if row.len() >= 5 => r matches Ok(e) && entity_from(row, e),
                    _ => r is Err && r->Err_0@ == "Entity "@ + entity_id@ + " not found"@,
                },
            },
    {
        match first_error(response) {
            Some(m) => return Err(m),
            None => {},
        }
        match first_row_of(response) {
            Some(row) => match parse_entity(row) {
                Some(e) => return Ok(e),
                None => {},
            },
            None => {},
        }
        let mut e = text("Entity ");
        push_text(&mut e, entity_id);
        e.append(" not found");
        Err(e)
    }

    /// The entities in the answer (rows of at least five values), or the
    /// database's first error.
    pub fn entities_from_response(response: &Neo4jResponse) -> (r: Result<Vec<Entity>, String>)
        ensures
            match reported_error(*response) {
                Some(m) => r is Err && r->Err_0@ == m,
                None => r matches Ok(v) && entities_from(first_rows(*response), v@),
            },
    {
        match first_error(response) {
            Some(m) => Err(m),
            None => Ok(entities_of(response)),
        }
    }

    /// The relationships in the answer (rows of at least six values), or the
    /// database's first error.
    pub fn relationships_from_response(response: &Neo4jResponse) -> (r: Result<Vec<Relationship>, String>)
        ensures
            match reported_error(*response) {
                Some(m) => r is Err && r->Err_0@ == m,
                None => r matches Ok(v) && relationships_from(first_rows(*response), v@),
            },
    {
        match first_error(response) {
            Some(m) => Err(m),
            None => Ok(relationships_of(response)),
        }
    }

    /// The connections of an entity in the answer (rows of at least four
    /// values), or the database's first error.
    pub fn connections_from_response(response: &Neo4jResponse, entity_id: &String) -> (r: Result<Vec<EntityConnection>, String>)
        ensures
            match reported_error(*response) {
                Some(m) => r is Err && r->Err_0@ == m,
                None => r matches Ok(v) && connections_from(first_rows(*response), entity_id@, v@),
            },
    {
        match first_error(response) {
            Some(m) => Err(m),
            None => Ok(connections_of(response, entity_id)),
        }
    }

    /// The insider status in the answer: from a first row of at least six
    /// values, else not an insider with window status `N/A`.
    pub fn insider_status_from(response: &Neo4jResponse, entity_id: String, company_symbol: String)
        -> (r: Result<InsiderStatus, String>)
        ensures
            match reported_error(*response) {
                Some(m) => r is Err && r->Err_0@ == m,
                None => match first_row(*response) {
                    Some(row) if row.len() >= 6 => r matches Ok(s) && insider_from(row, flag_or_false(row[2]), s),
                    _ => r matches Ok(s) && s.entity_id == entity_id && s.company_symbol == company_symbol
                        && !s.is_insider && s.insider_type@ == Seq::<char>::empty()
                        && s.designation@ == Seq::<char>::empty() && s.window_status@ == "N/A"@,
                },
            },
    {
        match first_error(response) {
            Some(m) => return Err(m),
            None => {},
        }
        match first_row_of(response) {
            Some(row) => {
                if row.len() >= 6 {
                    return Ok(InsiderStatus {
                        entity_id: text_of(&row[0]),
                        company_symbol: text_of(&row[1]),
                        is_insider: flag_of(&row[2]),
                        insider_type: text_of(&row[3]),
                        designation: text_of(&row[4]),
                        window_status: text_or_default(&row[5], "OPEN"),
                    });
                }
            },
            None => {},
        }
        Ok(InsiderStatus {
            entity_id,
            company_symbol,
            is_insider: false,
            insider_type: String::new(),
            designation: String::new(),
            window_status: text("N/A"),
        })
    }

    /// The insiders of a company in the answer (rows of at least six values),
    /// or the database's first error.
    pub fn insiders_from_response(response: &Neo4jResponse) -> (r: Result<Vec<InsiderStatus>, String>)
        ensures
            match reported_error(*response) {
                Some(m) => r is Err && r->Err_0@ == m,
                None => r matches Ok(v) && insiders_from(first_rows(*response), v@),
            },
    {
        match first_error(response) {
            Some(m) => Err(m),
            None => Ok(insiders_of(response)),
        }
    }

    /// The path between two entities in the answer: from a first row of at
    /// least three values, else an error that no path was found.
    pub fn path_from_response(response: &Neo4jResponse, entity_id_1: String, entity_id_2: String, max_hops: u32)
        -> (r: Result<EntityConnection, String>)
        ensures
            match reported_error(*response) {
                Some(m) => r is Err && r->Err_0@ == m,
                None => match first_row(*response) {
                    Some(row) if row.len() >= 3 => r matches Ok(c) && c.entity_id == entity_id_1
                        && c.connected_entity_id == entity_id_2
                        && c.connection_path@ == joined_list(row[0], " -> "@)
                        && c.hops == count_or_zero(row[1])
                        && c.relationship_types@ == joined_list(row[2], ","@),
                    _ => r is Err && r->Err_0@ == no_path_message(entity_id_1@, entity_id_2@, max_hops),
                },
            },
    {
        match first_error(response) {
            Some(m) => return Err(m),
            None => {},
        }
        match first_row_of(response) {
            Some(row) => {
                if row.len() >= 3 {
                    return Ok(EntityConnection {
                        entity_id: entity_id_1,
                        connected_entity_id: entity_id_2,
                        connection_path: join_list(&row[0], " -> "),
                        hops: count_of(&row[1]),
                        relationship_types: join_list(&row[2], ","),
                    });
                }
            },
            None => {},
        }
        let mut e = text("No path found between ");
        push_text(&mut e, &entity_id_1);
        e.append(" and ");
        push_text(&mut e, &entity_id_2);
        e.append(" within ");
        push_decimal(&mut e, max_hops as u64);
        e.append(" hops");
        Err(e)
    }
}

// ===== Laws =====

/// Base64 turns every three bytes into four characters, the last group padded.
pub proof fn law_base64_length(bytes: Seq<u8>)
    ensures
        base64_of(bytes).len() == 4 * ((bytes.len() + 2) / 3),
    decreases bytes.len(),
{
    if bytes.len() > 3 {
        law_base64_length(bytes.skip(3));
    }
}

/// The number of `=` that end the base64 of `n` bytes.
pub open spec fn base64_padding(n: nat) -> nat {
    if n % 3 == 0 { 0 } else { (3 - n % 3) as nat }
}

/// Every base64 character is from the alphabet except the padding, and the
/// padding is the last one or two characters: two after a single final byte,
/// one after two final bytes, none when the bytes come in whole threes.
pub proof fn law_base64_alphabet(bytes: Seq<u8>)
    ensures
        base64_of(bytes).len() >= base64_padding(bytes.len()),
        forall|i: int| 0 <= i < base64_of(bytes).len() - base64_padding(bytes.len()) ==>
            base64_alphabet().contains(#[trigger] base64_of(bytes)[i]),
        forall|i: int| base64_of(bytes).len() - base64_padding(bytes.len()) <= i < base64_of(bytes).len() ==>
            #[trigger] base64_of(bytes)[i] == '=',
        !base64_alphabet().contains('='),
    decreases bytes.len(),
{
    reveal_strlit("ABCDEFGHIJKLMNOPQRSTUVWXYZabcdefghijklmnopqrstuvwxyz0123456789+/");
    lemma_no_padding_in_alphabet();
    law_base64_length(bytes);
    let out = base64_of(bytes);
    if bytes.len() > 3 {
        law_base64_alphabet(bytes.skip(3));
        law_base64_length(bytes.skip(3));
        let head = base64_chunk(bytes.take(3));
        let rest = base64_of(bytes.skip(3));
        assert(bytes.skip(3).len() % 3 == bytes.len() % 3);
        lemma_chunk_chars(bytes.take(3));
        assert forall|i: int| 0 <= i < out.len() - base64_padding(bytes.len()) implies
            base64_alphabet().contains(#[trigger] out[i]) by {
            if i >= 4 {
                assert(out[i] == rest[i - 4]);
            } else {
                assert(out[i] == head[i]);
            }
        }
        assert forall|i: int| out.len() - base64_padding(bytes.len()) <= i < out.len() implies
            #[trigger] out[i] == '=' by {
            assert(out[i] == rest[i - 4]);
        }
    } else if bytes.len() > 0 {
        lemma_chunk_chars(bytes);
    }
}

proof fn lemma_no_padding_in_alphabet()
    ensures
        !base64_alphabet().contains('='),
{
    reveal_strlit("ABCDEFGHIJKLMNOPQRSTUVWXYZabcdefghijklmnopqrstuvwxyz0123456789+/");
    let a = base64_alphabet();
    assert forall|i: int| 0 <= i < a.len() implies a[i] != '=' by {}
}

/// Base64 of bytes that come in whole threes followed by any bytes is the
/// base64 of each part, one after the other.
pub proof fn law_base64_concat(a: Seq<u8>, b: Seq<u8>)
    requires
        a.len() % 3 == 0,
    ensures
        base64_of(a + b) == base64_of(a) + base64_of(b),
    decreases a.len(),
{
    let ab = a + b;
    if a.len() == 0 {
        assert(ab =~= b);
        assert(base64_of(a) =~= Seq::<char>::empty());
        assert(base64_of(ab) =~= base64_of(a) + base64_of(b));
    } else if ab.len() <= 3 {
        assert(b =~= Seq::<u8>::empty());
        assert(ab =~= a);
        assert(base64_of(b) =~= Seq::<char>::empty());
        assert(base64_of(ab) =~= base64_of(a) + base64_of(b));
    } else {
        assert(ab.take(3) =~= a.take(3));
        assert(ab.skip(3) =~= a.skip(3) + b);
        law_base64_concat(a.skip(3), b);
        if a.len() == 3 {
            assert(a.take(3) =~= a);
            assert(a.skip(3) =~= Seq::<u8>::empty());
            assert(a.skip(3) + b =~= b);
            assert(base64_of(a.skip(3)) =~= Seq::<char>::empty());
        }
        assert(base64_of(ab) =~= base64_of(a) + base64_of(b));
    }
}

/// The UTF-8 bytes of two texts one after the other are the bytes of each.
pub proof fn lemma_utf8_concat(a: Seq<char>, b: Seq<char>)
    ensures
        utf8_of(a + b) == utf8_of(a) + utf8_of(b),
    decreases a.len(),
{
    if a.len() == 0 {
        assert(a + b =~= b);
        assert(utf8_of(a) =~= Seq::<u8>::empty());
        assert(utf8_of(a) + utf8_of(b) =~= utf8_of(b));
    } else {
        assert((a + b).drop_first() =~= a.drop_first() + b);
        assert((a + b)[0] == a[0]);
        lemma_utf8_concat(a.drop_first(), b);
        assert(utf8_of(a + b) =~= utf8_of(a) + utf8_of(b));
    }
}

/// The base64 of a text whose UTF-8 form comes in whole threes, followed by
/// another text, is the base64 of each text, one after the other.
pub proof fn law_base64_text_concat(a: Seq<char>, b: Seq<char>)
    requires
        utf8_of(a).len() % 3 == 0,
    ensures
        base64_of(utf8_of(a + b)) == base64_of(utf8_of(a)) + base64_of(utf8_of(b)),
{
    lemma_utf8_concat(a, b);
    law_base64_concat(utf8_of(a), utf8_of(b));
}

proof fn lemma_chunk_chars(chunk: Seq<u8>)
    requires
        1 <= chunk.len() <= 3,
    ensures
        base64_chunk(chunk).len() == 4,
        forall|k: int| 0 <= k < 4 - base64_padding(chunk.len()) ==> base64_alphabet().contains(#[trigger] base64_chunk(chunk)[k]),
        forall|k: int| 4 - base64_padding(chunk.len()) <= k < 4 ==> #[trigger] base64_chunk(chunk)[k] == '=',
{
    reveal_strlit("ABCDEFGHIJKLMNOPQRSTUVWXYZabcdefghijklmnopqrstuvwxyz0123456789+/");
    let b0 = chunk[0] as int;
    let b1 = if chunk.len() > 1 { chunk[1] as int } else { 0 };
    let b2 = if chunk.len() > 2 { chunk[2] as int } else { 0 };
    let combined = b0 * 65536 + b1 * 256 + b2;
    let a = base64_alphabet();
    assert(a.len() == 64);
    let i0 = (combined / 262144) % 64;
    let i1 = (combined / 4096) % 64;
    let i2 = (combined / 64) % 64;
    let i3 = combined % 64;
    assert(0 <= i0 < 64 && 0 <= i1 < 64 && 0 <= i2 < 64 && 0 <= i3 < 64);
    assert(a.contains(a[i0]) && a.contains(a[i1]) && a.contains(a[i2]) && a.contains(a[i3]));
}

/// Relationships go from the first value of a row to the second: on an answer
/// whose rows (of at least six values) all start with the texts `source` and
/// `target`, as the relationships statement returns `a.entity_id` of the queried
/// entity and then `b.entity_id`, every relationship read runs from `source`
/// to `target`.
pub proof fn law_relationships_run_from_first_to_second(rows: Seq<Neo4jRow>, out: Seq<Relationship>, source: String, target: String)
    requires
        relationships_from(rows, out),
        forall|m: int| 0 <= m < rows.len() && (#[trigger] rows[m]).row@.len() >= 6
            ==> rows[m].row@[0] == RowValue::Text(source) && rows[m].row@[1] == RowValue::Text(target),
    ensures
        forall|k: int| 0 <= k < out.len() ==> (#[trigger] out[k]).source_entity_id@ == source@
            && out[k].target_entity_id@ == target@,
    decreases rows.len(),
{
    if rows.len() > 0 {
        let d = rows.drop_last();
        let n = rows.len() - 1;
        assert(rows[n] == rows.last());
        assert forall|m: int| 0 <= m < d.len() && (#[trigger] d[m]).row@.len() >= 6
            implies d[m].row@[0] == RowValue::Text(source) && d[m].row@[1] == RowValue::Text(target) by {
            assert(d[m] == rows[m]);
        }
        if rows.last().row@.len() >= 6 {
            law_relationships_run_from_first_to_second(d, out.drop_last(), source, target);
            assert forall|k: int| 0 <= k < out.len() implies (#[trigger] out[k]).source_entity_id@ == source@
                && out[k].target_entity_id@ == target@ by {
                if k < out.len() - 1 {
                    assert(out[k] == out.drop_last()[k]);
                } else {
                    assert(out[k] == out.last());
                }
            }
        } else {
            law_relationships_run_from_first_to_second(d, out, source, target);
        }
    }
}

} // verus!
