//! DNS service: zones and records of the account, under `/v1/dns/`.

use vstd::prelude::*;

use crate::json::{
    comes_from_field, field_keys_ok, fields_view, has_member, json_object, json_string,
    keys_distinct, keys_within, lemma_members_by_key, lemma_present_members, member,
    member_as_given, present_members, quote_json, write_object, JsonField,
};
use crate::text::{
    decimal_int, hex_upper_char, hex_upper_digit, lemma_decimal_int_injective, push_char,
    push_decimal_i64,
};
use crate::{HttpRequest, WaApi};

verus! {

/// A DNS zone of the account.
#[derive(Debug, Clone)]
pub struct Zone {
    pub key: i64,
    pub name: String,
    pub status: i64,
    pub primaryns: String,
    pub adminemail: String,
    pub serial: i64,
    pub refresh: i64,
    pub retry: i64,
    pub expire: i64,
    pub minimum: i64,
    pub defaultttl: i64,
    pub dnssec: i64,
    pub creationdate: String,
}

/// A DNS record of one of the account's zones.
#[derive(Debug, Clone)]
pub struct Record {
    pub key: i64,
    pub zone: i64,
    pub name: String,
    pub rrtype: i64,
    pub rrtypename: String,
    pub ttl: i64,
    pub status: i64,
    pub priority: i64,
    pub weight: i64,
    pub port: i64,
    pub tag: String,
    pub data: String,
}

/// Reply of `list_zones`.
#[derive(Debug)]
pub struct ListZonesResult {
    pub status: String,
    pub zones: Vec<Zone>,
    pub count: i64,
}

/// Reply of `get_zone`.
#[derive(Debug)]
pub struct GetZoneResult {
    pub status: String,
    pub zone: Zone,
    pub records: Vec<Record>,
    pub ns: Vec<String>,
}

/// Reply of `add_zone`.
#[derive(Debug)]
pub struct AddZoneResult {
    pub status: String,
    pub key: i64,
    pub name: String,
}

/// Fields of a new record, for `add_record`. The optional ones are sent only
/// when present.
#[derive(Debug)]
pub struct RecordInput {
    pub name: String,
    pub rrtype: String,
    pub ttl: i64,
    pub data: String,
    pub priority: Option<i64>,
    pub weight: Option<i64>,
    pub port: Option<i64>,
    pub tag: Option<String>,
}

impl Default for RecordInput {
    /// Empty texts, zero TTL and no optional field.
    fn default() -> (r: Self)
        ensures
            r.name@ == Seq::<char>::empty(),
            r.rrtype@ == Seq::<char>::empty(),
            r.ttl == 0,
            r.data@ == Seq::<char>::empty(),
            r.priority is None,
            r.weight is None,
            r.port is None,
            r.tag is None,
    {
        RecordInput {
            name: String::new(),
            rrtype: String::new(),
            ttl: 0,
            data: String::new(),
            priority: None,
            weight: None,
            port: None,
            tag: None,
        }
    }
}

/// Reply of `add_record`.
#[derive(Debug)]
pub struct AddRecordResult {
    pub status: String,
    pub key: i64,
    pub zone: i64,
}

/// Fields to change in an existing record, for `update_record`. Only the
/// fields that are `Some(..)` are sent, and only they are changed.
#[derive(Debug)]
pub struct RecordUpdate {
    pub name: Option<String>,
    pub ttl: Option<i64>,
    pub data: Option<String>,
    pub priority: Option<i64>,
    pub weight: Option<i64>,
    pub port: Option<i64>,
    pub tag: Option<String>,
    pub status: Option<i64>,
}

impl Default for RecordUpdate {
    /// No field to change.
    fn default() -> (u: Self)
        ensures
            u.name is None,
            u.ttl is None,
            u.data is None,
            u.priority is None,
            u.weight is None,
            u.port is None,
            u.tag is None,
            u.status is None,
    {
        RecordUpdate {
            name: None,
            ttl: None,
            data: None,
            priority: None,
            weight: None,
            port: None,
            tag: None,
            status: None,
        }
    }
}

/// Reply of `update_record` and `delete_record`.
#[derive(Debug)]
pub struct KeyResult {
    pub status: String,
    pub key: i64,
}

/// Reply of `delete_zone`.
#[derive(Debug)]
pub struct DeleteZoneResult {
    pub status: String,
    pub key: i64,
    pub name: String,
}

/// The JSON value of an optional text field.
pub open spec fn text_value(s: Option<String>) -> Option<Seq<char>> {
    match s {
        Some(t) => Some(json_string(t@)),
        None => None,
    }
}

/// The JSON value of an optional integer field.
pub open spec fn int_value(x: Option<i64>) -> Option<Seq<char>> {
    match x {
        Some(v) => Some(decimal_int(v as int)),
        None => None,
    }
}

fn text_field(key: &str, value: &str) -> (f: JsonField)
    ensures
        f.field_view() == (key@, Some(json_string(value@))),
{
    JsonField { key: key.to_owned(), value: Some(quote_json(value)) }
}

fn int_field(key: &str, value: i64) -> (f: JsonField)
    ensures
        f.field_view() == (key@, Some(decimal_int(value as int))),
{
    let mut v = String::new();
    push_decimal_i64(&mut v, value);
    JsonField { key: key.to_owned(), value: Some(v) }
}

fn opt_text_field(key: &str, value: &Option<String>) -> (f: JsonField)
    ensures
        f.field_view() == (key@, text_value(*value)),
{
    match value {
        Some(v) => text_field(key, v.as_str()),
        None => JsonField { key: key.to_owned(), value: None },
    }
}

fn opt_int_field(key: &str, value: Option<i64>) -> (f: JsonField)
    ensures
        f.field_view() == (key@, int_value(value)),
{
    match value {
        Some(v) => int_field(key, v),
        None => JsonField { key: key.to_owned(), value: None },
    }
}

impl RecordInput {
    /// The fields of the request body, in order, with their JSON values.
    pub open spec fn json_fields(&self) -> Seq<(Seq<char>, Option<Seq<char>>)> {
        seq![
            ("name"@, Some(json_string(self.name@))),
            ("rrtype"@, Some(json_string(self.rrtype@))),
            ("ttl"@, Some(decimal_int(self.ttl as int))),
            ("data"@, Some(json_string(self.data@))),
            ("priority"@, int_value(self.priority)),
            ("weight"@, int_value(self.weight)),
            ("port"@, int_value(self.port)),
            ("tag"@, text_value(self.tag)),
        ]
    }

    /// The JSON body of `add_record`.
    pub open spec fn json_body(&self) -> Seq<char> {
        json_object(present_members(self.json_fields()))
    }

    /// Writes the JSON body of `add_record`.
    pub fn to_json(&self) -> (body: String)
        ensures
            body@ == self.json_body(),
    {
        let mut fields: Vec<JsonField> = Vec::new();
        fields.push(text_field("name", self.name.as_str()));
        fields.push(text_field("rrtype", self.rrtype.as_str()));
        fields.push(int_field("ttl", self.ttl));
        fields.push(text_field("data", self.data.as_str()));
        fields.push(opt_int_field("priority", self.priority));
        fields.push(opt_int_field("weight", self.weight));
        fields.push(opt_int_field("port", self.port));
        fields.push(opt_text_field("tag", &self.tag));
        assert(fields_view(fields@) =~= self.json_fields());
        write_object(&fields)
    }
}

impl RecordUpdate {
    /// The fields of the request body, in order, with their JSON values.
    pub open spec fn json_fields(&self) -> Seq<(Seq<char>, Option<Seq<char>>)> {
        seq![
            ("name"@, text_value(self.name)),
            ("ttl"@, int_value(self.ttl)),
            ("data"@, text_value(self.data)),
            ("priority"@, int_value(self.priority)),
            ("weight"@, int_value(self.weight)),
            ("port"@, int_value(self.port)),
            ("tag"@, text_value(self.tag)),
            ("status"@, int_value(self.status)),
        ]
    }

    /// The JSON body of `update_record`.
    pub open spec fn json_body(&self) -> Seq<char> {
        json_object(present_members(self.json_fields()))
    }

    /// Writes the JSON body of `update_record`.
    pub fn to_json(&self) -> (body: String)
        ensures
            body@ == self.json_body(),
    {
        let mut fields: Vec<JsonField> = Vec::new();
        fields.push(opt_text_field("name", &self.name));
        fields.push(opt_int_field("ttl", self.ttl));
        fields.push(opt_text_field("data", &self.data));
        fields.push(opt_int_field("priority", self.priority));
        fields.push(opt_int_field("weight", self.weight));
        fields.push(opt_int_field("port", self.port));
        fields.push(opt_text_field("tag", &self.tag));
        fields.push(opt_int_field("status", self.status));
        assert(fields_view(fields@) =~= self.json_fields());
        write_object(&fields)
    }
}

/// Only the fields of an update that are `Some(..)` are sent: each present
/// field gives a member of the body, every member comes from a present field,
/// and an update with no field present sends the empty object `{}`.
pub proof fn lemma_update_sends_present_fields(u: RecordUpdate)
    ensures
        forall|i: int|
            0 <= i < u.json_fields().len() && (#[trigger] u.json_fields()[i]).1 is Some
                ==> present_members(u.json_fields()).contains(
                member(u.json_fields()[i].0, u.json_fields()[i].1->Some_0),
            ),
        forall|j: int|
            0 <= j < present_members(u.json_fields()).len() ==> comes_from_field(
                u.json_fields(),
                #[trigger] present_members(u.json_fields())[j],
            ),
        (u.name is None && u.ttl is None && u.data is None && u.priority is None && u.weight
            is None && u.port is None && u.tag is None && u.status is None) ==> u.json_body()
            == seq!['{', '}'],
{
    lemma_present_members(u.json_fields());
    if u.name is None && u.ttl is None && u.data is None && u.priority is None && u.weight is None
        && u.port is None && u.tag is None && u.status is None {
        let f = u.json_fields();
        assert(present_members(f) =~= Seq::<Seq<char>>::empty()) by {
            reveal_with_fuel(present_members, 9);
        }
        assert(u.json_body() =~= seq!['{', '}']);
    }
}

/// The body of `add_record` carries every field of the record under its own
/// key: `name`, `rrtype`, `ttl` and `data` always, with their values;
/// `priority`, `weight`, `port` and `tag` with their values exactly when
/// present, and not at all when absent; no key twice, and no other key.
pub proof fn lemma_record_input_body(r: RecordInput)
    ensures
        ({
            let ms = present_members(r.json_fields());
            &&& r.json_body() == json_object(ms)
            &&& has_member(ms, "name"@, json_string(r.name@))
            &&& has_member(ms, "rrtype"@, json_string(r.rrtype@))
            &&& has_member(ms, "ttl"@, decimal_int(r.ttl as int))
            &&& has_member(ms, "data"@, json_string(r.data@))
            &&& member_as_given(ms, "priority"@, int_value(r.priority))
            &&& member_as_given(ms, "weight"@, int_value(r.weight))
            &&& member_as_given(ms, "port"@, int_value(r.port))
            &&& member_as_given(ms, "tag"@, text_value(r.tag))
            &&& keys_distinct(ms)
            &&& keys_within(
                ms,
                seq![
                    "name"@,
                    "rrtype"@,
                    "ttl"@,
                    "data"@,
                    "priority"@,
                    "weight"@,
                    "port"@,
                    "tag"@,
                ],
            )
        }),
{
    reveal_strlit("name");
    reveal_strlit("rrtype");
    reveal_strlit("ttl");
    reveal_strlit("data");
    reveal_strlit("priority");
    reveal_strlit("weight");
    reveal_strlit("port");
    reveal_strlit("tag");
    let f = r.json_fields();
    assert("name"@ =~= seq!['n', 'a', 'm', 'e']);
    assert("rrtype"@ =~= seq!['r', 'r', 't', 'y', 'p', 'e']);
    assert("ttl"@ =~= seq!['t', 't', 'l']);
    assert("data"@ =~= seq!['d', 'a', 't', 'a']);
    assert("priority"@ =~= seq!['p', 'r', 'i', 'o', 'r', 'i', 't', 'y']);
    assert("weight"@ =~= seq!['w', 'e', 'i', 'g', 'h', 't']);
    assert("port"@ =~= seq!['p', 'o', 'r', 't']);
    assert("tag"@ =~= seq!['t', 'a', 'g']);
    assert forall|i: int| 0 <= i < f.len() implies crate::json::quote_free(#[trigger] f[i].0) by {
        assert(0 <= i < 8);
    }
    assert forall|i: int, j: int|
        #![trigger f[i], f[j]]
        0 <= i < f.len() && 0 <= j < f.len() && i != j implies f[i].0 != f[j].0 by {
        if f[i].0 == f[j].0 {
            assert(f[i].0.len() == f[j].0.len());
            assert(f[i].0[0] == f[j].0[0]);
        }
    }
    assert(field_keys_ok(f));
    lemma_members_by_key(f);
    assert(f[0].1 is Some);
    assert(f[1].1 is Some);
    assert(f[2].1 is Some);
    assert(f[3].1 is Some);
    let ghost p = f[4];
    let ghost w = f[5];
    let ghost o = f[6];
    let ghost t = f[7];
    assert(crate::json::field_keys(f) =~= seq![
        "name"@,
        "rrtype"@,
        "ttl"@,
        "data"@,
        "priority"@,
        "weight"@,
        "port"@,
        "tag"@,
    ]);
}

/// The body of `update_record` carries exactly the fields that are present:
/// each present field under its own key with its value, no member for an
/// absent field, no key twice, and no other key.
pub proof fn lemma_record_update_body(u: RecordUpdate)
    ensures
        ({
            let ms = present_members(u.json_fields());
            &&& u.json_body() == json_object(ms)
            &&& member_as_given(ms, "name"@, text_value(u.name))
            &&& member_as_given(ms, "ttl"@, int_value(u.ttl))
            &&& member_as_given(ms, "data"@, text_value(u.data))
            &&& member_as_given(ms, "priority"@, int_value(u.priority))
            &&& member_as_given(ms, "weight"@, int_value(u.weight))
            &&& member_as_given(ms, "port"@, int_value(u.port))
            &&& member_as_given(ms, "tag"@, text_value(u.tag))
            &&& member_as_given(ms, "status"@, int_value(u.status))
            &&& keys_distinct(ms)
            &&& keys_within(
                ms,
                seq![
                    "name"@,
                    "ttl"@,
                    "data"@,
                    "priority"@,
                    "weight"@,
                    "port"@,
                    "tag"@,
                    "status"@,
                ],
            )
        }),
{
    reveal_strlit("name");
    reveal_strlit("ttl");
    reveal_strlit("data");
    reveal_strlit("priority");
    reveal_strlit("weight");
    reveal_strlit("port");
    reveal_strlit("tag");
    reveal_strlit("status");
    let f = u.json_fields();
    assert("name"@ =~= seq!['n', 'a', 'm', 'e']);
    assert("ttl"@ =~= seq!['t', 't', 'l']);
    assert("data"@ =~= seq!['d', 'a', 't', 'a']);
    assert("priority"@ =~= seq!['p', 'r', 'i', 'o', 'r', 'i', 't', 'y']);
    assert("weight"@ =~= seq!['w', 'e', 'i', 'g', 'h', 't']);
    assert("port"@ =~= seq!['p', 'o', 'r', 't']);
    assert("tag"@ =~= seq!['t', 'a', 'g']);
    assert("status"@ =~= seq!['s', 't', 'a', 't', 'u', 's']);
    assert forall|i: int| 0 <= i < f.len() implies crate::json::quote_free(#[trigger] f[i].0) by {
        assert(0 <= i < 8);
    }
    assert forall|i: int, j: int|
        #![trigger f[i], f[j]]
        0 <= i < f.len() && 0 <= j < f.len() && i != j implies f[i].0 != f[j].0 by {
        if f[i].0 == f[j].0 {
            assert(f[i].0.len() == f[j].0.len());
            assert(f[i].0[0] == f[j].0[0]);
        }
    }
    assert(field_keys_ok(f));
    lemma_members_by_key(f);
    let ghost a = f[0];
    let ghost b = f[1];
    let ghost c = f[2];
    let ghost d = f[3];
    let ghost e = f[4];
    let ghost g = f[5];
    let ghost h = f[6];
    let ghost k = f[7];
    assert(crate::json::field_keys(f) =~= seq![
        "name"@,
        "ttl"@,
        "data"@,
        "priority"@,
        "weight"@,
        "port"@,
        "tag"@,
        "status"@,
    ]);
}

/// The JSON body of `add_zone`: `{"name": ...}`.
pub open spec fn zone_body(name: Seq<char>) -> Seq<char> {
    json_object(seq![member("name"@, json_string(name))])
}

/// Path of the zones collection.
pub open spec fn zones_path() -> Seq<char> {
    "/v1/dns/zone"@
}

/// Path of a zone named by key or domain, escaped as a path segment.
pub open spec fn zone_lookup_path(key_or_domain: Seq<char>) -> Seq<char> {
    "/v1/dns/zone/"@ + percent_encode(vstd::utf8::encode_utf8(key_or_domain))
}

/// Path of a zone by numeric key.
pub open spec fn zone_path(zone_key: i64) -> Seq<char> {
    "/v1/dns/zone/"@ + decimal_int(zone_key as int)
}

/// Path of the records of a zone.
pub open spec fn zone_records_path(zone_key: i64) -> Seq<char> {
    "/v1/dns/zone/"@ + decimal_int(zone_key as int) + "/record"@
}

/// Path of a record by numeric key.
pub open spec fn record_path(record_key: i64) -> Seq<char> {
    "/v1/dns/record/"@ + decimal_int(record_key as int)
}

fn keyed_path(prefix: &str, key: i64) -> (p: String)
    ensures
        p@ == prefix@ + decimal_int(key as int),
{
    let mut p = prefix.to_owned();
    push_decimal_i64(&mut p, key);
    p
}

/// Each key names its own resource: different record keys give different
/// record paths, and different zone keys different zone paths.
pub proof fn lemma_keyed_paths_distinct(k1: i64, k2: i64)
    ensures
        k1 != k2 ==> record_path(k1) != record_path(k2),
        k1 != k2 ==> zone_path(k1) != zone_path(k2),
        k1 != k2 ==> zone_records_path(k1) != zone_records_path(k2),
{
    lemma_decimal_int_injective(k1 as int, k2 as int);
    let rp = "/v1/dns/record/"@;
    let zp = "/v1/dns/zone/"@;
    let suffix = "/record"@;
    if k1 != k2 {
        let d1 = decimal_int(k1 as int);
        let d2 = decimal_int(k2 as int);
        if record_path(k1) == record_path(k2) {
            assert((rp + d1).subrange(rp.len() as int, (rp + d1).len() as int) =~= d1);
            assert((rp + d2).subrange(rp.len() as int, (rp + d2).len() as int) =~= d2);
        }
        if zone_path(k1) == zone_path(k2) {
            assert((zp + d1).subrange(zp.len() as int, (zp + d1).len() as int) =~= d1);
            assert((zp + d2).subrange(zp.len() as int, (zp + d2).len() as int) =~= d2);
        }
        if zone_records_path(k1) == zone_records_path(k2) {
            let p1 = zp + d1 + suffix;
            let p2 = zp + d2 + suffix;
            assert(p1.subrange(zp.len() as int, p1.len() - suffix.len()) =~= d1);
            assert(p2.subrange(zp.len() as int, p2.len() - suffix.len()) =~= d2);
        }
    }
}

/// `get_zone` names the zone by one path segment after `/v1/dns/zone/`: the
/// segment holds only unreserved characters and `%`, and percent-decoding it
/// gives back exactly the UTF-8 bytes of the key or domain.
pub proof fn lemma_zone_lookup_path(key_or_domain: Seq<char>)
    ensures
        ({
            let p = zone_lookup_path(key_or_domain);
            let pre = "/v1/dns/zone/"@;
            &&& pre.len() <= p.len()
            &&& p.subrange(0, pre.len() as int) == pre
            &&& percent_decode(p.subrange(pre.len() as int, p.len() as int))
                == vstd::utf8::encode_utf8(key_or_domain)
            &&& forall|i: int| pre.len() <= i < p.len() ==> is_segment_char(#[trigger] p[i])
        }),
{
    let bytes = vstd::utf8::encode_utf8(key_or_domain);
    let p = zone_lookup_path(key_or_domain);
    let pre = "/v1/dns/zone/"@;
    let seg = percent_encode(bytes);
    assert(p.subrange(0, pre.len() as int) =~= pre);
    assert(p.subrange(pre.len() as int, p.len() as int) =~= seg);
    lemma_percent_decode_encode(bytes);
    lemma_percent_encode_is_segment(bytes);
    assert forall|i: int| pre.len() <= i < p.len() implies is_segment_char(#[trigger] p[i]) by {
        assert(p[i] == seg[i - pre.len()]);
    }
}

/// Binds an account to the DNS service of the API.
pub struct Dns<'a> {
    api: &'a WaApi,
}

impl<'a> Dns<'a> {
    /// The account whose requests this service signs.
    pub closed spec fn account(&self) -> WaApi {
        *self.api
    }

    pub fn new(api: &'a WaApi) -> (dns: Self)
        ensures
            dns.account() == *api,
    {
        Dns { api }
    }

    /// Lists the account's zones (domains): GET /v1/dns/zone.
    pub fn list_zones(&self, timestamp: u64) -> (req: HttpRequest)
        ensures
            self.account().is_signed_request(req, "GET"@, zones_path(), timestamp, None),
    {
        self.api.get("/v1/dns/zone", timestamp)
    }

    /// Gets a zone, by numeric key or by domain name, with its records:
    /// GET /v1/dns/zone/{key|domain}.
    pub fn get_zone(&self, key_or_domain: &str, timestamp: u64) -> (req: HttpRequest)
        ensures
            self.account().is_signed_request(
                req,
                "GET"@,
                zone_lookup_path(key_or_domain@),
                timestamp,
                None,
            ),
    {
        let mut path = "/v1/dns/zone/".to_owned();
        let segment = urlencode(key_or_domain);
        path.append(segment.as_str());
        self.api.get(path.as_str(), timestamp)
    }

    /// Creates a zone: POST /v1/dns/zone with `{"name": name}`.
    pub fn add_zone(&self, name: &str, timestamp: u64) -> (req: HttpRequest)
        ensures
            self.account().is_signed_request(
                req,
                "POST"@,
                zones_path(),
                timestamp,
                Some(zone_body(name@)),
            ),
    {
        let mut fields: Vec<JsonField> = Vec::new();
        fields.push(text_field("name", name));
        let ghost fv = fields_view(fields@);
        assert(fv =~= seq![("name"@, Some(json_string(name@)))]);
        assert(fv.drop_last() =~= Seq::<(Seq<char>, Option<Seq<char>>)>::empty());
        assert(present_members(fv.drop_last()) =~= Seq::<Seq<char>>::empty());
        assert(present_members(fv) =~= seq![member("name"@, json_string(name@))]);
        let body = write_object(&fields);
        self.api.post("/v1/dns/zone", body, timestamp)
    }

    /// Adds a record to a zone: POST /v1/dns/zone/{key}/record.
    pub fn add_record(&self, zone_key: i64, record: &RecordInput, timestamp: u64) -> (req:
        HttpRequest)
        ensures
            self.account().is_signed_request(
                req,
                "POST"@,
                zone_records_path(zone_key),
                timestamp,
                Some(record.json_body()),
            ),
    {
        let mut path = keyed_path("/v1/dns/zone/", zone_key);
        path.append("/record");
        self.api.post(path.as_str(), record.to_json(), timestamp)
    }

    /// Changes an existing record: PUT /v1/dns/record/{key}, sending only
    /// the fields that are present.
    pub fn update_record(&self, record_key: i64, fields: &RecordUpdate, timestamp: u64) -> (req:
        HttpRequest)
        ensures
            self.account().is_signed_request(
                req,
                "PUT"@,
                record_path(record_key),
                timestamp,
                Some(fields.json_body()),
            ),
    {
        let path = keyed_path("/v1/dns/record/", record_key);
        self.api.put(path.as_str(), fields.to_json(), timestamp)
    }

    /// Deletes a record: DELETE /v1/dns/record/{key}.
    pub fn delete_record(&self, record_key: i64, timestamp: u64) -> (req: HttpRequest)
        ensures
            self.account().is_signed_request(req, "DELETE"@, record_path(record_key), timestamp, None),
    {
        let path = keyed_path("/v1/dns/record/", record_key);
        self.api.delete(path.as_str(), timestamp)
    }

    /// Deletes a zone and all its records: DELETE /v1/dns/zone/{key}.
    pub fn delete_zone(&self, zone_key: i64, timestamp: u64) -> (req: HttpRequest)
        ensures
            self.account().is_signed_request(req, "DELETE"@, zone_path(zone_key), timestamp, None),
    {
        let path = keyed_path("/v1/dns/zone/", zone_key);
        self.api.delete(path.as_str(), timestamp)
    }
}


/// Bytes that a path segment carries as they are: `A-Z a-z 0-9 - _ . ~`.
pub open spec fn is_unreserved(b: u8) -> bool {
    (65 <= b <= 90) || (97 <= b <= 122) || (48 <= b <= 57) || b == 45 || b == 95 || b == 46
        || b == 126
}

/// The rendering of one byte in a path segment: itself when unreserved,
/// otherwise `%` followed by two upper-case hexadecimal digits.
pub open spec fn encode_byte(b: u8) -> Seq<char> {
    if is_unreserved(b) {
        seq![b as char]
    } else {
        seq!['%', hex_upper_digit((b / 16) as nat), hex_upper_digit((b % 16) as nat)]
    }
}

/// Percent-encoding of a byte sequence, byte by byte.
pub open spec fn percent_encode(bytes: Seq<u8>) -> Seq<char>
    decreases bytes.len(),
{
    if bytes.len() == 0 {
        seq![]
    } else {
        percent_encode(bytes.drop_last()) + encode_byte(bytes.last())
    }
}

/// Escapes a path segment: the UTF-8 bytes of `s`, percent-encoded.
pub fn urlencode(s: &str) -> (out: String)
    ensures
        out@ == percent_encode(vstd::utf8::encode_utf8(s@)),
{
    let bytes = s.as_bytes();
    let n = bytes.len();
    let mut out = String::new();
    let mut i: usize = 0;
    while i < n
        invariant
            n == bytes@.len(),
            bytes@ == vstd::utf8::encode_utf8(s@),
            i <= n,
            out@ == percent_encode(bytes@.subrange(0, i as int)),
        decreases n - i,
    {
        let b = bytes[i];
        if (65 <= b && b <= 90) || (97 <= b && b <= 122) || (48 <= b && b <= 57) || b == 45 || b
            == 95 || b == 46 || b == 126 {
            push_char(&mut out, b as char);
        } else {
            push_char(&mut out, '%');
            push_char(&mut out, hex_upper_char(b / 16));
            push_char(&mut out, hex_upper_char(b % 16));
        }
        assert(bytes@.subrange(0, i + 1).drop_last() =~= bytes@.subrange(0, i as int));
        i = i + 1;
    }
    assert(bytes@.subrange(0, n as int) =~= bytes@);
    out
}

/// Characters that may appear in an escaped path segment: the unreserved
/// ones and `%`. In particular never `/`, `?`, `#` or a space.
pub open spec fn is_segment_char(c: char) -> bool {
    ('A' <= c && c <= 'Z') || ('a' <= c && c <= 'z') || ('0' <= c && c <= '9') || c == '-' || c
        == '_' || c == '.' || c == '~' || c == '%'
}

/// Value of a hexadecimal digit (either case); 0 for any other character.
pub open spec fn hex_value(c: char) -> int {
    if '0' <= c && c <= '9' {
        c as int - 48
    } else if 'A' <= c && c <= 'F' {
        c as int - 55
    } else if 'a' <= c && c <= 'f' {
        c as int - 87
    } else {
        0
    }
}

/// Decoding of a percent-encoded segment back to bytes: `%XY` is the byte
/// `0xXY`, any other character stands for its own code.
pub open spec fn percent_decode(cs: Seq<char>) -> Seq<u8>
    decreases cs.len(),
{
    if cs.len() == 0 {
        seq![]
    } else if cs[0] == '%' && cs.len() >= 3 {
        seq![(hex_value(cs[1]) * 16 + hex_value(cs[2])) as u8] + percent_decode(
            cs.subrange(3, cs.len() as int),
        )
    } else {
        seq![cs[0] as u8] + percent_decode(cs.drop_first())
    }
}

proof fn lemma_percent_encode_concat(a: Seq<u8>, b: Seq<u8>)
    ensures
        percent_encode(a + b) == percent_encode(a) + percent_encode(b),
    decreases b.len(),
{
    if b.len() == 0 {
        assert(a + b =~= a);
        assert(percent_encode(a) + percent_encode(b) =~= percent_encode(a));
    } else {
        lemma_percent_encode_concat(a, b.drop_last());
        assert((a + b).drop_last() =~= a + b.drop_last());
        assert((a + b).last() == b.last());
        assert(percent_encode(a + b) =~= percent_encode(a) + percent_encode(b));
    }
}

proof fn lemma_decode_encode_byte(b: u8, rest: Seq<char>)
    ensures
        percent_decode(encode_byte(b) + rest) == seq![b] + percent_decode(rest),
{
    let e = encode_byte(b);
    let cs = e + rest;
    if is_unreserved(b) {
        assert(cs[0] == b as char);
        assert(cs.drop_first() =~= rest);
        assert((b as char) as u8 == b);
    } else {
        let hi = (b / 16) as nat;
        let lo = (b % 16) as nat;
        assert(cs[0] == '%');
        assert(cs[1] == hex_upper_digit(hi));
        assert(cs[2] == hex_upper_digit(lo));
        assert(hex_value(hex_upper_digit(hi)) == hi);
        assert(hex_value(hex_upper_digit(lo)) == lo);
        assert(cs.subrange(3, cs.len() as int) =~= rest);
        assert(hi * 16 + lo == b);
    }
}

/// Escaping loses nothing: decoding an escaped segment gives back exactly the
/// bytes that were escaped.
pub proof fn lemma_percent_decode_encode(bytes: Seq<u8>)
    ensures
        percent_decode(percent_encode(bytes)) == bytes,
    decreases bytes.len(),
{
    if bytes.len() > 0 {
        let rest = bytes.drop_first();
        lemma_percent_encode_concat(seq![bytes[0]], rest);
        assert(seq![bytes[0]] + rest =~= bytes);
        let single = seq![bytes[0]];
        assert(single.drop_last() =~= Seq::<u8>::empty());
        assert(percent_encode(single.drop_last()) =~= Seq::<char>::empty());
        assert(single.last() == bytes[0]);
        assert(percent_encode(single) =~= encode_byte(bytes[0]));
        lemma_decode_encode_byte(bytes[0], percent_encode(rest));
        lemma_percent_decode_encode(rest);
        assert(seq![bytes[0]] + rest =~= bytes);
    }
}

/// An escaped segment holds only unreserved characters and `%`, so it can
/// never break out of its place in a path.
pub proof fn lemma_percent_encode_is_segment(bytes: Seq<u8>)
    ensures
        forall|i: int|
            0 <= i < percent_encode(bytes).len() ==> is_segment_char(
                #[trigger] percent_encode(bytes)[i],
            ),
    decreases bytes.len(),
{
    if bytes.len() > 0 {
        lemma_percent_encode_is_segment(bytes.drop_last());
        let prev = percent_encode(bytes.drop_last());
        let e = encode_byte(bytes.last());
        assert forall|i: int| 0 <= i < percent_encode(bytes).len() implies is_segment_char(
            #[trigger] percent_encode(bytes)[i],
        ) by {
            if i < prev.len() {
                assert(percent_encode(bytes)[i] == prev[i]);
            } else {
                assert(percent_encode(bytes)[i] == e[i - prev.len()]);
            }
        }
    }
}

/// A segment made only of unreserved bytes (a domain name, a numeric key) is
/// carried unchanged.
pub proof fn lemma_percent_encode_unreserved(bytes: Seq<u8>)
    requires
        forall|i: int| 0 <= i < bytes.len() ==> is_unreserved(#[trigger] bytes[i]),
    ensures
        percent_encode(bytes) == bytes.map_values(|b: u8| b as char),
    decreases bytes.len(),
{
    if bytes.len() > 0 {
        let init = bytes.drop_last();
        assert forall|i: int| 0 <= i < init.len() implies is_unreserved(#[trigger] init[i]) by {
            assert(init[i] == bytes[i]);
        }
        lemma_percent_encode_unreserved(init);
        assert(is_unreserved(bytes[bytes.len() - 1]));
        assert(percent_encode(bytes) =~= bytes.map_values(|b: u8| b as char));
    }
}

} // verus!
