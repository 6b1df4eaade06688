//! JSON text of request bodies: objects of named members, string values
//! quoted by `serde_json`.

use vstd::prelude::*;

use crate::opt_view;
use crate::text::{hex_lower_digit, push_char};

verus! {

/// How `serde_json` writes one character inside a string literal: `"` and `\`
/// escaped with a backslash, the short escapes `\b \t \n \f \r`, other
/// control characters as `\u00xx` (lower-case hex), anything else as itself.
pub open spec fn json_escape_char(c: char) -> Seq<char> {
    if c == '"' {
        seq!['\\', '"']
    } else if c == '\\' {
        seq!['\\', '\\']
    } else if c == '\x08' {
        seq!['\\', 'b']
    } else if c == '\t' {
        seq!['\\', 't']
    } else if c == '\n' {
        seq!['\\', 'n']
    } else if c == '\x0c' {
        seq!['\\', 'f']
    } else if c == '\r' {
        seq!['\\', 'r']
    } else if (c as u32) < 32 {
        seq![
            '\\',
            'u',
            '0',
            '0',
            hex_lower_digit(((c as u32) / 16) as nat),
            hex_lower_digit(((c as u32) % 16) as nat),
        ]
    } else {
        seq![c]
    }
}

/// The escaped contents of a JSON string literal.
pub open spec fn json_escape(cs: Seq<char>) -> Seq<char>
    decreases cs.len(),
{
    if cs.len() == 0 {
        seq![]
    } else {
        json_escape(cs.drop_last()) + json_escape_char(cs.last())
    }
}

/// A JSON string literal: the escaped contents between double quotes.
pub open spec fn json_string(cs: Seq<char>) -> Seq<char> {
    seq!['"'] + json_escape(cs) + seq!['"']
}

/// Renders `s` as a JSON string literal with `serde_json::to_string`.
/// Trusted claim: the text is `json_string(s@)`, the quoting and escaping that
/// `serde_json`'s `format_escaped_str` applies (its `ESCAPE` table in
/// `ser.rs`). For a `str` the serializer writes into a `Vec` and does not
/// fail, so the error arm is never taken.
#[verifier::external_body]
pub(crate) fn quote_json(s: &str) -> (out: String)
    ensures
        out@ == json_string(s@),
{
    match serde_json::to_string(s) {
        Ok(text) => text,
        Err(_) => String::new(),
    }
}

/// One member of a JSON object: `"key":value`.
pub open spec fn member(key: Seq<char>, value: Seq<char>) -> Seq<char> {
    seq!['"'] + key + seq!['"', ':'] + value
}

/// Members separated by commas.
pub open spec fn join_members(ms: Seq<Seq<char>>) -> Seq<char>
    decreases ms.len(),
{
    if ms.len() == 0 {
        seq![]
    } else if ms.len() == 1 {
        ms[0]
    } else {
        join_members(ms.drop_last()) + seq![','] + ms.last()
    }
}

/// A JSON object with the given members, in order, without spaces.
pub open spec fn json_object(ms: Seq<Seq<char>>) -> Seq<char> {
    seq!['{'] + join_members(ms) + seq!['}']
}

/// The members written for a list of fields: one per field that has a value,
/// in the fields' order; a field without a value is left out.
pub open spec fn present_members(fields: Seq<(Seq<char>, Option<Seq<char>>)>) -> Seq<Seq<char>>
    decreases fields.len(),
{
    if fields.len() == 0 {
        seq![]
    } else {
        let (k, v) = fields.last();
        present_members(fields.drop_last()) + match v {
            Some(val) => seq![member(k, val)],
            None => Seq::<Seq<char>>::empty(),
        }
    }
}

/// A field of a JSON object: its key, and its value as JSON text when it is
/// to be written.
pub struct JsonField {
    pub key: String,
    pub value: Option<String>,
}

impl JsonField {
    pub open spec fn field_view(&self) -> (Seq<char>, Option<Seq<char>>) {
        (self.key@, opt_view(self.value))
    }
}

/// The views of a list of fields.
pub open spec fn fields_view(fields: Seq<JsonField>) -> Seq<(Seq<char>, Option<Seq<char>>)> {
    fields.map_values(|f: JsonField| f.field_view())
}

/// Writes the JSON object of the fields that have a value.
pub fn write_object(fields: &Vec<JsonField>) -> (out: String)
    ensures
        out@ == json_object(present_members(fields_view(fields@))),
{
    let mut out = String::new();
    push_char(&mut out, '{');
    let n = fields.len();
    let mut written: usize = 0;
    let mut i: usize = 0;
    while i < n
        invariant
            n == fields@.len(),
            i <= n,
            written <= i,
            written == present_members(fields_view(fields@.subrange(0, i as int))).len(),
            out@ == seq!['{'] + join_members(
                present_members(fields_view(fields@.subrange(0, i as int))),
            ),
        decreases n - i,
    {
        let ghost before = fields_view(fields@.subrange(0, i as int));
        let ghost after = fields_view(fields@.subrange(0, i + 1));
        assert(after.drop_last() =~= before);
        assert(after.last() == fields@[i as int].field_view());
        match &fields[i].value {
            Some(v) => {
                let ghost ms = present_members(before);
                if written > 0 {
                    push_char(&mut out, ',');
                }
                push_char(&mut out, '"');
                out.append(fields[i].key.as_str());
                push_char(&mut out, '"');
                push_char(&mut out, ':');
                out.append(v.as_str());
                let ghost m = member(fields@[i as int].key@, v@);
                assert(present_members(after) =~= ms.push(m));
                assert(ms.push(m).drop_last() =~= ms);
                assert(out@ =~= seq!['{'] + join_members(ms.push(m)));
                written = written + 1;
            },
            None => {
                assert(present_members(after) =~= present_members(before));
            },
        }
        i = i + 1;
    }
    assert(fields@.subrange(0, n as int) =~= fields@);
    push_char(&mut out, '}');
    out
}

/// `m` is the member written for the field at index `i`, which has a value.
pub open spec fn written_for(fields: Seq<(Seq<char>, Option<Seq<char>>)>, i: int, m: Seq<char>) -> bool {
    &&& 0 <= i < fields.len()
    &&& fields[i].1 is Some
    &&& m == member(fields[i].0, fields[i].1->Some_0)
}

/// `m` is the member written for some field of `fields` that has a value.
pub open spec fn comes_from_field(fields: Seq<(Seq<char>, Option<Seq<char>>)>, m: Seq<char>) -> bool {
    exists|i: int| written_for(fields, i, m)
}

/// The members of an object are exactly its fields that have a value: each
/// such field gives a member, and every member comes from such a field.
pub proof fn lemma_present_members(fields: Seq<(Seq<char>, Option<Seq<char>>)>)
    ensures
        forall|i: int|
            0 <= i < fields.len() && (#[trigger] fields[i]).1 is Some ==> present_members(
                fields,
            ).contains(member(fields[i].0, fields[i].1->Some_0)),
        forall|j: int|
            0 <= j < present_members(fields).len() ==> comes_from_field(
                fields,
                #[trigger] present_members(fields)[j],
            ),
    decreases fields.len(),
{
    if fields.len() > 0 {
        let init = fields.drop_last();
        lemma_present_members(init);
        let prev = present_members(init);
        let all = present_members(fields);
        let (k, v) = fields.last();
        assert forall|i: int|
            0 <= i < fields.len() && (#[trigger] fields[i]).1 is Some implies all.contains(
                member(fields[i].0, fields[i].1->Some_0),
            ) by {
            if i < fields.len() - 1 {
                assert(init[i] == fields[i]);
                let m = member(fields[i].0, fields[i].1->Some_0);
                assert(prev.contains(m));
                let j = choose|j: int| 0 <= j < prev.len() && prev[j] == m;
                assert(all[j] == m);
            } else {
                assert(all[all.len() - 1] == member(k, v->Some_0));
            }
        }
        assert forall|j: int| 0 <= j < present_members(fields).len() implies comes_from_field(
            fields,
            #[trigger] present_members(fields)[j],
        ) by {
            if j < prev.len() {
                assert(all[j] == prev[j]);
                assert(comes_from_field(init, prev[j]));
                let i = choose|i: int| written_for(init, i, prev[j]);
                assert(fields[i] == init[i]);
                assert(written_for(fields, i, all[j]));
            } else {
                assert(v is Some);
                assert(all[j] == member(k, v->Some_0));
                assert(written_for(fields, fields.len() - 1, all[j]));
            }
        }
    }
}

/// `k` holds no double quote, as every key of this library's bodies.
pub open spec fn quote_free(k: Seq<char>) -> bool {
    forall|i: int| 0 <= i < k.len() ==> k[i] != '"'
}

/// Some member of `ms` is `"key":value`.
pub open spec fn has_member(ms: Seq<Seq<char>>, key: Seq<char>, value: Seq<char>) -> bool {
    exists|j: int| 0 <= j < ms.len() && ms[j] == member(key, value)
}

/// Some member of `ms` has the key `key`, whatever its value.
pub open spec fn has_key(ms: Seq<Seq<char>>, key: Seq<char>) -> bool {
    exists|j: int, v: Seq<char>| 0 <= j < ms.len() && ms[j] == member(key, v)
}

/// No key names two members of `ms`.
pub open spec fn keys_distinct(ms: Seq<Seq<char>>) -> bool {
    forall|j1: int, j2: int, k: Seq<char>, v1: Seq<char>, v2: Seq<char>|
        #![trigger ms[j1], ms[j2], member(k, v1), member(k, v2)]
        0 <= j1 < ms.len() && 0 <= j2 < ms.len() && quote_free(k) && ms[j1] == member(k, v1)
            && ms[j2] == member(k, v2) ==> j1 == j2
}

/// `m` is a member whose key is one of `keys`.
pub open spec fn keyed_by_one_of(m: Seq<char>, keys: Seq<Seq<char>>) -> bool {
    exists|i: int, v: Seq<char>| 0 <= i < keys.len() && m == member(keys[i], v)
}

/// Every member of `ms` has one of the keys `keys`.
pub open spec fn keys_within(ms: Seq<Seq<char>>, keys: Seq<Seq<char>>) -> bool {
    forall|j: int| 0 <= j < ms.len() ==> keyed_by_one_of(#[trigger] ms[j], keys)
}

/// The keys of a field list are quote-free and pairwise different.
pub open spec fn field_keys_ok(fields: Seq<(Seq<char>, Option<Seq<char>>)>) -> bool {
    &&& forall|i: int| 0 <= i < fields.len() ==> quote_free(#[trigger] fields[i].0)
    &&& forall|i: int, j: int|
        #![trigger fields[i], fields[j]]
        0 <= i < fields.len() && 0 <= j < fields.len() && i != j ==> fields[i].0 != fields[j].0
}

/// The keys of a field list.
pub open spec fn field_keys(fields: Seq<(Seq<char>, Option<Seq<char>>)>) -> Seq<Seq<char>> {
    fields.map_values(|f: (Seq<char>, Option<Seq<char>>)| f.0)
}

/// A member determines its key and its value, when keys hold no quote.
pub proof fn lemma_member_injective(k1: Seq<char>, v1: Seq<char>, k2: Seq<char>, v2: Seq<char>)
    requires
        quote_free(k1),
        quote_free(k2),
        member(k1, v1) == member(k2, v2),
    ensures
        k1 == k2,
        v1 == v2,
{
    let m = member(k1, v1);
    let m2 = member(k2, v2);
    if k1.len() < k2.len() {
        assert(m[(1 + k1.len()) as int] == '"');
        assert(m2[(1 + k1.len()) as int] == k2[k1.len() as int]);
    } else if k2.len() < k1.len() {
        assert(m2[(1 + k2.len()) as int] == '"');
        assert(m[(1 + k2.len()) as int] == k1[k2.len() as int]);
    } else {
        assert(k1 =~= m.subrange(1, (1 + k1.len()) as int));
        assert(k2 =~= m2.subrange(1, (1 + k2.len()) as int));
        assert(v1 =~= m.subrange((3 + k1.len()) as int, m.len() as int));
        assert(v2 =~= m2.subrange((3 + k2.len()) as int, m2.len() as int));
    }
}

proof fn lemma_field_keys_ok_init(fields: Seq<(Seq<char>, Option<Seq<char>>)>)
    requires
        fields.len() > 0,
        field_keys_ok(fields),
    ensures
        field_keys_ok(fields.drop_last()),
{
    let init = fields.drop_last();
    assert forall|i: int| 0 <= i < init.len() implies quote_free(#[trigger] init[i].0) by {
        assert(init[i] == fields[i]);
    }
    assert forall|i: int, j: int|
        #![trigger init[i], init[j]]
        0 <= i < init.len() && 0 <= j < init.len() && i != j implies init[i].0 != init[j].0 by {
        assert(init[i] == fields[i]);
        assert(fields[j] == init[j]);
    }
}

proof fn lemma_keys_distinct(fields: Seq<(Seq<char>, Option<Seq<char>>)>)
    requires
        field_keys_ok(fields),
    ensures
        keys_distinct(present_members(fields)),
    decreases fields.len(),
{
    if fields.len() > 0 {
        let init = fields.drop_last();
        lemma_field_keys_ok_init(fields);
        lemma_keys_distinct(init);
        lemma_present_members(init);
        let prev = present_members(init);
        let all = present_members(fields);
        let last = fields.len() - 1;
        let (kl, vl) = fields.last();
        assert(quote_free(fields[last].0));
        assert forall|j1: int, j2: int, k: Seq<char>, v1: Seq<char>, v2: Seq<char>|
            #![trigger all[j1], all[j2], member(k, v1), member(k, v2)]
            0 <= j1 < all.len() && 0 <= j2 < all.len() && quote_free(k) && all[j1] == member(
                k,
                v1,
            ) && all[j2] == member(k, v2) implies j1 == j2 by {
            if j1 < prev.len() && j2 < prev.len() {
                assert(all[j1] == prev[j1]);
                assert(all[j2] == prev[j2]);
            } else if j1 < prev.len() || j2 < prev.len() {
                let (jp, vp, vq) = if j1 < prev.len() {
                    (j1, v1, v2)
                } else {
                    (j2, v2, v1)
                };
                let jq = if j1 < prev.len() {
                    j2
                } else {
                    j1
                };
                assert(all[jp] == prev[jp]);
                assert(comes_from_field(init, prev[jp]));
                let a = choose|a: int| written_for(init, a, prev[jp]);
                assert(init[a] == fields[a]);
                lemma_member_injective(k, vp, init[a].0, init[a].1->Some_0);
                assert(all[jq] == member(kl, vl->Some_0));
                lemma_member_injective(k, vq, kl, vl->Some_0);
                assert(fields[a].0 != fields[last].0);
            }
        }
    }
}

/// What an object built from fields with distinct, quote-free keys holds: a
/// field with a value gives the member `"key":value`, a field without value
/// gives no member with its key, no key names two members, and every member
/// has one of the fields' keys.
pub proof fn lemma_members_by_key(fields: Seq<(Seq<char>, Option<Seq<char>>)>)
    requires
        field_keys_ok(fields),
    ensures
        forall|i: int|
            0 <= i < fields.len() && (#[trigger] fields[i]).1 is Some ==> has_member(
                present_members(fields),
                fields[i].0,
                fields[i].1->Some_0,
            ),
        forall|i: int|
            0 <= i < fields.len() && (#[trigger] fields[i]).1 is None ==> !has_key(
                present_members(fields),
                fields[i].0,
            ),
        keys_distinct(present_members(fields)),
        keys_within(present_members(fields), field_keys(fields)),
{
    lemma_present_members(fields);
    lemma_keys_distinct(fields);
    let pm = present_members(fields);
    assert forall|i: int|
        0 <= i < fields.len() && (#[trigger] fields[i]).1 is Some implies has_member(
            pm,
            fields[i].0,
            fields[i].1->Some_0,
        ) by {
        assert(pm.contains(member(fields[i].0, fields[i].1->Some_0)));
    }
    assert forall|i: int| 0 <= i < fields.len() && (#[trigger] fields[i]).1 is None implies !has_key(
        pm,
        fields[i].0,
    ) by {
        if has_key(pm, fields[i].0) {
            let (j, v) = choose|j: int, v: Seq<char>| 0 <= j < pm.len() && pm[j] == member(
                fields[i].0,
                v,
            );
            assert(comes_from_field(fields, pm[j]));
            let a = choose|a: int| written_for(fields, a, pm[j]);
            lemma_member_injective(fields[i].0, v, fields[a].0, fields[a].1->Some_0);
            assert(fields[i].0 == fields[a].0);
        }
    }
    assert forall|j: int| 0 <= j < pm.len() implies keyed_by_one_of(
        #[trigger] pm[j],
        field_keys(fields),
    ) by {
        assert(comes_from_field(fields, pm[j]));
        let a = choose|a: int| written_for(fields, a, pm[j]);
        assert(field_keys(fields)[a] == fields[a].0);
        assert(pm[j] == member(field_keys(fields)[a], fields[a].1->Some_0));
    }
}

/// `ms` has the member `"key":value` when `value` is present, and no member
/// with that key when it is absent.
pub open spec fn member_as_given(ms: Seq<Seq<char>>, key: Seq<char>, value: Option<Seq<char>>) -> bool {
    match value {
        Some(v) => has_member(ms, key, v),
        None => !has_key(ms, key),
    }
}

} // verus!
