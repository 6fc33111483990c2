//! First-party account actions: the canonical message a signature-required
//! action signs, how the session's own Ed25519 key signs it, and how
//! endpoint path templates are filled in.

use vstd::prelude::*;
use crate::crypto::{base64_encode, base64_text, ed25519_signature, sign};
use crate::text::{chars_of, lemma_text_lt_order, owned, text_less, text_lt, push_char, push_chars, push_str, texts, utf8_bytes, uuid_string, uuid_text};

verus! {

/// `:f1:f2:...` for the fields `fs`.
pub open spec fn field_suffix(fs: Seq<Seq<char>>) -> Seq<char>
    decreases fs.len(),
{
    if fs.len() == 0 {
        Seq::empty()
    } else {
        field_suffix(fs.drop_last()) + seq![':'] + fs.last()
    }
}

/// `avalon:<action_tag>:v1:<field1>:<field2>:...`, the text a
/// signature-required action signs.
pub open spec fn canonical_text(action_tag: Seq<char>, fields: Seq<Seq<char>>) -> Seq<char> {
    "avalon:"@ + action_tag + ":v1"@ + field_suffix(fields)
}

/// The UTF-8 bytes of the canonical message of an action.
pub open spec fn canonical_bytes(action_tag: Seq<char>, fields: Seq<Seq<char>>) -> Seq<u8> {
    vstd::utf8::encode_utf8(canonical_text(action_tag, fields))
}

/// Builds the canonical `avalon:<action_tag>:v1:<field1>:<field2>:...`
/// bytes a signature-required action signs; the server rebuilds exactly
/// these bytes.
pub fn canonical_message(action_tag: &str, fields: &Vec<String>) -> (r: Vec<u8>)
    ensures
        r@ == canonical_bytes(action_tag@, texts(fields@)),
{
    let mut message = owned("avalon:");
    push_str(&mut message, action_tag);
    push_str(&mut message, ":v1");
    let mut i: usize = 0;
    proof {
        assert(texts(fields@).subrange(0, 0) =~= Seq::<Seq<char>>::empty());
        assert(message@ =~= canonical_text(action_tag@, Seq::empty()));
    }
    while i < fields.len()
        invariant
            i <= fields@.len(),
            message@ == canonical_text(action_tag@, texts(fields@).subrange(0, i as int)),
        decreases fields@.len() - i,
    {
        push_char(&mut message, ':');
        push_str(&mut message, fields[i].as_str());
        proof {
            let sub = texts(fields@).subrange(0, i + 1);
            assert(sub.drop_last() =~= texts(fields@).subrange(0, i as int));
            assert(sub.last() == fields@[i as int]@);
            assert(message@ =~= canonical_text(action_tag@, sub));
        }
        i = i + 1;
    }
    proof {
        assert(texts(fields@).subrange(0, fields@.len() as int) =~= texts(fields@));
    }
    utf8_bytes(message.as_str())
}

/// The texts joined with `sep` between consecutive ones.
pub open spec fn joined(parts: Seq<Seq<char>>, sep: char) -> Seq<char>
    decreases parts.len(),
{
    if parts.len() == 0 {
        Seq::empty()
    } else if parts.len() == 1 {
        parts[0]
    } else {
        joined(parts.drop_last(), sep) + seq![sep] + parts.last()
    }
}

/// The texts joined with `,` between consecutive ones.
pub fn comma_joined(parts: &Vec<String>) -> (r: String)
    ensures
        r@ == joined(texts(parts@), ','),
{
    let mut s = String::new();
    let mut i: usize = 0;
    proof {
        assert(s@ =~= joined(texts(parts@).subrange(0, 0), ','));
    }
    while i < parts.len()
        invariant
            i <= parts@.len(),
            s@ == joined(texts(parts@).subrange(0, i as int), ','),
        decreases parts@.len() - i,
    {
        if i > 0 {
            push_char(&mut s, ',');
        }
        push_str(&mut s, parts[i].as_str());
        proof {
            let sub = texts(parts@).subrange(0, i + 1);
            assert(sub.drop_last() =~= texts(parts@).subrange(0, i as int));
            if i == 0 {
                assert(s@ =~= sub[0]);
            } else {
                assert(s@ =~= joined(sub, ','));
            }
        }
        i = i + 1;
    }
    proof {
        assert(texts(parts@).subrange(0, parts@.len() as int) =~= texts(parts@));
    }
    s
}

/// `s` with every non-overlapping occurrence of the non-empty `pat`,
/// scanning from the left, replaced by `rep`.
pub open spec fn replaced(s: Seq<char>, pat: Seq<char>, rep: Seq<char>) -> Seq<char>
    decreases s.len(),
{
    if s.len() == 0 || pat.len() == 0 {
        s
    } else if pat.len() <= s.len() && s.subrange(0, pat.len() as int) == pat {
        rep + replaced(s.subrange(pat.len() as int, s.len() as int), pat, rep)
    } else {
        seq![s[0]] + replaced(s.drop_first(), pat, rep)
    }
}

/// A path template with each `{name}` placeholder of `params`, in order,
/// replaced by its value.
pub open spec fn filled_path(template: Seq<char>, params: Seq<(Seq<char>, Seq<char>)>) -> Seq<char>
    decreases params.len(),
{
    if params.len() == 0 {
        template
    } else {
        replaced(
            filled_path(template, params.drop_last()),
            seq!['{'] + params.last().0 + seq!['}'],
            params.last().1,
        )
    }
}

/// Every non-overlapping occurrence of `pat` replaced by `rep`.
fn replace_all(s: &Vec<char>, pat: &Vec<char>, rep: &Vec<char>) -> (r: Vec<char>)
    requires
        pat@.len() > 0,
    ensures
        r@ == replaced(s@, pat@, rep@),
{
    let mut out: Vec<char> = Vec::new();
    let mut i: usize = 0;
    let n = s.len();
    let p = pat.len();
    proof {
        assert(s@.subrange(0, n as int) =~= s@);
    }
    while i < n
        invariant
            n == s@.len(),
            p == pat@.len(),
            p > 0,
            i <= n,
            out@ + replaced(s@.subrange(i as int, n as int), pat@, rep@) == replaced(s@, pat@, rep@),
        decreases n - i,
    {
        let ghost rest = s@.subrange(i as int, n as int);
        let mut matches = p <= n - i;
        let mut k: usize = 0;
        while matches && k < p
            invariant
                n == s@.len(),
                p == pat@.len(),
                i <= n,
                matches ==> p <= n - i,
                k <= p,
                matches ==> forall|j: int| 0 <= j < k ==> s@[i + j] == pat@[j],
                !matches ==> !(p <= n - i && s@.subrange(i as int, i + p) == pat@),
            decreases p - k,
        {
            if s[i + k] != pat[k] {
                proof {
                    if p <= n - i && s@.subrange(i as int, i + p) == pat@ {
                        assert(s@.subrange(i as int, i + p)[k as int] == s@[i + k]);
                    }
                }
                matches = false;
            }
            k = k + 1;
        }
        if matches {
            proof {
                assert(s@.subrange(i as int, i + p) =~= pat@);
                assert(rest.subrange(0, p as int) =~= pat@);
                assert(rest.subrange(p as int, rest.len() as int) =~= s@.subrange(i + p, n as int));
            }
            let mut j: usize = 0;
            let ghost before = out@;
            while j < rep.len()
                invariant
                    j <= rep@.len(),
                    out@ == before + rep@.subrange(0, j as int),
                decreases rep@.len() - j,
            {
                out.push(rep[j]);
                j = j + 1;
                proof {
                    assert(out@ =~= before + rep@.subrange(0, j as int));
                }
            }
            proof {
                assert(rep@.subrange(0, rep@.len() as int) =~= rep@);
                assert(out@ + replaced(s@.subrange(i + p, n as int), pat@, rep@) =~= before + replaced(rest, pat@, rep@));
            }
            i = i + p;
        } else {
            proof {
                assert(rest.subrange(0, p as int) == s@.subrange(i as int, i + p) || !(p <= rest.len()));
                assert(rest.drop_first() =~= s@.subrange(i + 1, n as int));
                assert(rest[0] == s@[i as int]);
                assert(out@.push(s@[i as int]) + replaced(s@.subrange(i + 1, n as int), pat@, rep@) =~= out@ + replaced(rest, pat@, rep@));
            }
            out.push(s[i]);
            i = i + 1;
        }
    }
    proof {
        assert(s@.subrange(n as int, n as int) =~= Seq::<char>::empty());
        assert(out@ + Seq::<char>::empty() =~= out@);
    }
    out
}

/// Fills each `{name}` placeholder of an endpoint path template with its
/// value, in the order the parameters are given.
pub fn path(template: &str, params: &Vec<(String, String)>) -> (r: String)
    ensures
        r@ == filled_path(template@, params@.map_values(|p: (String, String)| (p.0@, p.1@))),
{
    let ghost ps = params@.map_values(|p: (String, String)| (p.0@, p.1@));
    let mut cur = chars_of(template);
    let mut i: usize = 0;
    proof {
        assert(ps.subrange(0, 0) =~= Seq::<(Seq<char>, Seq<char>)>::empty());
    }
    while i < params.len()
        invariant
            ps == params@.map_values(|p: (String, String)| (p.0@, p.1@)),
            i <= params@.len(),
            cur@ == filled_path(template@, ps.subrange(0, i as int)),
        decreases params@.len() - i,
    {
        let mut pat: Vec<char> = Vec::new();
        pat.push('{');
        let name = chars_of(params[i].0.as_str());
        let mut k: usize = 0;
        while k < name.len()
            invariant
                k <= name@.len(),
                pat@ == seq!['{'] + name@.subrange(0, k as int),
            decreases name@.len() - k,
        {
            pat.push(name[k]);
            k = k + 1;
            proof {
                assert(pat@ =~= seq!['{'] + name@.subrange(0, k as int));
            }
        }
        pat.push('}');
        let rep = chars_of(params[i].1.as_str());
        proof {
            assert(name@.subrange(0, name@.len() as int) =~= name@);
            let sub = ps.subrange(0, i + 1);
            assert(sub.drop_last() =~= ps.subrange(0, i as int));
            assert(sub.last() == ps[i as int]);
            assert(ps[i as int] == (params@[i as int].0@, params@[i as int].1@));
            assert(pat@ =~= seq!['{'] + ps[i as int].0 + seq!['}']);
            assert(rep@ == ps[i as int].1);
        }
        cur = replace_all(&cur, &pat, &rep);
        i = i + 1;
    }
    proof {
        assert(ps.subrange(0, params@.len() as int) =~= ps);
    }
    let mut out = String::new();
    push_chars(&mut out, cur.as_slice());
    proof {
        assert(out@ =~= cur@);
    }
    out
}

/// This session's own Ed25519 signing key and the server-side id it
/// resolves to.
pub struct AccountSigner {
    /// The 32-byte signing-key seed, held only in this process.
    pub seed: [u8; 32],
    /// The server-side id of this key.
    pub signing_key_id: u128,
}

/// The `signing_key_id`/`signature` pair a signature-required request
/// carries; both `None` when the session holds no local key.
#[derive(Debug, Clone, PartialEq, Eq, Default)]
pub struct SignatureFields {
    /// The server-side id of the key that signed.
    pub signing_key_id: Option<u128>,
    /// The base64 signature.
    pub signature: Option<String>,
}

/// The base64 Ed25519 signature of the canonical message of an action.
pub open spec fn action_signature(seed: Seq<u8>, action_tag: Seq<char>, fields: Seq<Seq<char>>) -> Seq<char> {
    base64_text(ed25519_signature(seed, canonical_bytes(action_tag, fields)))
}

/// Signs an action's canonical message with the session's local key, or
/// leaves both fields empty when it holds none (the server then tells
/// whether a signature was required).
pub fn sign_action(signer: &Option<AccountSigner>, action_tag: &str, fields: &Vec<String>) -> (r: SignatureFields)
    ensures
        match signer {
            Some(s) => {
                &&& r.signing_key_id == Some(s.signing_key_id)
                &&& r.signature matches Some(sig) && sig@ == action_signature(s.seed@, action_tag@, texts(fields@))
            },
            None => r.signing_key_id is None && r.signature is None,
        },
{
    match signer {
        Some(s) => {
            let message = canonical_message(action_tag, fields);
            let signature = sign(&s.seed, message.as_slice());
            SignatureFields {
                signing_key_id: Some(s.signing_key_id),
                signature: Some(base64_encode(&signature)),
            }
        },
        None => SignatureFields { signing_key_id: None, signature: None },
    }
}

/// The base64 signature of raw `message` bytes with the session's key.
pub fn sign_raw(signer: &AccountSigner, message: &[u8]) -> (r: String)
    ensures
        r@ == base64_text(ed25519_signature(signer.seed@, message@)),
{
    let signature = sign(&signer.seed, message);
    base64_encode(&signature)
}

/// The bytes the server rebuilds to check a device-grant approval:
/// `device_grant.approved` over the grant id, the identity id and the
/// requested key.
pub fn device_grant_approval_signing_bytes(grant_id: u128, identity_id: u128, requested_signing_public_key_b64: &str) -> (r: Vec<u8>)
    ensures
        r@ == canonical_bytes("device_grant.approved"@, seq![uuid_text(grant_id), uuid_text(identity_id), requested_signing_public_key_b64@]),
{
    let mut fields: Vec<String> = Vec::new();
    fields.push(uuid_string(grant_id));
    fields.push(uuid_string(identity_id));
    fields.push(owned(requested_signing_public_key_b64));
    proof {
        assert(texts(fields@) =~= seq![uuid_text(grant_id), uuid_text(identity_id), requested_signing_public_key_b64@]);
    }
    canonical_message("device_grant.approved", &fields)
}

/// Which registered device holds the public key `public_key_b64`: the id
/// of the first device `(id, base64 public key)` whose key matches, if
/// any. This is how a session that only knows its own secret key learns
/// which server-side key it is.
pub fn find_own_signing_key_id(devices: &Vec<(u128, String)>, public_key_b64: &str) -> (r: Option<u128>)
    ensures
        match r {
            Some(id) => exists|i: int| 0 <= i < devices@.len() && devices@[i].0 == id
                && devices@[i].1@ == public_key_b64@
                && forall|j: int| 0 <= j < i ==> devices@[j].1@ != public_key_b64@,
            None => forall|i: int| 0 <= i < devices@.len() ==> devices@[i].1@ != public_key_b64@,
        },
{
    let mut i: usize = 0;
    while i < devices.len()
        invariant
            i <= devices@.len(),
            forall|j: int| 0 <= j < i ==> devices@[j].1@ != public_key_b64@,
        decreases devices@.len() - i,
    {
        if crate::text::str_eq(devices[i].1.as_str(), public_key_b64) {
            return Some(devices[i].0);
        }
        i = i + 1;
    }
    None
}

/// The 32-byte signing-key seed stored as base64 in saved credentials; a
/// text that is not base64 of exactly 32 bytes is a protocol error.
pub fn seed_from_base64(text: &str) -> (r: Result<[u8; 32], crate::error::SdkError>)
    ensures
        match crate::crypto::base64_bytes(text@) {
            Some(bytes) if bytes.len() == 32 => r matches Ok(seed) && seed@ == bytes,
            _ => r matches Err(crate::error::SdkError::Protocol(m))
                && m@ == "AccountCredentials::signing_key_seed_base64 was not a valid base64 32-byte seed"@,
        },
{
    let fail = crate::error::SdkError::Protocol(owned(
        "AccountCredentials::signing_key_seed_base64 was not a valid base64 32-byte seed",
    ));
    match crate::crypto::base64_decode(text) {
        Some(bytes) => {
            if bytes.len() != 32 {
                return Err(fail);
            }
            let mut seed = [0u8; 32];
            let mut i: usize = 0;
            while i < 32
                invariant
                    bytes@.len() == 32,
                    i <= 32,
                    seed@.len() == 32,
                    forall|j: int| 0 <= j < i ==> seed@[j] == bytes@[j],
                decreases 32 - i,
            {
                seed[i] = bytes[i];
                i = i + 1;
            }
            proof {
                assert(seed@ =~= bytes@);
            }
            Ok(seed)
        },
        None => Err(fail),
    }
}

/// The UUID texts of `ids`.
pub open spec fn uuid_texts(ids: Seq<u128>) -> Seq<Seq<char>> {
    ids.map_values(|g: u128| uuid_text(g))
}

/// The texts of `s` never descend: no later text sorts before an earlier
/// one.
pub open spec fn text_sorted(s: Seq<Seq<char>>) -> bool {
    forall|i: int, j: int| 0 <= i < j < s.len() ==> !text_lt(#[trigger] s[j], #[trigger] s[i])
}

/// `sorted` holds exactly the texts of `t`, in ascending text order.
pub open spec fn sorted_texts_of(sorted: Seq<Seq<char>>, t: Seq<Seq<char>>) -> bool {
    text_sorted(sorted) && sorted.to_multiset() == t.to_multiset()
}

/// The guardian field a guardian-set change signs: the guardians' UUID
/// texts in ascending text order, comma-joined.
pub open spec fn guardian_field_of(guardian_ids: Seq<u128>, field: Seq<char>) -> bool {
    exists|sorted: Seq<Seq<char>>| #[trigger] sorted_texts_of(sorted, uuid_texts(guardian_ids)) && field == joined(sorted, ',')
}

/// Where `name` goes in the ascending `sorted`: after every text that does
/// not sort after it.
fn insertion_point(sorted: &Vec<String>, name: &str) -> (p: usize)
    ensures
        p <= sorted@.len(),
        forall|q: int| 0 <= q < p ==> !text_lt(name@, #[trigger] sorted@[q]@),
        p < sorted@.len() ==> text_lt(name@, sorted@[p as int]@),
{
    let mut p: usize = 0;
    while p < sorted.len() && !text_less(name, sorted[p].as_str())
        invariant
            p <= sorted@.len(),
            forall|q: int| 0 <= q < p ==> !text_lt(name@, #[trigger] sorted@[q]@),
        decreases sorted@.len() - p,
    {
        p = p + 1;
    }
    p
}

/// The guardian field a guardian-set change signs: the guardians' UUID
/// texts in ascending text order, comma-joined.
pub fn guardian_set_field(guardian_ids: &Vec<u128>) -> (r: String)
    ensures
        guardian_field_of(guardian_ids@, r@),
{
    let ghost all = uuid_texts(guardian_ids@);
    let mut sorted: Vec<String> = Vec::new();
    let mut k: usize = 0;
    proof {
        assert(all.subrange(0, 0) =~= Seq::<Seq<char>>::empty());
        assert(texts(sorted@) =~= Seq::<Seq<char>>::empty());
    }
    while k < guardian_ids.len()
        invariant
            k <= guardian_ids@.len(),
            all == uuid_texts(guardian_ids@),
            text_sorted(texts(sorted@)),
            texts(sorted@).to_multiset() == all.subrange(0, k as int).to_multiset(),
        decreases guardian_ids@.len() - k,
    {
        let name = uuid_string(guardian_ids[k]);
        let p = insertion_point(&sorted, name.as_str());
        let ghost before = texts(sorted@);
        sorted.insert(p, name);
        proof {
            broadcast use vstd::seq_lib::group_to_multiset_ensures;
            let after = texts(sorted@);
            assert(after =~= before.insert(p as int, name@));
            assert(all.subrange(0, k + 1) =~= all.subrange(0, k as int).push(all[k as int]));
            assert(all[k as int] == name@);
            assert forall|i: int, j: int| 0 <= i < j < after.len() implies !text_lt(#[trigger] after[j], #[trigger] after[i]) by {
                if i < p && j < p {
                    assert(after[i] == before[i] && after[j] == before[j]);
                } else if i < p && j == p {
                    assert(after[i] == before[i]);
                } else if i < p {
                    assert(after[i] == before[i] && after[j] == before[j - 1]);
                    lemma_text_lt_order(before[j - 1], before[i], name@);
                    lemma_text_lt_order(before[i], name@, before[p as int]);
                    lemma_text_lt_order(before[j - 1], before[p as int], name@);
                    if p < j - 1 {
                        assert(!text_lt(before[j - 1], before[p as int]));
                    }
                    lemma_text_lt_order(name@, before[p as int], before[j - 1]);
                    lemma_text_lt_order(before[i], before[j - 1], name@);
                } else if i == p {
                    assert(after[j] == before[j - 1]);
                    assert(text_lt(name@, before[p as int]));
                    if j - 1 > p {
                        assert(!text_lt(before[j - 1], before[p as int]));
                    }
                    lemma_text_lt_order(before[j - 1], name@, before[p as int]);
                    lemma_text_lt_order(name@, before[p as int], before[j - 1]);
                } else {
                    assert(after[i] == before[i - 1] && after[j] == before[j - 1]);
                }
            }
        }
        k = k + 1;
    }
    proof {
        assert(all.subrange(0, all.len() as int) =~= all);
    }
    let r = comma_joined(&sorted);
    proof {
        assert(sorted_texts_of(texts(sorted@), all));
    }
    r
}

/// Two ascending sequences of the same texts are the same sequence.
proof fn lemma_sorted_texts_unique(a: Seq<Seq<char>>, b: Seq<Seq<char>>)
    requires
        text_sorted(a),
        text_sorted(b),
        a.to_multiset() == b.to_multiset(),
    ensures
        a == b,
    decreases a.len(),
{
    broadcast use vstd::seq_lib::group_to_multiset_ensures;
    if a.len() == 0 {
        assert(b.to_multiset().len() == 0);
        assert(a =~= b);
    } else {
        vstd::seq_lib::to_multiset_len(a);
        vstd::seq_lib::to_multiset_len(b);
        assert(b.len() == a.len());
        assert(a.contains(b[0])) by {
            assert(b.contains(b[0]));
            assert(b.to_multiset().count(b[0]) > 0);
        }
        assert(b.contains(a[0])) by {
            assert(a.contains(a[0]));
            assert(a.to_multiset().count(a[0]) > 0);
        }
        let i = choose|i: int| 0 <= i < a.len() && a[i] == b[0];
        let j = choose|j: int| 0 <= j < b.len() && b[j] == a[0];
        if i > 0 {
            assert(!text_lt(a[i], a[0]));
        }
        if j > 0 {
            assert(!text_lt(b[j], b[0]));
        }
        lemma_text_lt_order(a[0], b[0], a[0]);
        assert(a[0] == b[0]);
        assert(a.remove(0) =~= a.drop_first());
        assert(b.remove(0) =~= b.drop_first());
        let a1 = a.drop_first();
        let b1 = b.drop_first();
        assert(a1.to_multiset() == b1.to_multiset());
        assert forall|x: int, y: int| 0 <= x < y < a1.len() implies !text_lt(#[trigger] a1[y], #[trigger] a1[x]) by {
            assert(a1[y] == a[y + 1] && a1[x] == a[x + 1]);
        }
        assert forall|x: int, y: int| 0 <= x < y < b1.len() implies !text_lt(#[trigger] b1[y], #[trigger] b1[x]) by {
            assert(b1[y] == b[y + 1] && b1[x] == b[x + 1]);
        }
        lemma_sorted_texts_unique(a1, b1);
        assert(a =~= seq![a[0]] + a1);
        assert(b =~= seq![b[0]] + b1);
    }
}

/// Mapping two sequences with the same elements gives two sequences with
/// the same elements.
proof fn lemma_map_keeps_multiset(s1: Seq<u128>, s2: Seq<u128>)
    requires
        s1.to_multiset() == s2.to_multiset(),
    ensures
        uuid_texts(s1).to_multiset() == uuid_texts(s2).to_multiset(),
    decreases s1.len(),
{
    broadcast use vstd::seq_lib::group_to_multiset_ensures;
    if s1.len() == 0 {
        assert(s2.to_multiset().len() == 0);
        assert(uuid_texts(s1) =~= Seq::<Seq<char>>::empty());
        assert(uuid_texts(s2) =~= Seq::<Seq<char>>::empty());
    } else {
        let x = s1[0];
        assert(s1.contains(x));
        assert(s1.to_multiset().count(x) > 0);
        assert(s2.contains(x));
        let j = choose|j: int| 0 <= j < s2.len() && s2[j] == x;
        let r1 = s1.remove(0);
        let r2 = s2.remove(j);
        assert(r1.to_multiset() =~= r2.to_multiset());
        lemma_map_keeps_multiset(r1, r2);
        let t1 = uuid_texts(s1);
        let t2 = uuid_texts(s2);
        assert(t1.remove(0) =~= uuid_texts(r1));
        assert(t2.remove(j) =~= uuid_texts(r2));
        assert(t1.contains(t1[0]));
        assert(t2.contains(t2[j]));
        assert(t1[0] == t2[j]);
        assert(t1.to_multiset().count(t1[0]) > 0);
        assert(t2.to_multiset().count(t2[j]) > 0);
        assert(t1.to_multiset() =~= t1.remove(0).to_multiset().insert(t1[0]));
        assert(t2.to_multiset() =~= t2.remove(j).to_multiset().insert(t2[j]));
    }
}

/// The guardian field does not depend on the order the guardians are
/// listed in: any two listings of the same guardians (as a multiset) give
/// the same field.
pub proof fn lemma_guardian_field_ignores_order(ids1: Seq<u128>, ids2: Seq<u128>, f1: Seq<char>, f2: Seq<char>)
    requires
        ids1.to_multiset() == ids2.to_multiset(),
        guardian_field_of(ids1, f1),
        guardian_field_of(ids2, f2),
    ensures
        f1 == f2,
{
    let s1 = choose|s: Seq<Seq<char>>| #[trigger] sorted_texts_of(s, uuid_texts(ids1)) && f1 == joined(s, ',');
    let s2 = choose|s: Seq<Seq<char>>| #[trigger] sorted_texts_of(s, uuid_texts(ids2)) && f2 == joined(s, ',');
    lemma_map_keeps_multiset(ids1, ids2);
    lemma_sorted_texts_unique(s1, s2);
}

/// What the `time` crate's RFC 3339 parser makes of a text: the instant it
/// denotes in nanoseconds since the Unix epoch, or the text of its error.
pub uninterp spec fn rfc3339_parsed(text: Seq<char>) -> Result<int, Seq<char>>;

/// Parses RFC 3339 text (`time::OffsetDateTime::parse` with `Rfc3339`), as
/// nanoseconds since the Unix epoch; the error as its display text.
#[verifier::external_body]
fn parse_rfc3339_instant(text: &str) -> (r: Result<i128, String>)
    ensures
        match r {
            Ok(ns) => rfc3339_parsed(text@) == Ok::<int, Seq<char>>(ns as int),
            Err(e) => rfc3339_parsed(text@) == Err::<int, Seq<char>>(e@),
        },
{
    match time::OffsetDateTime::parse(text, &time::format_description::well_known::Rfc3339) {
        Ok(t) => Ok(t.unix_timestamp_nanos()),
        Err(e) => Err(e.to_string()),
    }
}

/// How `{:?}` prints a text: quoted, with std's escapes.
pub uninterp spec fn debug_quoted(text: Seq<char>) -> Seq<char>;

/// A text as `{:?}` prints it.
#[verifier::external_body]
fn quoted(text: &str) -> (r: String)
    ensures
        r@ == debug_quoted(text@),
{
    format!("{text:?}")
}

/// Parses an RFC 3339 timestamp, as nanoseconds since the Unix epoch; a
/// text that does not parse is a protocol error naming it and the reason.
pub fn parse_rfc3339(s: &str) -> (r: Result<i128, crate::error::SdkError>)
    ensures
        match rfc3339_parsed(s@) {
            Ok(ns) => r == Ok::<i128, crate::error::SdkError>(ns as i128),
            Err(e) => r matches Err(crate::error::SdkError::Protocol(m))
                && m@ == "invalid RFC3339 timestamp "@ + debug_quoted(s@) + ": "@ + e,
        },
{
    match parse_rfc3339_instant(s) {
        Ok(ns) => Ok(ns),
        Err(e) => {
            let mut m = owned("invalid RFC3339 timestamp ");
            let q = quoted(s);
            push_str(&mut m, q.as_str());
            push_str(&mut m, ": ");
            push_str(&mut m, e.as_str());
            Err(crate::error::SdkError::Protocol(m))
        },
    }
}

/// What the `time` crate's RFC 3339 formatter writes for the instant
/// `unix_ns` nanoseconds after the Unix epoch (in UTC), or the text of its
/// error when the instant is out of its range or cannot be written.
pub uninterp spec fn rfc3339_formatted(unix_ns: int) -> Result<Seq<char>, Seq<char>>;

/// Formats an instant as RFC 3339 in UTC
/// (`time::OffsetDateTime::from_unix_timestamp_nanos`, then `format` with
/// `Rfc3339`); the error as its display text.
#[verifier::external_body]
fn format_rfc3339_instant(unix_ns: i128) -> (r: Result<String, String>)
    ensures
        match r {
            Ok(t) => rfc3339_formatted(unix_ns as int) == Ok::<Seq<char>, Seq<char>>(t@),
            Err(e) => rfc3339_formatted(unix_ns as int) == Err::<Seq<char>, Seq<char>>(e@),
        },
{
    match time::OffsetDateTime::from_unix_timestamp_nanos(unix_ns) {
        Ok(t) => t.format(&time::format_description::well_known::Rfc3339).map_err(|e| e.to_string()),
        Err(e) => Err(e.to_string()),
    }
}

/// The RFC 3339 text of an instant given in nanoseconds since the Unix
/// epoch; an instant the formatter cannot write is a protocol error.
pub fn format_rfc3339(unix_ns: i128) -> (r: Result<String, crate::error::SdkError>)
    ensures
        match rfc3339_formatted(unix_ns as int) {
            Ok(t) => r matches Ok(out) && out@ == t,
            Err(e) => r matches Err(crate::error::SdkError::Protocol(m))
                && m@ == "formatting the instant as RFC3339: "@ + e,
        },
{
    match format_rfc3339_instant(unix_ns) {
        Ok(t) => Ok(t),
        Err(e) => {
            let mut m = owned("formatting the instant as RFC3339: ");
            push_str(&mut m, e.as_str());
            Err(crate::error::SdkError::Protocol(m))
        },
    }
}

} // verus!
