use vstd::prelude::*;

verus! {

/// The version tag that every encoded message carries under the key `jsonrpc`.
pub const JSONRPC_V2: &'static str = "2.0";

/// A JSON value. The members of an object keep their order.
#[derive(Debug, PartialEq, Eq, Hash)]
pub enum Json {
    Null,
    Bool(bool),
    Number(i128),
    Str(String),
    Array(Vec<Json>),
    Object(Vec<(String, Json)>),
}

/// The number of members of `m` whose key is `k`.
pub open spec fn key_count(m: Seq<(String, Json)>, k: Seq<char>) -> nat
    decreases m.len(),
{
    if m.len() == 0 {
        0
    } else {
        (if m[0].0@ == k { 1nat } else { 0nat }) + key_count(m.drop_first(), k)
    }
}

/// The value of the first member of `m` whose key is `k`.
pub open spec fn lookup(m: Seq<(String, Json)>, k: Seq<char>) -> Option<Json>
    decreases m.len(),
{
    if m.len() == 0 {
        None
    } else if m[0].0@ == k {
        Some(m[0].1)
    } else {
        lookup(m.drop_first(), k)
    }
}

/// Some key of `keys` occurs twice or more among the members `m`.
pub open spec fn has_duplicate(m: Seq<(String, Json)>, keys: Seq<Seq<char>>) -> bool {
    exists|i: int| 0 <= i < keys.len() && #[trigger] key_count(m, keys[i]) >= 2
}

/// `j` is an object whose first `jsonrpc` member is the string `"2.0"`.
pub open spec fn version_tag_ok(j: Json) -> bool {
    match j {
        Json::Object(m) => match lookup(m@, "jsonrpc"@) {
            Some(Json::Str(s)) => s@ == JSONRPC_V2@,
            _ => false,
        },
        _ => false,
    }
}

proof fn lemma_suffix_step(m: Seq<(String, Json)>, a: int, k: Seq<char>)
    requires
        0 <= a < m.len(),
    ensures
        lookup(m.subrange(a, m.len() as int), k) == (if m[a].0@ == k {
            Some(m[a].1)
        } else {
            lookup(m.subrange(a + 1, m.len() as int), k)
        }),
        key_count(m.subrange(a, m.len() as int), k) == (if m[a].0@ == k { 1nat } else { 0nat })
            + key_count(m.subrange(a + 1, m.len() as int), k),
{
    let t = m.subrange(a, m.len() as int);
    assert(t.drop_first() =~= m.subrange(a + 1, m.len() as int));
}

proof fn lemma_found_counts(m: Seq<(String, Json)>, k: Seq<char>)
    ensures
        lookup(m, k) is Some <==> key_count(m, k) >= 1,
    decreases m.len(),
{
    if m.len() > 0 {
        lemma_found_counts(m.drop_first(), k);
    }
}

/// Index of the first member of `m` whose key is `key`.
pub(crate) fn find_member(m: &Vec<(String, Json)>, key: &String) -> (r: Option<usize>)
    ensures
        match r {
            Some(i) => i < m@.len() && m@[i as int].0@ == key@ && lookup(m@, key@) == Some(
                m@[i as int].1,
            ),
            None => lookup(m@, key@) is None,
        },
{
    let n = m.len();
    let mut i: usize = n;
    let mut found: Option<usize> = None;
    while i > 0
        invariant
            i <= n == m@.len(),
            match found {
                Some(f) => i <= f < n && m@[f as int].0@ == key@ && lookup(
                    m@.subrange(i as int, n as int),
                    key@,
                ) == Some(m@[f as int].1),
                None => lookup(m@.subrange(i as int, n as int), key@) is None,
            },
        decreases i,
    {
        i = i - 1;
        proof {
            lemma_suffix_step(m@, i as int, key@);
        }
        if m[i].0 == *key {
            found = Some(i);
        }
    }
    assert(m@.subrange(0, n as int) =~= m@);
    found
}

/// Takes the members of an object apart: for each key of `keys`, the value of
/// its first member, or `None` where no member has that key. Fails where a key
/// of `keys` occurs twice or more.
pub(crate) fn take_members(m: Vec<(String, Json)>, keys: &Vec<String>) -> (r: Option<
    Vec<Option<Json>>,
>)
    requires
        forall|i: int, j: int|
            0 <= i < j < keys@.len() ==> #[trigger] keys@[i]@ != #[trigger] keys@[j]@,
    ensures
        r is None <==> has_duplicate(m@, keys@.map_values(|k: String| k@)),
        r matches Some(vals) ==> vals@.len() == keys@.len() && forall|i: int|
            0 <= i < keys@.len() ==> #[trigger] vals@[i] == lookup(m@, keys@[i]@),
{
    let ghost s = m@;
    let ghost ks = keys@.map_values(|k: String| k@);
    let n = m.len();
    let mut rest = m;
    let mut vals: Vec<Option<Json>> = Vec::new();
    let mut c: usize = 0;
    while c < keys.len()
        invariant
            c <= keys@.len(),
            vals@.len() == c,
            forall|j: int| 0 <= j < c ==> #[trigger] vals@[j] is None,
        decreases keys@.len() - c,
    {
        vals.push(None);
        c = c + 1;
    }
    let mut dup = false;
    while rest.len() > 0
        invariant
            n == s.len(),
            rest@.len() <= n,
            forall|i: int, j: int|
                0 <= i < j < keys@.len() ==> #[trigger] keys@[i]@ != #[trigger] keys@[j]@,
            rest@ == s.subrange(0, rest@.len() as int),
            vals@.len() == keys@.len(),
            ks == keys@.map_values(|k: String| k@),
            forall|j: int|
                0 <= j < keys@.len() ==> #[trigger] vals@[j] == lookup(
                    s.subrange(rest@.len() as int, n as int),
                    keys@[j]@,
                ),
            dup <==> has_duplicate(s.subrange(rest@.len() as int, n as int), ks),
        decreases rest@.len(),
    {
        let ghost a = rest@.len() - 1;
        let ghost before = vals@;
        let (k, v) = match rest.pop() {
            Some(e) => e,
            None => { return None; },
        };
        proof {
            assert(s[a] == (k, v));
            assert forall|j: int| 0 <= j < keys@.len() implies lookup(
                s.subrange(a, n as int),
                keys@[j]@,
            ) == (if k@ == keys@[j]@ {
                Some(v)
            } else {
                lookup(s.subrange(a + 1, n as int), keys@[j]@)
            }) && key_count(s.subrange(a, n as int), ks[j]) == (if k@ == ks[j] { 1nat } else { 0nat })
                + key_count(s.subrange(a + 1, n as int), ks[j]) by {
                assert(ks[j] == keys@[j]@);
                lemma_suffix_step(s, a, keys@[j]@);
            }
        }
        let mut j: usize = 0;
        let mut hit: Option<usize> = None;
        while j < keys.len()
            invariant
                j <= keys@.len(),
                match hit {
                    Some(h) => h < j && keys@[h as int]@ == k@,
                    None => forall|q: int| 0 <= q < j ==> #[trigger] keys@[q]@ != k@,
                },
            decreases keys@.len() - j,
        {
            if hit.is_none() && keys[j] == k {
                hit = Some(j);
            }
            j = j + 1;
        }
        match hit {
            Some(h) => {
                if vals[h].is_some() {
                    dup = true;
                }
                vals.set(h, Some(v));
            },
            None => {},
        }
        proof {
            assert forall|q: int| 0 <= q < keys@.len() implies #[trigger] vals@[q] == lookup(
                s.subrange(a, n as int),
                keys@[q]@,
            ) by {
                lemma_suffix_step(s, a, keys@[q]@);
                if keys@[q]@ == k@ {
                    assert(hit is Some);
                    let h = hit->0 as int;
                    if h != q {
                        if h < q {
                            assert(keys@[h]@ != keys@[q]@);
                        } else {
                            assert(keys@[q]@ != keys@[h]@);
                        }
                    }
                } else {
                    assert(vals@[q] == before[q]);
                }
            }
            assert(ks.len() == keys@.len());
            if dup {
                if has_duplicate(s.subrange(a + 1, n as int), ks) {
                    let w = choose|i: int| 0 <= i < ks.len() && #[trigger] key_count(
                        s.subrange(a + 1, n as int),
                        ks[i],
                    ) >= 2;
                    assert(key_count(s.subrange(a, n as int), ks[w]) >= 2);
                } else {
                    let h = hit->0 as int;
                    assert(before[h] is Some);
                    assert(ks[h] == k@);
                    lemma_found_counts(s.subrange(a + 1, n as int), ks[h]);
                    assert(key_count(s.subrange(a, n as int), ks[h]) >= 2);
                }
            }
            if has_duplicate(s.subrange(a, n as int), ks) {
                let w = choose|i: int| 0 <= i < ks.len() && #[trigger] key_count(
                    s.subrange(a, n as int),
                    ks[i],
                ) >= 2;
                if !has_duplicate(s.subrange(a + 1, n as int), ks) {
                    assert(key_count(s.subrange(a + 1, n as int), ks[w]) < 2);
                    assert(ks[w] == k@);
                    assert(keys@[w]@ == k@);
                    assert(hit is Some);
                    let h = hit->0 as int;
                    assert(ks[h] == ks[w]);
                    lemma_suffix_step(s, a, ks[w]);
                    lemma_found_counts(s.subrange(a + 1, n as int), ks[w]);
                    assert(before[h] is Some);
                }
            }
        }
    }
    assert(s.subrange(0, n as int) =~= s);
    if dup {
        None
    } else {
        Some(vals)
    }
}

/// Checks the version tag of a received message: `true` exactly when `j` is
/// an object whose first `jsonrpc` member is the string `"2.0"`.
pub fn has_version_tag(j: &Json) -> (r: bool)
    ensures
        r == version_tag_ok(*j),
{
    match j {
        Json::Object(m) => {
            let key = "jsonrpc".to_owned();
            match find_member(m, &key) {
                Some(i) => match &m[i].1 {
                    Json::Str(s) => *s == JSONRPC_V2.to_owned(),
                    _ => false,
                },
                None => false,
            }
        },
        _ => false,
    }
}

} // verus!

verus! {

/// `e` is the member `"jsonrpc": "2.0"`.
pub open spec fn is_version_member(e: (String, Json)) -> bool {
    e.0@ == "jsonrpc"@ && match e.1 {
        Json::Str(s) => s@ == JSONRPC_V2@,
        _ => false,
    }
}

/// The member `"jsonrpc": "2.0"`.
pub(crate) fn version_member() -> (r: (String, Json))
    ensures
        is_version_member(r),
{
    ("jsonrpc".to_owned(), Json::Str(JSONRPC_V2.to_owned()))
}

} // verus!

verus! {

/// The keys `a`, `b` and `c`, as the list that `take_members` takes.
pub(crate) fn key_list(a: &str, b: &str, c: &str) -> (r: Vec<String>)
    requires
        a@ != b@,
        a@ != c@,
        b@ != c@,
    ensures
        r@.map_values(|k: String| k@) == seq![a@, b@, c@],
        forall|i: int, j: int| 0 <= i < j < r@.len() ==> #[trigger] r@[i]@ != #[trigger] r@[j]@,
{
    let mut r: Vec<String> = Vec::new();
    r.push(a.to_owned());
    r.push(b.to_owned());
    r.push(c.to_owned());
    assert(r@.map_values(|k: String| k@) =~= seq![a@, b@, c@]);
    r
}

} // verus!

verus! {

/// The member keys of the protocol, told apart by length and first letter.
pub proof fn lemma_wire_keys()
    ensures
        "jsonrpc"@.len() == 7 && "jsonrpc"@[0] == 'j',
        "method"@.len() == 6 && "method"@[0] == 'm',
        "params"@.len() == 6 && "params"@[0] == 'p',
        "id"@.len() == 2 && "id"@[0] == 'i',
        "result"@.len() == 6 && "result"@[0] == 'r',
        "error"@.len() == 5 && "error"@[0] == 'e',
        "code"@.len() == 4 && "code"@[0] == 'c',
        "message"@.len() == 7 && "message"@[0] == 'm',
        "data"@.len() == 4 && "data"@[0] == 'd',
{
    reveal_strlit("jsonrpc");
    reveal_strlit("method");
    reveal_strlit("params");
    reveal_strlit("id");
    reveal_strlit("result");
    reveal_strlit("error");
    reveal_strlit("code");
    reveal_strlit("message");
    reveal_strlit("data");
}

} // verus!

verus! {

/// The keys `a` and `b`, as the list that `take_members` takes.
pub(crate) fn key_pair(a: &str, b: &str) -> (r: Vec<String>)
    requires
        a@ != b@,
    ensures
        r@.map_values(|k: String| k@) == seq![a@, b@],
        forall|i: int, j: int| 0 <= i < j < r@.len() ==> #[trigger] r@[i]@ != #[trigger] r@[j]@,
{
    let mut r: Vec<String> = Vec::new();
    r.push(a.to_owned());
    r.push(b.to_owned());
    assert(r@.map_values(|k: String| k@) =~= seq![a@, b@]);
    r
}

} // verus!
