use vstd::prelude::*;
use crate::actor::{actor_document, webfinger_document, Actor, ActorView};
use crate::registry::Registry;
use crate::text::str_eq;

verus! {

/// The characters that delimit the pieces of an `acct:` resource value.
pub open spec fn is_sep(c: char) -> bool {
    c == ':' || c == '@'
}

pub open spec fn no_sep(s: Seq<char>) -> bool {
    forall|i: int| 0 <= i < s.len() ==> !is_sep(s[i])
}

/// The position of the first delimiter at or after `i`.
pub open spec fn first_sep(s: Seq<char>, i: int) -> Option<int>
    decreases s.len() - i,
        when 0 <= i <= s.len()
{
    if i >= s.len() {
        None
    } else if is_sep(s[i]) {
        Some(i)
    } else {
        first_sep(s, i + 1)
    }
}

pub proof fn lemma_first_sep_props(s: Seq<char>, i: int)
    requires
        0 <= i <= s.len(),
    ensures
        match first_sep(s, i) {
            Some(j) => i <= j < s.len() && is_sep(s[j]) && forall|k: int|
                i <= k < j ==> !is_sep(s[k]),
            None => forall|k: int| i <= k < s.len() ==> !is_sep(s[k]),
        },
    decreases s.len() - i,
{
    if i < s.len() && !is_sep(s[i]) {
        lemma_first_sep_props(s, i + 1);
    }
}

pub proof fn lemma_first_sep_finds(s: Seq<char>, i: int, j: int)
    requires
        0 <= i <= j < s.len(),
        forall|k: int| i <= k < j ==> !is_sep(s[k]),
        is_sep(s[j]),
    ensures
        first_sep(s, i) == Some(j),
    decreases j - i,
{
    if i < j {
        lemma_first_sep_finds(s, i + 1, j);
    }
}

/// The `acct:` resource value naming `name` under `domain`.
pub open spec fn acct_value(name: Seq<char>, domain: Seq<char>) -> Seq<char> {
    "acct:"@ + name + "@"@ + domain
}

/// The name a resource value resolves to under a domain: the value must be
/// `acct:`, a delimiter-free name, `@`, and exactly the domain.
pub open spec fn acct_parse(v: Seq<char>, domain: Seq<char>) -> Option<Seq<char>> {
    if v.len() >= 5 && v.subrange(0, 5) == "acct:"@ {
        match first_sep(v, 5) {
            Some(j) => if v[j] == '@' && v.subrange(j + 1, v.len() as int) == domain && first_sep(
                v,
                j + 1,
            ) is None {
                Some(v.subrange(5, j))
            } else {
                None
            },
            None => None,
        }
    } else {
        None
    }
}

/// A well-formed resource value for a name under the served domain resolves
/// to exactly that name.
pub proof fn lemma_acct_parse_complete(name: Seq<char>, domain: Seq<char>)
    requires
        no_sep(name),
        no_sep(domain),
    ensures
        acct_parse(acct_value(name, domain), domain) == Some(name),
{
    reveal_strlit("acct:");
    reveal_strlit("@");
    let v = acct_value(name, domain);
    assert(v.len() == 5 + name.len() + 1 + domain.len());
    assert(v.subrange(0, 5) =~= "acct:"@);
    let j = 5 + name.len() as int;
    assert(v[j] == '@');
    assert forall|k: int| 5 <= k < j implies !is_sep(v[k]) by {
        assert(v[k] == name[k - 5]);
    }
    lemma_first_sep_finds(v, 5, j);
    assert(v.subrange(j + 1, v.len() as int) =~= domain);
    assert forall|k: int| j + 1 <= k < v.len() implies !is_sep(v[k]) by {
        assert(v[k] == domain[k - (j + 1)]);
    }
    lemma_first_sep_props(v, j + 1);
    assert(first_sep(v, j + 1) is None);
    assert(v.subrange(5, j) =~= name);
}

/// Whatever a resource value resolves to, the value was exactly the `acct:`
/// form of that name under the served domain, and the name holds no
/// delimiter: a wrong-domain or malformed value resolves to nothing.
pub proof fn lemma_acct_parse_sound(v: Seq<char>, domain: Seq<char>, name: Seq<char>)
    requires
        acct_parse(v, domain) == Some(name),
    ensures
        v == acct_value(name, domain),
        no_sep(name),
{
    reveal_strlit("acct:");
    reveal_strlit("@");
    lemma_first_sep_props(v, 5);
    let j = first_sep(v, 5).unwrap();
    assert(name == v.subrange(5, j));
    assert forall|k: int| 0 <= k < name.len() implies !is_sep(name[k]) by {
        assert(name[k] == v[5 + k]);
    }
    assert(v =~= acct_value(name, domain));
}

/// What a query resolves to: the last `resource` entry whose value is a
/// well-formed `acct:` form under the served domain decides, by a registry
/// lookup; entries that are not well-formed leave the earlier decision.
pub open spec fn resolve_query(
    q: Seq<(Seq<char>, Seq<char>)>,
    m: Map<Seq<char>, ActorView>,
    domain: Seq<char>,
) -> Option<ActorView>
    decreases q.len(),
{
    if q.len() == 0 {
        None
    } else {
        let prev = resolve_query(q.drop_last(), m, domain);
        let kv = q.last();
        if kv.0 == "resource"@ {
            match acct_parse(kv.1, domain) {
                Some(n) => if m.contains_key(n) {
                    Some(m[n])
                } else {
                    None
                },
                None => prev,
            }
        } else {
            prev
        }
    }
}

/// The view of a query's key/value pairs.
pub open spec fn query_view(q: Seq<(String, String)>) -> Seq<(Seq<char>, Seq<char>)> {
    q.map_values(|p: (String, String)| (p.0@, p.1@))
}

/// The executable mirror of [`acct_parse`].
pub fn parse_acct(v: &str, domain: &str) -> (r: Option<String>)
    ensures
        match acct_parse(v@, domain@) {
            Some(n) => r matches Some(s) && s@ == n,
            None => r is None,
        },
{
    proof {
        reveal_strlit("acct:");
    }
    let cs = crate::text::str_to_chars(v);
    let len = cs.len();
    if len < 5 {
        return None;
    }
    if !(cs[0] == 'a' && cs[1] == 'c' && cs[2] == 'c' && cs[3] == 't' && cs[4] == ':') {
        proof {
            if v@.subrange(0, 5) == "acct:"@ {
                assert(v@.subrange(0, 5)[0] == v@[0]);
                assert(v@.subrange(0, 5)[1] == v@[1]);
                assert(v@.subrange(0, 5)[2] == v@[2]);
                assert(v@.subrange(0, 5)[3] == v@[3]);
                assert(v@.subrange(0, 5)[4] == v@[4]);
            }
            assert(v@.subrange(0, 5) != "acct:"@);
        }
        return None;
    }
    proof {
        assert(v@.subrange(0, 5) =~= "acct:"@);
    }
    let mut j: usize = 5;
    while j < len && !(cs[j] == ':' || cs[j] == '@')
        invariant
            5 <= j <= len,
            len == v@.len(),
            cs@ == v@,
            forall|k: int| 5 <= k < j ==> !is_sep(v@[k]),
        decreases len - j,
    {
        j += 1;
    }
    if j == len {
        proof {
            lemma_first_sep_props(v@, 5);
        }
        return None;
    }
    proof {
        lemma_first_sep_finds(v@, 5, j as int);
    }
    if cs[j] != '@' {
        return None;
    }
    let dlen = domain.unicode_len();
    if len - (j + 1) != dlen {
        proof {
            assert(v@.subrange(j + 1, len as int).len() != domain@.len());
            assert(v@.subrange(j + 1, v@.len() as int) != domain@);
            assert(acct_parse(v@, domain@) is None);
        }
        return None;
    }
    let mut k: usize = 0;
    while k < dlen
        invariant
            k <= dlen,
            len == v@.len(),
            cs@ == v@,
            dlen == domain@.len(),
            5 <= j < len,
            j + 1 + dlen == len,
            v@.subrange(0, 5) == "acct:"@,
            first_sep(v@, 5) == Some(j as int),
            v@[j as int] == '@',
            forall|t: int| 0 <= t < k ==> v@[j + 1 + t] == domain@[t],
        decreases dlen - k,
    {
        if cs[j + 1 + k] != domain.get_char(k) {
            proof {
                assert(v@.subrange(j + 1, len as int)[k as int] != domain@[k as int]);
            }
            return None;
        }
        k += 1;
    }
    proof {
        assert(v@.subrange(j + 1, len as int) =~= domain@);
    }
    let mut t: usize = j + 1;
    while t < len
        invariant
            j + 1 <= t <= len,
            len == v@.len(),
            cs@ == v@,
            5 <= j < len,
            v@.subrange(0, 5) == "acct:"@,
            first_sep(v@, 5) == Some(j as int),
            v@[j as int] == '@',
            v@.subrange(j + 1, len as int) == domain@,
            forall|u: int| j + 1 <= u < t ==> !is_sep(v@[u]),
        decreases len - t,
    {
        if cs[t] == ':' || cs[t] == '@' {
            proof {
                lemma_first_sep_finds(v@, j + 1 as int, t as int);
            }
            return None;
        }
        t += 1;
    }
    proof {
        lemma_first_sep_props(v@, j + 1 as int);
        assert(first_sep(v@, j + 1 as int) is None);
    }
    let mut name: Vec<char> = Vec::new();
    let mut p: usize = 5;
    while p < j
        invariant
            5 <= p <= j,
            j < len,
            len == v@.len(),
            cs@ == v@,
            v@.subrange(0, 5) == "acct:"@,
            first_sep(v@, 5) == Some(j as int),
            v@[j as int] == '@',
            v@.subrange(j + 1, len as int) == domain@,
            first_sep(v@, j + 1 as int) is None,
            name@ == v@.subrange(5, p as int),
        decreases j - p,
    {
        name.push(cs[p]);
        proof {
            assert(name@ =~= v@.subrange(5, p + 1 as int));
        }
        p += 1;
    }
    Some(crate::text::chars_to_string(&name))
}

/// Resolves a WebFinger query against the registry: the actor named by the
/// last well-formed `resource` entry for the served domain, if registered.
pub fn resolve<'a>(registry: &'a Registry, query: &Vec<(String, String)>, domain: &str) -> (r:
    Option<&'a Actor>)
    ensures
        match r {
            Some(a) => resolve_query(query_view(query@), registry@, domain@) == Some(a@),
            None => resolve_query(query_view(query@), registry@, domain@) is None,
        },
{
    let n = query.len();
    let mut acc: Option<&'a Actor> = None;
    let mut i: usize = 0;
    while i < n
        invariant
            i <= n,
            n == query@.len(),
            match acc {
                Some(a) => resolve_query(query_view(query@).subrange(0, i as int), registry@,
                    domain@) == Some(a@),
                None => resolve_query(query_view(query@).subrange(0, i as int), registry@, domain@)
                    is None,
            },
        decreases n - i,
    {
        let ghost qv = query_view(query@);
        proof {
            assert(qv.subrange(0, i + 1 as int).drop_last() =~= qv.subrange(0, i as int));
            assert(qv.subrange(0, i + 1 as int).last() == qv[i as int]);
            assert(qv[i as int] == (query@[i as int].0@, query@[i as int].1@));
        }
        if str_eq(query[i].0.as_str(), "resource") {
            match parse_acct(query[i].1.as_str(), domain) {
                Some(nm) => {
                    acc = registry.get(nm.as_str());
                },
                None => {},
            }
        }
        i += 1;
    }
    proof {
        assert(query_view(query@).subrange(0, n as int) =~= query_view(query@));
    }
    acc
}

/// The WebFinger document served for a query: rendered for the actor the
/// query resolves to, absent when it resolves to none.
pub fn webfinger_endpoint(registry: &Registry, query: &Vec<(String, String)>, domain: &str) -> (r:
    Option<String>)
    ensures
        match resolve_query(query_view(query@), registry@, domain@) {
            Some(av) => r matches Some(s) && s@ == webfinger_document(av.name, domain@),
            None => r is None,
        },
{
    match resolve(registry, query, domain) {
        Some(actor) => match actor.webfinger(domain) {
            Ok(doc) => Some(doc),
            Err(_) => None,
        },
        None => None,
    }
}

/// The actor document served for a direct lookup of a name: rendered exactly
/// when the name is registered.
pub fn actor_endpoint(registry: &Registry, name: &str, domain: &str) -> (r: Option<String>)
    ensures
        match r {
            Some(s) => registry@.contains_key(name@) && s@ == actor_document(
                registry@[name@].name,
                registry@[name@].public_pem,
                domain@,
            ),
            None => !registry@.contains_key(name@),
        },
{
    match registry.get(name) {
        Some(actor) => match actor.json(domain) {
            Ok(doc) => Some(doc),
            Err(_) => None,
        },
        None => None,
    }
}

} // verus!
